//! Ordering by name: the members of every struct and class, then the lists
//! of the document.
//!
//! The order is that of `lex_le` on the names. Entities of one name keep the
//! order in which they stood.

use crate::document::model::{
    Document, DocumentView, Enum, EnumView, Function, FunctionView, Property, PropertyView,
    StructClass, StructClassView,
};
use crate::text::{
    lemma_lex_le_reflexive, lemma_lex_le_total, lemma_lex_le_transitive, lex_le, str_le,
};
use vstd::prelude::*;

verus! {

/// An entity that is listed under its name.
pub trait Named: DeepView + Sized {
    /// The name, read from the view.
    spec fn name_of(view: Self::V) -> Seq<char>;

    /// The name.
    fn name_text(&self) -> (r: &String)
        ensures
            r@ == Self::name_of(self.deep_view()),
    ;
}

impl Named for Enum {
    open spec fn name_of(view: EnumView) -> Seq<char> {
        view.name
    }

    fn name_text(&self) -> (r: &String) {
        &self.name
    }
}

impl Named for StructClass {
    open spec fn name_of(view: StructClassView) -> Seq<char> {
        view.name
    }

    fn name_text(&self) -> (r: &String) {
        &self.name
    }
}

impl Named for Property {
    open spec fn name_of(view: PropertyView) -> Seq<char> {
        view.name
    }

    fn name_text(&self) -> (r: &String) {
        &self.name
    }
}

impl Named for Function {
    open spec fn name_of(view: FunctionView) -> Seq<char> {
        view.name
    }

    fn name_text(&self) -> (r: &String) {
        &self.name
    }
}

/// `sorted` with `item` placed behind the last entity that is not ordered
/// after it.
pub open spec fn placed<T: Named>(sorted: Seq<T::V>, item: T::V) -> Seq<T::V>
    decreases sorted.len(),
{
    if sorted.len() == 0 {
        seq![item]
    } else if lex_le(T::name_of(sorted.last()), T::name_of(item)) {
        sorted.push(item)
    } else {
        placed::<T>(sorted.drop_last(), item).push(sorted.last())
    }
}

/// The entities of `items` in the order of their names; entities of one
/// name in the order in which they stand in `items`.
pub open spec fn sorted_by_name<T: Named>(items: Seq<T::V>) -> Seq<T::V>
    decreases items.len(),
{
    if items.len() == 0 {
        items
    } else {
        placed::<T>(sorted_by_name::<T>(items.drop_last()), items.last())
    }
}

/// Whether the names of `items` stand in order.
pub open spec fn ordered_by_name<T: Named>(items: Seq<T::V>) -> bool {
    forall|i: int, j: int|
        0 <= i < j < items.len() ==> lex_le(
            T::name_of(#[trigger] items[i]),
            T::name_of(#[trigger] items[j]),
        )
}

proof fn lemma_placed_at<T: Named>(sorted: Seq<T::V>, item: T::V, at: int)
    requires
        0 <= at <= sorted.len(),
        forall|k: int|
            at <= k < sorted.len() ==> !lex_le(
                T::name_of(#[trigger] sorted[k]),
                T::name_of(item),
            ),
        at == 0 || lex_le(T::name_of(sorted[at - 1]), T::name_of(item)),
    ensures
        placed::<T>(sorted, item) == sorted.insert(at, item),
    decreases sorted.len() - at,
{
    if sorted.len() == 0 {
        assert(sorted.insert(at, item) =~= seq![item]);
    } else if at == sorted.len() {
        assert(sorted.insert(at, item) =~= sorted.push(item));
    } else {
        let front = sorted.drop_last();
        assert forall|k: int| at <= k < front.len() implies !lex_le(
            T::name_of(#[trigger] front[k]),
            T::name_of(item),
        ) by {
            assert(front[k] == sorted[k]);
        }
        if at > 0 {
            assert(front[at - 1] == sorted[at - 1]);
        }
        lemma_placed_at::<T>(front, item, at);
        assert(front.insert(at, item).push(sorted.last()) =~= sorted.insert(at, item));
    }
}

/// Placing an entity keeps the others, and adds this one.
pub proof fn lemma_placed_multiset<T: Named>(sorted: Seq<T::V>, item: T::V)
    ensures
        placed::<T>(sorted, item).to_multiset() == sorted.to_multiset().insert(item),
        placed::<T>(sorted, item).len() == sorted.len() + 1,
    decreases sorted.len(),
{
    broadcast use vstd::seq_lib::group_to_multiset_ensures;

    if sorted.len() == 0 {
        assert(seq![item] =~= Seq::<T::V>::empty().push(item));
        assert(sorted =~= Seq::<T::V>::empty());
    } else if lex_le(T::name_of(sorted.last()), T::name_of(item)) {
    } else {
        let front = sorted.drop_last();
        lemma_placed_multiset::<T>(front, item);
        assert(sorted =~= front.push(sorted.last()));
        assert(placed::<T>(front, item).push(sorted.last()).to_multiset() =~= sorted.to_multiset().insert(
            item,
        ));
    }
}

/// Placing an entity into a list whose names stand in order gives such a
/// list.
pub proof fn lemma_placed_ordered<T: Named>(sorted: Seq<T::V>, item: T::V)
    requires
        ordered_by_name::<T>(sorted),
    ensures
        ordered_by_name::<T>(placed::<T>(sorted, item)),
    decreases sorted.len(),
{
    let result = placed::<T>(sorted, item);
    if sorted.len() == 0 {
    } else if lex_le(T::name_of(sorted.last()), T::name_of(item)) {
        assert forall|i: int, j: int| 0 <= i < j < result.len() implies lex_le(
            T::name_of(#[trigger] result[i]),
            T::name_of(#[trigger] result[j]),
        ) by {
            if j == sorted.len() {
                if i < sorted.len() - 1 {
                    assert(lex_le(T::name_of(sorted[i]), T::name_of(sorted[sorted.len() - 1])));
                    lemma_lex_le_transitive(
                        T::name_of(sorted[i]),
                        T::name_of(sorted.last()),
                        T::name_of(item),
                    );
                }
            } else {
                assert(result[i] == sorted[i] && result[j] == sorted[j]);
            }
        }
    } else {
        let front = sorted.drop_last();
        assert(ordered_by_name::<T>(front)) by {
            assert forall|i: int, j: int| 0 <= i < j < front.len() implies lex_le(
                T::name_of(#[trigger] front[i]),
                T::name_of(#[trigger] front[j]),
            ) by {
                assert(front[i] == sorted[i] && front[j] == sorted[j]);
            }
        }
        lemma_placed_ordered::<T>(front, item);
        lemma_placed_multiset::<T>(front, item);
        let inner = placed::<T>(front, item);
        lemma_lex_le_total(T::name_of(sorted.last()), T::name_of(item));
        assert forall|i: int, j: int| 0 <= i < j < result.len() implies lex_le(
            T::name_of(#[trigger] result[i]),
            T::name_of(#[trigger] result[j]),
        ) by {
            if j < inner.len() {
                assert(result[i] == inner[i] && result[j] == inner[j]);
            } else {
                // result[j] is the last of `sorted`; result[i] is the new
                // item or one of the others
                assert(result[i] == inner[i]);
                assert(inner.to_multiset().count(inner[i]) > 0) by {
                    broadcast use vstd::seq_lib::group_to_multiset_ensures;

                    assert(inner.contains(inner[i]));
                }
                if inner[i] != item {
                    assert(front.to_multiset().count(inner[i]) > 0);
                    assert(front.contains(inner[i])) by {
                        broadcast use vstd::seq_lib::group_to_multiset_ensures;

                    }
                    let k = choose|k: int| 0 <= k < front.len() && front[k] == inner[i];
                    assert(sorted[k] == front[k]);
                    assert(lex_le(T::name_of(sorted[k]), T::name_of(sorted[sorted.len() - 1])));
                }
            }
        }
    }
}

/// Ordering by name gives a list whose names stand in order.
pub proof fn lemma_sorted_is_ordered<T: Named>(items: Seq<T::V>)
    ensures
        ordered_by_name::<T>(sorted_by_name::<T>(items)),
    decreases items.len(),
{
    if items.len() > 0 {
        lemma_sorted_is_ordered::<T>(items.drop_last());
        lemma_placed_ordered::<T>(sorted_by_name::<T>(items.drop_last()), items.last());
    }
}

/// Ordering by name keeps every entity, as often as it stood in the list.
pub proof fn lemma_sorted_is_permutation<T: Named>(items: Seq<T::V>)
    ensures
        sorted_by_name::<T>(items).to_multiset() == items.to_multiset(),
        sorted_by_name::<T>(items).len() == items.len(),
    decreases items.len(),
{
    broadcast use vstd::seq_lib::group_to_multiset_ensures;

    if items.len() > 0 {
        lemma_sorted_is_permutation::<T>(items.drop_last());
        lemma_placed_multiset::<T>(sorted_by_name::<T>(items.drop_last()), items.last());
        assert(items =~= items.drop_last().push(items.last()));
    }
}

/// A list whose names stand in order is left as it is.
pub proof fn lemma_sorted_of_ordered<T: Named>(items: Seq<T::V>)
    requires
        ordered_by_name::<T>(items),
    ensures
        sorted_by_name::<T>(items) == items,
    decreases items.len(),
{
    if items.len() > 0 {
        let front = items.drop_last();
        assert(ordered_by_name::<T>(front)) by {
            assert forall|i: int, j: int| 0 <= i < j < front.len() implies lex_le(
                T::name_of(#[trigger] front[i]),
                T::name_of(#[trigger] front[j]),
            ) by {
                assert(front[i] == items[i] && front[j] == items[j]);
            }
        }
        lemma_sorted_of_ordered::<T>(front);
        if front.len() > 0 {
            assert(front.last() == items[front.len() - 1]);
            assert(lex_le(T::name_of(items[front.len() - 1]), T::name_of(items[items.len() - 1])));
        }
        assert(front.push(items.last()) =~= items);
    }
}

/// Ordering a second time changes nothing.
pub proof fn lemma_sorted_twice<T: Named>(items: Seq<T::V>)
    ensures
        sorted_by_name::<T>(sorted_by_name::<T>(items)) == sorted_by_name::<T>(items),
{
    lemma_sorted_is_ordered::<T>(items);
    lemma_sorted_of_ordered::<T>(sorted_by_name::<T>(items));
}

/// The entities of `items` that have the name, in their order.
pub open spec fn named<T: Named>(items: Seq<T::V>, name: Seq<char>) -> Seq<T::V>
    decreases items.len(),
{
    if items.len() == 0 {
        items
    } else if T::name_of(items.last()) == name {
        named::<T>(items.drop_last(), name).push(items.last())
    } else {
        named::<T>(items.drop_last(), name)
    }
}

/// Placing an entity puts it behind the entities of its own name, and
/// leaves the entities of every other name as they stood.
pub proof fn lemma_placed_named<T: Named>(sorted: Seq<T::V>, item: T::V, name: Seq<char>)
    ensures
        named::<T>(placed::<T>(sorted, item), name) == if T::name_of(item) == name {
            named::<T>(sorted, name).push(item)
        } else {
            named::<T>(sorted, name)
        },
    decreases sorted.len(),
{
    if sorted.len() == 0 {
        assert(seq![item].drop_last() =~= sorted);
    } else if lex_le(T::name_of(sorted.last()), T::name_of(item)) {
        assert(sorted.push(item).drop_last() =~= sorted);
    } else {
        let front = sorted.drop_last();
        lemma_placed_named::<T>(front, item, name);
        let result = placed::<T>(front, item).push(sorted.last());
        assert(result.drop_last() =~= placed::<T>(front, item));
        if T::name_of(item) == name && T::name_of(sorted.last()) == name {
            lemma_lex_le_reflexive(name);
        }
    }
}

/// Ordering by name keeps the entities of one name in the order in which
/// they stood.
pub proof fn lemma_sorted_is_stable<T: Named>(items: Seq<T::V>, name: Seq<char>)
    ensures
        named::<T>(sorted_by_name::<T>(items), name) == named::<T>(items, name),
    decreases items.len(),
{
    if items.len() > 0 {
        lemma_sorted_is_stable::<T>(items.drop_last(), name);
        lemma_placed_named::<T>(sorted_by_name::<T>(items.drop_last()), items.last(), name);
    }
}

/// Puts `items` in the order of their names; entities of one name keep
/// their order.
pub fn sort_by_name<T: Named>(items: &mut Vec<T>)
    ensures
        final(items).deep_view() == sorted_by_name::<T>(old(items).deep_view()),
{
    let ghost start = items.deep_view();
    let mut i: usize = 0;
    assert(start.take(0) =~= Seq::empty());
    assert(items.deep_view().take(0) =~= Seq::empty());
    while i < items.len()
        invariant
            i <= items.len(),
            items.len() == start.len(),
            items.deep_view().take(i as int) == sorted_by_name::<T>(start.take(i as int)),
            items.deep_view().skip(i as int) == start.skip(i as int),
        decreases items.len() - i,
    {
        let ghost before = items.deep_view();
        let item = items.remove(i);
        assert(item.deep_view() == before[i as int]);
        assert(before[i as int] == before.skip(i as int)[0]);
        let mut at: usize = i;
        while at > 0 && !str_le(items[at - 1].name_text().as_str(), item.name_text().as_str())
            invariant
                at <= i < before.len(),
                items@.len() == before.len() - 1,
                forall|k: int|
                    at <= k < i ==> !lex_le(
                        T::name_of(#[trigger] items@[k].deep_view()),
                        T::name_of(item.deep_view()),
                    ),
            decreases at,
        {
            at -= 1;
        }
        let ghost front = before.take(i as int);
        proof {
            assert(items.deep_view().take(i as int) =~= front);
            assert forall|k: int| at <= k < front.len() implies !lex_le(
                T::name_of(#[trigger] front[k]),
                T::name_of(item.deep_view()),
            ) by {
                assert(front[k] == items@[k].deep_view());
            }
            if at > 0 {
                assert(front[at - 1] == items@[at - 1].deep_view());
            }
            lemma_placed_at::<T>(front, item.deep_view(), at as int);
            assert(start.take(i + 1).drop_last() =~= start.take(i as int));
            assert(start.take(i + 1).last() == start.skip(i as int)[0]);
        }
        let ghost removed = items.deep_view();
        items.insert(at, item);
        i += 1;
        proof {
            assert(items.deep_view() =~= removed.insert(at as int, before[i - 1]));
            assert(items.deep_view().take(i as int) =~= front.insert(at as int, before[i - 1]));
            assert(items.deep_view().skip(i as int) =~= before.skip(i as int));
            assert(before.skip(i as int) =~= before.skip(i - 1).skip(1));
            assert(start.skip(i as int) =~= start.skip(i - 1).skip(1));
        }
    }
    assert(items.deep_view().take(i as int) =~= items.deep_view());
    assert(start.take(i as int) =~= start);
}

impl StructClassView {
    /// The struct or class with its properties and its methods in the order
    /// of their names.
    pub open spec fn with_sorted_members(self) -> StructClassView {
        StructClassView {
            properties: sorted_by_name::<Property>(self.properties),
            methods: sorted_by_name::<Function>(self.methods),
            ..self
        }
    }
}

impl StructClass {
    /// Puts the properties and the methods in the order of their names.
    pub fn sort_items_by_name(&mut self)
        ensures
            final(self)@ == old(self)@.with_sorted_members(),
    {
        sort_by_name(&mut self.properties);
        sort_by_name(&mut self.methods);
    }
}

impl DocumentView {
    /// The document with the members of every struct and class, and then
    /// its four lists, in the order of their names.
    pub open spec fn sorted(self) -> DocumentView {
        DocumentView {
            enums: sorted_by_name::<Enum>(self.enums),
            classes: sorted_by_name::<StructClass>(
                self.classes.map_values(|item: StructClassView| item.with_sorted_members()),
            ),
            structs: sorted_by_name::<StructClass>(
                self.structs.map_values(|item: StructClassView| item.with_sorted_members()),
            ),
            functions: sorted_by_name::<Function>(self.functions),
            ..self
        }
    }
}

/// Puts the members of every struct or class of `items` in the order of
/// their names.
pub fn sort_members(items: &mut Vec<StructClass>)
    ensures
        final(items).deep_view() == old(items).deep_view().map_values(
            |item: StructClassView| item.with_sorted_members(),
        ),
{
    let ghost start = items.deep_view();
    let mut i: usize = 0;
    while i < items.len()
        invariant
            i <= items.len(),
            items.len() == start.len(),
            forall|k: int| 0 <= k < i ==> items@[k]@ == (#[trigger] start[k]).with_sorted_members(),
            forall|k: int| i <= k < items.len() ==> items@[k]@ == #[trigger] start[k],
        decreases items.len() - i,
    {
        items[i].sort_items_by_name();
        i += 1;
    }
    assert(items.deep_view() =~= start.map_values(
        |item: StructClassView| item.with_sorted_members(),
    ));
}

impl Document {
    /// Puts the members of every struct and class, and then the four lists
    /// of the document, in the order of their names.
    pub fn sort_items_by_name(&mut self)
        ensures
            final(self)@ == old(self)@.sorted(),
    {
        sort_members(&mut self.classes);
        sort_members(&mut self.structs);
        sort_by_name(&mut self.enums);
        sort_by_name(&mut self.classes);
        sort_by_name(&mut self.structs);
        sort_by_name(&mut self.functions);
    }
}

/// Every entity of an ordered list is one of the entities that were
/// ordered.
pub proof fn lemma_sorted_holds_the_same<T: Named>(items: Seq<T::V>, at: int)
    requires
        0 <= at < sorted_by_name::<T>(items).len(),
    ensures
        items.contains(sorted_by_name::<T>(items)[at]),
{
    broadcast use vstd::seq_lib::group_to_multiset_ensures;

    let sorted = sorted_by_name::<T>(items);
    lemma_sorted_is_permutation::<T>(items);
    assert(sorted.contains(sorted[at]));
    assert(sorted.to_multiset().count(sorted[at]) > 0);
    assert(items.to_multiset().count(sorted[at]) > 0);
}

/// Ordering the members of a struct or class a second time changes
/// nothing.
pub proof fn lemma_members_sorted_twice(item: StructClassView)
    ensures
        item.with_sorted_members().with_sorted_members() == item.with_sorted_members(),
{
    lemma_sorted_twice::<Property>(item.properties);
    lemma_sorted_twice::<Function>(item.methods);
}

proof fn lemma_types_sorted_twice(items: Seq<StructClassView>)
    ensures
        sorted_by_name::<StructClass>(
            sorted_by_name::<StructClass>(
                items.map_values(|item: StructClassView| item.with_sorted_members()),
            ).map_values(|item: StructClassView| item.with_sorted_members()),
        ) == sorted_by_name::<StructClass>(
            items.map_values(|item: StructClassView| item.with_sorted_members()),
        ),
{
    let inner = items.map_values(|item: StructClassView| item.with_sorted_members());
    let once = sorted_by_name::<StructClass>(inner);
    let again = once.map_values(|item: StructClassView| item.with_sorted_members());
    assert(again =~= once) by {
        assert forall|i: int| 0 <= i < once.len() implies again[i] == once[i] by {
            lemma_sorted_holds_the_same::<StructClass>(inner, i);
            let k = choose|k: int| 0 <= k < inner.len() && inner[k] == once[i];
            lemma_members_sorted_twice(items[k]);
        }
    }
    lemma_sorted_twice::<StructClass>(inner);
}

/// Ordering a document a second time changes nothing.
pub proof fn lemma_document_sorted_twice(document: DocumentView)
    ensures
        document.sorted().sorted() == document.sorted(),
{
    lemma_sorted_twice::<Enum>(document.enums);
    lemma_sorted_twice::<Function>(document.functions);
    lemma_types_sorted_twice(document.classes);
    lemma_types_sorted_twice(document.structs);
}

} // verus!
