//! The two collections of the document: a set of tags and a map from text
//! to text. Both keep their items in the order in which they came, and hold
//! no tag and no key twice.

use crate::text::str_eq;
use vstd::prelude::*;

verus! {

/// A set of tags.
#[derive(Debug)]
pub struct TagSet {
    items: Vec<String>,
}

impl View for TagSet {
    type V = Set<Seq<char>>;

    closed spec fn view(&self) -> Set<Seq<char>> {
        self.items.deep_view().to_set()
    }
}

impl DeepView for TagSet {
    type V = Set<Seq<char>>;

    open spec fn deep_view(&self) -> Set<Seq<char>> {
        self@
    }
}

impl TagSet {
    #[verifier::type_invariant]
    spec fn distinct(self) -> bool {
        self.items.deep_view().no_duplicates()
    }

    /// The empty set.
    pub fn new() -> (r: Self)
        ensures
            r@ == Set::<Seq<char>>::empty(),
    {
        let r = TagSet { items: Vec::new() };
        assert(r.items.deep_view() =~= Seq::empty());
        assert(r@ =~= Set::empty());
        r
    }

    /// The tags of an exec set are finitely many.
    pub proof fn lemma_finite(&self)
        ensures
            self@.finite(),
    {
        vstd::seq_lib::seq_to_set_is_finite(self.items.deep_view());
    }

    /// Whether the set holds `tag`.
    pub fn contains(&self, tag: &str) -> (r: bool)
        ensures
            r == self@.contains(tag@),
    {
        let mut i: usize = 0;
        while i < self.items.len()
            invariant
                i <= self.items.len(),
                forall|k: int| 0 <= k < i ==> self.items@[k]@ != tag@,
            decreases self.items.len() - i,
        {
            if str_eq(self.items[i].as_str(), tag) {
                assert(self.items.deep_view()[i as int] == tag@);
                return true;
            }
            i += 1;
        }
        false
    }

    /// Adds `tag`; a tag that the set already holds changes nothing.
    pub fn insert(&mut self, tag: String)
        ensures
            final(self)@ == old(self)@.insert(tag@),
    {
        proof {
            use_type_invariant(&*self);
        }
        if !self.contains(tag.as_str()) {
            let ghost before = self.items.deep_view();
            let mut held = TagSet::new();
            std::mem::swap(self, &mut held);
            let mut items = held.items;
            items.push(tag);
            assert(items.deep_view() =~= before.push(tag@));
            assert(before.push(tag@).no_duplicates()) by {
                assert(!before.contains(tag@));
            }
            *self = TagSet { items };
            assert(before.push(tag@).to_set() =~= before.to_set().insert(tag@)) by {
                assert forall|t: Seq<char>| before.push(tag@).to_set().contains(t)
                    == before.to_set().insert(tag@).contains(t) by {
                    if before.push(tag@).contains(t) {
                        let k = choose|k: int|
                            0 <= k < before.push(tag@).len() && before.push(tag@)[k] == t;
                        if k < before.len() {
                            assert(before[k] == t);
                        }
                    }
                    if before.contains(t) {
                        let k = choose|k: int| 0 <= k < before.len() && before[k] == t;
                        assert(before.push(tag@)[k] == t);
                    }
                    if t == tag@ {
                        assert(before.push(tag@)[before.len() as int] == t);
                    }
                }
            }
        } else {
            assert(self@.insert(tag@) =~= self@);
        }
    }

    /// Whether the set holds no tag.
    pub fn is_empty(&self) -> (r: bool)
        ensures
            r == (self@ == Set::<Seq<char>>::empty()),
    {
        let r = self.items.len() == 0;
        proof {
            if r {
                assert(self.items.deep_view() =~= Seq::empty());
                assert(self@ =~= Set::empty());
            } else {
                assert(self.items.deep_view()[0] == self.items@[0]@);
                assert(self.items.deep_view().contains(self.items@[0]@));
                assert(self@.contains(self.items@[0]@));
            }
        }
        r
    }

    /// Whether the two sets share a tag.
    pub fn intersects(&self, other: &TagSet) -> (r: bool)
        ensures
            r == exists|t: Seq<char>| self@.contains(t) && other@.contains(t),
    {
        let mut i: usize = 0;
        while i < self.items.len()
            invariant
                i <= self.items.len(),
                forall|k: int| 0 <= k < i ==> !other@.contains(#[trigger] self.items@[k]@),
            decreases self.items.len() - i,
        {
            if other.contains(self.items[i].as_str()) {
                assert(self.items.deep_view()[i as int] == self.items@[i as int]@);
                assert(self@.contains(self.items@[i as int]@));
                return true;
            }
            i += 1;
        }
        proof {
            assert forall|t: Seq<char>| !(self@.contains(t) && other@.contains(t)) by {
                if self@.contains(t) {
                    let k = choose|k: int|
                        0 <= k < self.items.deep_view().len() && self.items.deep_view()[k] == t;
                    assert(self.items@[k]@ == t);
                }
            }
        }
        false
    }

    /// Empties the set and returns what it held.
    pub fn take(&mut self) -> (r: TagSet)
        ensures
            r@ == old(self)@,
            final(self)@ == Set::<Seq<char>>::empty(),
    {
        proof {
            use_type_invariant(&*self);
        }
        let mut held = TagSet::new();
        std::mem::swap(self, &mut held);
        held
    }

    /// The tags, in the order in which they were added.
    pub fn tags(&self) -> (r: &Vec<String>)
        ensures
            r.deep_view().to_set() == self@,
            r.deep_view().no_duplicates(),
    {
        proof {
            use_type_invariant(self);
        }
        &self.items
    }
}

impl Clone for TagSet {
    fn clone(&self) -> (r: Self)
        ensures
            r@ == self@,
    {
        proof {
            use_type_invariant(self);
        }
        let mut items: Vec<String> = Vec::new();
        let mut i: usize = 0;
        while i < self.items.len()
            invariant
                i <= self.items.len(),
                items.len() == i,
                forall|k: int| 0 <= k < i ==> items@[k]@ == self.items@[k]@,
            decreases self.items.len() - i,
        {
            items.push(self.items[i].clone());
            i += 1;
        }
        assert(items.deep_view() =~= self.items.deep_view());
        TagSet { items }
    }
}

impl Default for TagSet {
    fn default() -> (r: Self)
        ensures
            r@ == Set::<Seq<char>>::empty(),
    {
        TagSet::new()
    }
}

/// The map that a list of entries stands for: each entry in turn sets the
/// text of its key.
pub open spec fn map_of(entries: Seq<(Seq<char>, Seq<char>)>) -> Map<Seq<char>, Seq<char>>
    decreases entries.len(),
{
    if entries.len() == 0 {
        Map::empty()
    } else {
        map_of(entries.drop_last()).insert(entries.last().0, entries.last().1)
    }
}

/// No key stands in two entries.
pub open spec fn distinct_keys(entries: Seq<(Seq<char>, Seq<char>)>) -> bool {
    forall|i: int, j: int| 0 <= i < j < entries.len() ==> entries[i].0 != entries[j].0
}

proof fn lemma_map_of_absent(entries: Seq<(Seq<char>, Seq<char>)>, key: Seq<char>)
    requires
        forall|i: int| 0 <= i < entries.len() ==> (#[trigger] entries[i]).0 != key,
    ensures
        !map_of(entries).contains_key(key),
    decreases entries.len(),
{
    if entries.len() > 0 {
        let front = entries.drop_last();
        assert forall|i: int| 0 <= i < front.len() implies (#[trigger] front[i]).0 != key by {
            assert(front[i] == entries[i]);
        }
        lemma_map_of_absent(front, key);
    }
}

proof fn lemma_map_of_present(entries: Seq<(Seq<char>, Seq<char>)>, at: int)
    requires
        distinct_keys(entries),
        0 <= at < entries.len(),
    ensures
        map_of(entries).contains_key(entries[at].0),
        map_of(entries)[entries[at].0] == entries[at].1,
    decreases entries.len(),
{
    let front = entries.drop_last();
    if at < entries.len() - 1 {
        assert(distinct_keys(front)) by {
            assert forall|i: int, j: int| 0 <= i < j < front.len() implies front[i].0
                != front[j].0 by {
                assert(front[i] == entries[i] && front[j] == entries[j]);
            }
        }
        assert(front[at] == entries[at]);
        lemma_map_of_present(front, at);
    }
}

proof fn lemma_map_of_update(
    entries: Seq<(Seq<char>, Seq<char>)>,
    at: int,
    value: Seq<char>,
)
    requires
        distinct_keys(entries),
        0 <= at < entries.len(),
    ensures
        map_of(entries.update(at, (entries[at].0, value))) == map_of(entries).insert(
            entries[at].0,
            value,
        ),
        distinct_keys(entries.update(at, (entries[at].0, value))),
    decreases entries.len(),
{
    let key = entries[at].0;
    let next = entries.update(at, (key, value));
    let front = entries.drop_last();
    assert(distinct_keys(front)) by {
        assert forall|i: int, j: int| 0 <= i < j < front.len() implies front[i].0 != front[j].0 by {
            assert(front[i] == entries[i] && front[j] == entries[j]);
        }
    }
    if at == entries.len() - 1 {
        assert(next.drop_last() =~= front);
        assert(map_of(next) =~= map_of(entries).insert(key, value));
    } else {
        lemma_map_of_update(front, at, value);
        assert(next.drop_last() =~= front.update(at, (key, value)));
        assert(next.last() == entries.last());
        assert(entries.last().0 != key);
        assert(map_of(next) =~= map_of(entries).insert(key, value));
    }
}

proof fn lemma_map_of_len(entries: Seq<(Seq<char>, Seq<char>)>)
    requires
        distinct_keys(entries),
    ensures
        map_of(entries).dom().finite(),
        map_of(entries).dom().len() == entries.len(),
    decreases entries.len(),
{
    if entries.len() > 0 {
        let front = entries.drop_last();
        assert(distinct_keys(front)) by {
            assert forall|i: int, j: int| 0 <= i < j < front.len() implies front[i].0
                != front[j].0 by {
                assert(front[i] == entries[i] && front[j] == entries[j]);
            }
        }
        lemma_map_of_len(front);
        assert forall|i: int| 0 <= i < front.len() implies (#[trigger] front[i]).0
            != entries.last().0 by {
            assert(front[i] == entries[i]);
        }
        lemma_map_of_absent(front, entries.last().0);
        assert(map_of(entries).dom() =~= map_of(front).dom().insert(entries.last().0));
    }
}

/// A map from text to text.
#[derive(Debug)]
pub struct StringMap {
    entries: Vec<(String, String)>,
}

impl View for StringMap {
    type V = Map<Seq<char>, Seq<char>>;

    closed spec fn view(&self) -> Map<Seq<char>, Seq<char>> {
        map_of(self.entries.deep_view())
    }
}

impl DeepView for StringMap {
    type V = Map<Seq<char>, Seq<char>>;

    open spec fn deep_view(&self) -> Map<Seq<char>, Seq<char>> {
        self@
    }
}

impl StringMap {
    #[verifier::type_invariant]
    spec fn distinct(self) -> bool {
        distinct_keys(self.entries.deep_view())
    }

    /// The empty map.
    pub fn new() -> (r: Self)
        ensures
            r@ == Map::<Seq<char>, Seq<char>>::empty(),
    {
        let r = StringMap { entries: Vec::new() };
        assert(r.entries.deep_view() =~= Seq::empty());
        r
    }

    /// The index of the entry of `key`.
    fn position(&self, key: &str) -> (r: Option<usize>)
        ensures
            match r {
                Some(at) => at < self.entries.len() && self.entries@[at as int].0@ == key@,
                None => forall|i: int|
                    0 <= i < self.entries.len() ==> (#[trigger] self.entries@[i]).0@ != key@,
            },
    {
        let mut i: usize = 0;
        while i < self.entries.len()
            invariant
                i <= self.entries.len(),
                forall|k: int| 0 <= k < i ==> (#[trigger] self.entries@[k]).0@ != key@,
            decreases self.entries.len() - i,
        {
            if str_eq(self.entries[i].0.as_str(), key) {
                return Some(i);
            }
            i += 1;
        }
        None
    }

    /// The text of `key`, if the map holds one.
    pub fn get(&self, key: &str) -> (r: Option<&String>)
        ensures
            match r {
                Some(value) => self@.contains_key(key@) && self@[key@] == value@,
                None => !self@.contains_key(key@),
            },
    {
        proof {
            use_type_invariant(self);
        }
        match self.position(key) {
            Some(at) => {
                proof {
                    lemma_map_of_present(self.entries.deep_view(), at as int);
                }
                Some(&self.entries[at].1)
            },
            None => {
                proof {
                    lemma_map_of_absent(self.entries.deep_view(), key@);
                }
                None
            },
        }
    }

    /// Whether the map holds a text for `key`.
    pub fn contains_key(&self, key: &str) -> (r: bool)
        ensures
            r == self@.contains_key(key@),
    {
        self.get(key).is_some()
    }

    /// Sets the text of `key`, and says whether the map held one before.
    pub fn insert(&mut self, key: String, value: String) -> (r: bool)
        ensures
            final(self)@ == old(self)@.insert(key@, value@),
            r == old(self)@.contains_key(key@),
    {
        proof {
            use_type_invariant(&*self);
        }
        let found = self.position(key.as_str());
        let ghost before = self.entries.deep_view();
        let mut held = StringMap::new();
        std::mem::swap(self, &mut held);
        let mut entries = held.entries;
        match found {
            Some(at) => {
                proof {
                    lemma_map_of_present(before, at as int);
                    lemma_map_of_update(before, at as int, value@);
                }
                entries.set(at, (key, value));
                assert(entries.deep_view() =~= before.update(at as int, (key@, value@)));
                *self = StringMap { entries };
                true
            },
            None => {
                proof {
                    lemma_map_of_absent(before, key@);
                }
                entries.push((key, value));
                assert(entries.deep_view() =~= before.push((key@, value@)));
                assert(before.push((key@, value@)).drop_last() =~= before);
                *self = StringMap { entries };
                false
            },
        }
    }

    /// The number of keys.
    pub fn len(&self) -> (r: usize)
        ensures
            self@.dom().finite(),
            r == self@.dom().len(),
    {
        proof {
            use_type_invariant(self);
            lemma_map_of_len(self.entries.deep_view());
        }
        self.entries.len()
    }

    /// The entries, in the order in which their keys first came.
    pub fn entries(&self) -> (r: &Vec<(String, String)>)
        ensures
            map_of(r.deep_view()) == self@,
            distinct_keys(r.deep_view()),
    {
        proof {
            use_type_invariant(self);
        }
        &self.entries
    }
}

impl Clone for StringMap {
    fn clone(&self) -> (r: Self)
        ensures
            r@ == self@,
    {
        proof {
            use_type_invariant(self);
        }
        let mut entries: Vec<(String, String)> = Vec::new();
        let mut i: usize = 0;
        while i < self.entries.len()
            invariant
                i <= self.entries.len(),
                entries.len() == i,
                forall|k: int|
                    0 <= k < i ==> entries@[k].0@ == self.entries@[k].0@ && entries@[k].1@
                        == self.entries@[k].1@,
            decreases self.entries.len() - i,
        {
            entries.push((self.entries[i].0.clone(), self.entries[i].1.clone()));
            i += 1;
        }
        assert(entries.deep_view() =~= self.entries.deep_view());
        StringMap { entries }
    }
}

impl Default for StringMap {
    fn default() -> (r: Self)
        ensures
            r@ == Map::<Seq<char>, Seq<char>>::empty(),
    {
        StringMap::new()
    }
}

} // verus!
