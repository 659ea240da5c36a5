//! Resolution: the three passes over the assembled document, in their
//! order. Detached members join their types first, so that they take part
//! in what follows; the placeholder is resolved next; ordering by name comes
//! last.

use crate::document::model::{Document, DocumentView, StructClass, StructClassView};
use crate::document::sort::{lemma_sorted_holds_the_same, sorted_by_name};
use vstd::prelude::*;

verus! {

impl DocumentView {
    /// The resolved document: after injection, self-name substitution and
    /// ordering by name, in this order.
    pub open spec fn resolved(self) -> DocumentView {
        self.with_injects().with_self_names().sorted()
    }
}

impl Document {
    /// Resolves the document: injects the detached members, resolves the
    /// placeholder in the doc comments, and puts everything in the order of
    /// the names.
    pub fn resolve(&mut self)
        ensures
            final(self)@ == old(self)@.resolved(),
    {
        self.resolve_injects();
        self.resolve_self_names_in_docs();
        self.sort_items_by_name();
    }
}

/// Whether every struct or class of the list has used up its tags.
pub open spec fn tags_used_up(items: Seq<StructClassView>) -> bool {
    forall|i: int| 0 <= i < items.len() ==> (#[trigger] items[i]).injects == Set::<Seq<char>>::empty()
}

proof fn lemma_sorted_keeps_tags_used_up(items: Seq<StructClassView>)
    requires
        tags_used_up(items),
    ensures
        tags_used_up(sorted_by_name::<StructClass>(items)),
{
    let sorted = sorted_by_name::<StructClass>(items);
    assert forall|i: int| 0 <= i < sorted.len() implies (#[trigger] sorted[i]).injects
        == Set::<Seq<char>>::empty() by {
        lemma_sorted_holds_the_same::<StructClass>(items, i);
        let k = choose|k: int| 0 <= k < items.len() && items[k] == sorted[i];
        assert(items[k].injects == Set::<Seq<char>>::empty());
    }
}

/// A resolved document holds no detached member, and none of its structs
/// and classes holds a tag: what injection used up does not come back.
pub proof fn lemma_resolved_is_used_up(document: DocumentView)
    ensures
        document.resolved().proxy_functions.len() == 0,
        document.resolved().proxy_properties.len() == 0,
        tags_used_up(document.resolved().classes),
        tags_used_up(document.resolved().structs),
{
    let named = document.with_injects().with_self_names();
    let classes = named.classes.map_values(|item: StructClassView| item.with_sorted_members());
    let structs = named.structs.map_values(|item: StructClassView| item.with_sorted_members());
    assert(tags_used_up(classes));
    assert(tags_used_up(structs));
    lemma_sorted_keeps_tags_used_up(classes);
    lemma_sorted_keeps_tags_used_up(structs);
}

/// Injecting again into a resolved document changes nothing.
pub proof fn lemma_resolved_injects_nothing(document: DocumentView)
    ensures
        document.resolved().with_injects() == document.resolved(),
{
    lemma_resolved_is_used_up(document);
    let resolved = document.resolved();
    let again = resolved.with_injects();
    assert(resolved.proxy_functions =~= Seq::empty());
    assert(resolved.proxy_properties =~= Seq::empty());
    assert forall|item: StructClassView| item.injects == Set::<Seq<char>>::empty() implies (
    #[trigger] item.with_injects(resolved.proxy_functions, resolved.proxy_properties))
        == item by {
        assert(item.methods + Seq::empty() =~= item.methods);
        assert(item.properties + Seq::empty() =~= item.properties);
    }
    assert(again.classes =~= resolved.classes);
    assert(again.structs =~= resolved.structs);
}

} // verus!
