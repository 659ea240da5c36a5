//! Which declarations are documented.
//!
//! A member is documented when it carries doc comments and its visibility is
//! one that the settings admit. An enum is documented when it carries doc
//! comments; a struct or a class when it carries doc comments or has a
//! documented member. The setting `show_all` admits every enum, struct and
//! class.

use crate::config::Settings;
use crate::document::model::{
    Enum, EnumView, Function, FunctionView, Property, PropertyView, StructClass, StructClassMode,
    StructClassView, Visibility,
};
use vstd::prelude::*;

verus! {

impl Visibility {
    /// Whether the settings admit members of this visibility.
    pub open spec fn exportable(self, settings: Settings) -> bool {
        match self {
            Visibility::Public => true,
            Visibility::Protected => settings.document_protected,
            Visibility::Private => settings.document_private,
        }
    }

    /// Whether the settings admit members of this visibility.
    pub fn can_export(self, settings: &Settings) -> (r: bool)
        ensures
            r == self.exportable(*settings),
    {
        match self {
            Visibility::Public => true,
            Visibility::Protected => settings.document_protected,
            Visibility::Private => settings.document_private,
        }
    }
}

impl StructClassMode {
    /// The visibility of the members that stand before any visibility
    /// section: public in a struct, private in a class.
    pub open spec fn member_visibility(self) -> Visibility {
        match self {
            StructClassMode::Struct => Visibility::Public,
            StructClassMode::Class => Visibility::Private,
        }
    }

    /// The visibility of the members that stand before any visibility
    /// section.
    pub fn default_visibility(self) -> (r: Visibility)
        ensures
            r == self.member_visibility(),
    {
        match self {
            StructClassMode::Struct => Visibility::Public,
            StructClassMode::Class => Visibility::Private,
        }
    }
}

impl EnumView {
    /// Whether the enum is documented: it carries doc comments, or the
    /// settings show everything.
    pub open spec fn can_export(self, settings: Settings) -> bool {
        settings.show_all || self.doc_comments is Some
    }
}

impl Enum {
    /// Whether the enum is documented.
    pub fn can_export(&self, settings: &Settings) -> (r: bool)
        ensures
            r == self@.can_export(*settings),
    {
        settings.show_all || self.doc_comments.is_some()
    }
}

impl PropertyView {
    /// Whether the property is documented: it carries doc comments and the
    /// settings admit its visibility.
    pub open spec fn can_export(self, settings: Settings) -> bool {
        self.doc_comments is Some && self.visibility.exportable(settings)
    }
}

impl Property {
    /// Whether the property is documented.
    pub fn can_export(&self, settings: &Settings) -> (r: bool)
        ensures
            r == self@.can_export(*settings),
    {
        self.doc_comments.is_some() && self.visibility.can_export(settings)
    }
}

impl FunctionView {
    /// Whether the function is documented: it carries doc comments and the
    /// settings admit its visibility.
    pub open spec fn can_export(self, settings: Settings) -> bool {
        self.doc_comments is Some && self.visibility.exportable(settings)
    }
}

impl Function {
    /// Whether the function is documented.
    pub fn can_export(&self, settings: &Settings) -> (r: bool)
        ensures
            r == self@.can_export(*settings),
    {
        self.doc_comments.is_some() && self.visibility.can_export(settings)
    }
}

impl StructClassView {
    /// Whether one of the properties is documented.
    pub open spec fn has_exported_property(self, settings: Settings) -> bool {
        exists|i: int|
            0 <= i < self.properties.len() && (#[trigger] self.properties[i]).can_export(settings)
    }

    /// Whether one of the methods is documented.
    pub open spec fn has_exported_method(self, settings: Settings) -> bool {
        exists|i: int|
            0 <= i < self.methods.len() && (#[trigger] self.methods[i]).can_export(settings)
    }

    /// Whether the struct or class is documented: it carries doc comments, one
    /// of its members is documented, or the settings show everything.
    pub open spec fn can_export(self, settings: Settings) -> bool {
        settings.show_all || self.doc_comments is Some || self.has_exported_property(settings)
            || self.has_exported_method(settings)
    }
}

impl StructClass {
    /// Whether the struct or class is documented.
    pub fn can_export(&self, settings: &Settings) -> (r: bool)
        ensures
            r == self@.can_export(*settings),
    {
        if settings.show_all || self.doc_comments.is_some() {
            return true;
        }
        let mut i: usize = 0;
        while i < self.properties.len()
            invariant
                i <= self.properties.len(),
                forall|k: int| 0 <= k < i ==> !(#[trigger] self.properties@[k])@.can_export(*settings),
            decreases self.properties.len() - i,
        {
            if self.properties[i].can_export(settings) {
                assert(self@.properties[i as int] == self.properties@[i as int]@);
                return true;
            }
            i += 1;
        }
        let mut j: usize = 0;
        while j < self.methods.len()
            invariant
                j <= self.methods.len(),
                forall|k: int| 0 <= k < j ==> !(#[trigger] self.methods@[k])@.can_export(*settings),
            decreases self.methods.len() - j,
        {
            if self.methods[j].can_export(settings) {
                assert(self@.methods[j as int] == self.methods@[j as int]@);
                return true;
            }
            j += 1;
        }
        proof {
            assert forall|k: int| 0 <= k < self@.properties.len() implies !(
            #[trigger] self@.properties[k]).can_export(*settings) by {
                assert(self@.properties[k] == self.properties@[k]@);
            }
            assert forall|k: int| 0 <= k < self@.methods.len() implies !(
            #[trigger] self@.methods[k]).can_export(*settings) by {
                assert(self@.methods[k] == self.methods@[k]@);
            }
        }
        false
    }
}

/// An enum without doc comments is documented only where the settings show
/// everything.
pub proof fn lemma_enum_without_comments(item: EnumView, settings: Settings)
    requires
        item.doc_comments is None,
    ensures
        item.can_export(settings) == settings.show_all,
{
}

/// A property without doc comments is not documented, whatever its
/// visibility and whatever the settings.
pub proof fn lemma_property_without_comments(item: PropertyView, settings: Settings)
    requires
        item.doc_comments is None,
    ensures
        !item.can_export(settings),
{
}

/// A function without doc comments is not documented, whatever its
/// visibility and whatever the settings.
pub proof fn lemma_function_without_comments(item: FunctionView, settings: Settings)
    requires
        item.doc_comments is None,
    ensures
        !item.can_export(settings),
{
}

/// A struct or class without doc comments, none of whose members carries
/// doc comments, is documented only where the settings show everything.
pub proof fn lemma_struct_class_without_comments(item: StructClassView, settings: Settings)
    requires
        item.doc_comments is None,
        forall|i: int| 0 <= i < item.properties.len() ==> item.properties[i].doc_comments is None,
        forall|i: int| 0 <= i < item.methods.len() ==> item.methods[i].doc_comments is None,
    ensures
        item.can_export(settings) == settings.show_all,
{
}

/// A struct or class with a documented member is documented, with or
/// without doc comments of its own.
pub proof fn lemma_struct_class_with_documented_member(
    item: StructClassView,
    settings: Settings,
    at: int,
)
    requires
        0 <= at < item.methods.len() && item.methods[at].can_export(settings) || 0 <= at
            < item.properties.len() && item.properties[at].can_export(settings),
    ensures
        item.can_export(settings),
{
}

} // verus!
