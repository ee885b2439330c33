use vstd::prelude::*;
use crate::attribute::{Attributes, AttributeValue};

verus! {

/// The settings for the insertion of a table of contents in a page.
#[derive(Debug, Clone, Copy, PartialEq, Eq, Structural)]
pub struct Toc {
    /// When set, the page carries a script that highlights the entry of
    /// the heading currently in view.
    pub activate_visible_item: bool,
}

impl Default for Toc {
    fn default() -> (r: Self)
        ensures
            !r.activate_visible_item,
    {
        Self { activate_visible_item: false }
    }
}

impl Toc {
    /// The activation setting a toc element's attributes call for: off,
    /// unless switched on by its boolean attribute, under either of its
    /// two accepted spellings.
    pub open spec fn of_attrs_spec(attrs: Attributes) -> Toc {
        if attrs.find_spec("activate-visible-item"@) is Some {
            match attrs.find_spec("activate-visible-item"@) {
                Some(AttributeValue::Bool(b)) => Toc { activate_visible_item: b },
                _ => Toc { activate_visible_item: false },
            }
        } else {
            match attrs.find_spec("activate_visible_item"@) {
                Some(AttributeValue::Bool(b)) => Toc { activate_visible_item: b },
                _ => Toc { activate_visible_item: false },
            }
        }
    }

    /// Read the toc settings from a toc element's flat attribute map.
    pub fn from_attributes(attrs: &Attributes) -> (r: Toc)
        ensures
            r == Toc::of_attrs_spec(*attrs),
    {
        let mut toc_insert = Toc::default();
        let found = match attrs.find("activate-visible-item") {
            Some(v) => Some(v.as_bool()),
            None => match attrs.find("activate_visible_item") {
                Some(v) => Some(v.as_bool()),
                None => None,
            },
        };
        if let Some(Some(b)) = found {
            toc_insert.activate_visible_item = b;
        }
        toc_insert
    }
}

} // verus!
