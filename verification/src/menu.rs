use vstd::prelude::*;
use crate::attribute::{Attributes, AttributeValue};

verus! {

/// The settings for the insertion of the site menu at some position of
/// the page body.
#[derive(Debug, Clone, Copy, PartialEq, Eq, Structural)]
pub struct Menu {
    /// When set, the generated markup includes a checkbox that styles
    /// into a hamburger toggle on small screens.
    pub hamburger_checkbox: bool,
}

impl Default for Menu {
    fn default() -> (r: Self)
        ensures
            r.hamburger_checkbox,
    {
        Self { hamburger_checkbox: true }
    }
}

impl Menu {
    /// The hamburger setting a menu element's attributes call for: on,
    /// unless switched off by its boolean attribute.
    pub open spec fn of_attrs_spec(attrs: Attributes) -> Menu {
        match attrs.find_spec("hamburger_checkbox"@) {
            Some(AttributeValue::Bool(b)) => Menu { hamburger_checkbox: b },
            _ => Menu { hamburger_checkbox: true },
        }
    }

    /// Read the menu settings from a menu element's flat attribute map.
    pub fn from_attributes(attrs: &Attributes) -> (r: Menu)
        ensures
            r == Menu::of_attrs_spec(*attrs),
    {
        let mut menu_insert = Menu::default();
        if let Some(b) = attrs.find_bool("hamburger_checkbox") {
            menu_insert.hamburger_checkbox = b;
        }
        menu_insert
    }
}

} // verus!
