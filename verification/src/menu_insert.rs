use vstd::prelude::*;

verus! {

/// A placeholder marking where the menu goes in a navigation bar; it
/// carries no settings of its own.
#[derive(Debug, Clone, Copy, PartialEq, Eq, Structural)]
pub struct MenuInsert;

impl MenuInsert {
    /// The token that stands for this placeholder in configuration text.
    pub fn token() -> (r: &'static str)
        ensures
            r@ == "menu"@,
    {
        "menu"
    }
}

} // verus!
