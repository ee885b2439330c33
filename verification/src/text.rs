use vstd::prelude::*;
use vstd::string::StrSliceExecFns;
use crate::strutil::str_eq;

verus! {

/// A piece of text in a navigation link: either a literal string or a
/// placeholder resolved at render time against the site map.
#[derive(Debug, Clone)]
pub enum Text {
    String(String),
    PreviousPageTitle,
    CurrentPageTitle,
    NextPageTitle,
}

impl Text {
    /// Read borrowed text, recognizing the three placeholder tokens.
    pub fn from_cow(s: &str) -> (r: Text)
        ensures
            s@ == "--previous-page-title"@ ==> r is PreviousPageTitle,
            s@ == "--current-page-title"@ ==> r is CurrentPageTitle,
            s@ == "--next-page-title"@ ==> r is NextPageTitle,
            s@ != "--previous-page-title"@ && s@ != "--current-page-title"@ && s@
                != "--next-page-title"@ ==> (r matches Text::String(t) && t@ == s@),
    {
        proof {
            reveal_strlit("--previous-page-title");
            reveal_strlit("--current-page-title");
            reveal_strlit("--next-page-title");
            assert("--previous-page-title"@.len() == 21);
            assert("--current-page-title"@.len() == 20);
            assert("--next-page-title"@.len() == 17);
        }
        if str_eq(s, "--previous-page-title") {
            Text::PreviousPageTitle
        } else if str_eq(s, "--current-page-title") {
            Text::CurrentPageTitle
        } else if str_eq(s, "--next-page-title") {
            Text::NextPageTitle
        } else {
            Text::String(s.to_owned())
        }
    }

    /// The text as it was written in the configuration.
    pub fn as_str(&self) -> (r: &str)
        ensures
            r@ == self.as_str_spec(),
    {
        match self {
            Text::String(s) => s.as_str(),
            Text::PreviousPageTitle => "--previous-page-title",
            Text::CurrentPageTitle => "--current-page-title",
            Text::NextPageTitle => "--next-page-title",
        }
    }

    /// Copy this text, keeping its characters and placeholder kind.
    pub fn duplicate(&self) -> (r: Text)
        ensures
            r@ == self@,
    {
        match self {
            Text::String(s) => Text::String(s.clone()),
            Text::PreviousPageTitle => Text::PreviousPageTitle,
            Text::CurrentPageTitle => Text::CurrentPageTitle,
            Text::NextPageTitle => Text::NextPageTitle,
        }
    }

    pub open spec fn as_str_spec(self) -> Seq<char> {
        match self {
            Text::String(s) => s@,
            Text::PreviousPageTitle => "--previous-page-title"@,
            Text::CurrentPageTitle => "--current-page-title"@,
            Text::NextPageTitle => "--next-page-title"@,
        }
    }
}

} // verus!
