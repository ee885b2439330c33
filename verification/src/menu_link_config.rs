use vstd::prelude::*;
use crate::strutil::str_eq;

verus! {

/// A navigation link of the historical two-list navigation
/// configuration.
#[derive(Debug, Clone)]
pub struct MenuLinkConfig {
    pub img: Option<String>,
    pub label: Option<String>,
    pub alt: Option<String>,
    pub url: Option<String>,
    pub class: Option<String>,
}

/// The historical navigation configuration: the links standing before
/// the menu and those standing after it.
#[derive(Debug, Clone)]
pub struct NavLinksConfig {
    pub before_menu: Vec<MenuLinkConfig>,
    pub after_menu: Vec<MenuLinkConfig>,
}

/// Whether some link in the sequence points at `href`.
pub open spec fn some_link_has_href(links: Seq<MenuLinkConfig>, href: Seq<char>) -> bool {
    exists|i: int|
        0 <= i < links.len() && (#[trigger] links[i].url matches Some(u) && u@ == href)
}

/// Whether some link of `links` up to (excluding) index `n` points at `href`.
spec fn prefix_has_href(links: Seq<MenuLinkConfig>, n: int, href: Seq<char>) -> bool {
    exists|i: int| 0 <= i < n && (#[trigger] links[i].url matches Some(u) && u@ == href)
}

/// Scan a link list for a target URL.
fn links_have_href(links: &Vec<MenuLinkConfig>, href: &str) -> (r: bool)
    ensures
        r == some_link_has_href(links@, href@),
{
    let mut i: usize = 0;
    while i < links.len()
        invariant
            0 <= i <= links@.len(),
            !prefix_has_href(links@, i as int, href@),
        decreases links@.len() - i,
    {
        if let Some(u) = &links[i].url {
            if str_eq(u.as_str(), href) {
                return true;
            }
        }
        i += 1;
    }
    false
}

impl NavLinksConfig {
    /// Whether any of the configured links, before or after the menu,
    /// points at `href`.
    pub fn has_href(&self, href: &str) -> (r: bool)
        ensures
            r == (some_link_has_href(self.before_menu@, href@) || some_link_has_href(
                self.after_menu@,
                href@,
            )),
    {
        if links_have_href(&self.before_menu, href) {
            return true;
        }
        if links_have_href(&self.after_menu, href) {
            return true;
        }
        false
    }
}

} // verus!
