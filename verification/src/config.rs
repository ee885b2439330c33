use vstd::prelude::*;
use crate::composite_element::{composite_has_href, CompositeElement};
use crate::nav_component::NavComponents;
use crate::page_list::PageList;

verus! {

/// The name of the configuration file at a project's root.
pub const CONFIG_FILE_NAME: &'static str = "ddoc.hjson";

/// A site's configuration: its title and metadata, the site map, and
/// the page-body layout. The historical navigation fields are kept only
/// to be converted into the layout tree.
#[derive(Debug)]
pub struct Config {
    pub title: String,
    pub description: Option<String>,
    pub site_map: PageList,
    pub favicon: Option<String>,
    pub old: NavComponents,
    pub body: CompositeElement,
}

/// An optional string with the empty value ruled out.
pub open spec fn nonempty_opt(v: Option<String>) -> Option<Seq<char>> {
    match v {
        Some(s) => if s@.len() > 0 {
            Some(s@)
        } else {
            None
        },
        None => None,
    }
}

impl Config {
    /// The configured description, unless empty.
    pub fn description(&self) -> (r: Option<&str>)
        ensures
            match r {
                Some(s) => nonempty_opt(self.description) == Some(s@),
                None => nonempty_opt(self.description) is None,
            },
    {
        match &self.description {
            Some(s) => {
                if s.as_str().is_empty() {
                    None
                } else {
                    Some(s.as_str())
                }
            },
            None => None,
        }
    }

    /// The configured favicon location, unless empty.
    pub fn favicon(&self) -> (r: Option<&str>)
        ensures
            match r {
                Some(s) => nonempty_opt(self.favicon) == Some(s@),
                None => nonempty_opt(self.favicon) is None,
            },
    {
        match &self.favicon {
            Some(s) => {
                if s.as_str().is_empty() {
                    None
                } else {
                    Some(s.as_str())
                }
            },
            None => None,
        }
    }

    /// Whether some body element links to the search opener, so that
    /// the pages need the bundled search script.
    pub fn needs_search_script(&self) -> (r: bool)
        ensures
            r == composite_has_href(self.body, "--search"@),
    {
        self.body.has_href("--search")
    }

    /// Whether some body element asks for visible-item activation of a
    /// table of contents.
    pub fn wants_toc_activation(&self) -> (r: bool)
        ensures
            r == crate::composite_element::composite_wants_toc_activation(self.body),
    {
        self.body.wants_toc_activation()
    }

    /// Give historical configurations a body: when no `body` was
    /// written, the one implied by the historical navigation fields
    /// takes its place.
    pub fn fix_old(&mut self)
        ensures
            old(self).body.children@.len() > 0 ==> *final(self) == *old(self),
            old(self).body.children@.len() == 0 ==> crate::nav_component::body_composite_ok(
                old(self).old,
                final(self).body,
            ) && final(self).title == old(self).title && final(self).description == old(
                self,
            ).description && final(self).site_map == old(self).site_map && final(self).favicon
                == old(self).favicon && final(self).old == old(self).old,
    {
        if self.body.children.len() == 0 {
            self.body = self.old.into_body_composite();
        }
    }
}

} // verus!
