use vstd::prelude::*;
use crate::menu::Menu;
use crate::nav_link::NavLink;
use crate::strutil::{split_at_sep, split_str, views_of};
use crate::toc::Toc;

verus! {

/// One node of the page-body layout: its class names and its content.
#[derive(Debug)]
pub struct Element {
    pub classes: Vec<String>,
    pub content: ElementContent,
}

/// What a layout node holds: a literal HTML container with child nodes,
/// or one of the generated fragments.
#[derive(Debug)]
pub enum ElementContent {
    Html { tag: String, children: Vec<Element> },
    Link(NavLink),
    Menu(Menu),
    Toc(Toc),
    Main,
}

/// Whether this element, or any element below it, is a link pointing at
/// `href`.
pub open spec fn element_has_href(e: Element, href: Seq<char>) -> bool
    decreases e,
{
    match e.content {
        ElementContent::Link(link) => link.href matches Some(h) && h@ == href,
        ElementContent::Html { tag: _, children } => exists|i: int|
            0 <= i < children@.len() && element_has_href(#[trigger] children@[i], href),
        _ => false,
    }
}

/// Whether this element, or any element below it, is a table of contents
/// asking for visible-item activation.
pub open spec fn element_wants_toc_activation(e: Element) -> bool
    decreases e,
{
    match e.content {
        ElementContent::Toc(t) => t.activate_visible_item,
        ElementContent::Html { tag: _, children } => exists|i: int|
            0 <= i < children@.len() && element_wants_toc_activation(#[trigger] children@[i]),
        _ => false,
    }
}

impl Element {
    /// The pseudo-tag of this element, as written in configuration.
    pub fn tag(&self) -> (r: &str)
        ensures
            self.content matches ElementContent::Html { tag, .. } ==> r@ == tag@,
            self.content is Link ==> r@ == "ddoc-link"@,
            self.content is Menu ==> r@ == "ddoc-menu"@,
            self.content is Toc ==> r@ == "ddoc-toc"@,
            self.content is Main ==> r@ == "ddoc-main"@,
    {
        match &self.content {
            ElementContent::Html { tag, .. } => tag.as_str(),
            ElementContent::Link(_) => "ddoc-link",
            ElementContent::Menu(_) => "ddoc-menu",
            ElementContent::Toc(_) => "ddoc-toc",
            ElementContent::Main => "ddoc-main",
        }
    }

    pub fn is_html(&self) -> (r: bool)
        ensures
            r == self.content is Html,
    {
        matches!(self.content, ElementContent::Html { .. })
    }

    pub fn is_link(&self) -> (r: bool)
        ensures
            r == self.content is Link,
    {
        matches!(self.content, ElementContent::Link(_))
    }

    pub fn is_menu(&self) -> (r: bool)
        ensures
            r == self.content is Menu,
    {
        matches!(self.content, ElementContent::Menu(_))
    }

    pub fn is_toc(&self) -> (r: bool)
        ensures
            r == self.content is Toc,
    {
        matches!(self.content, ElementContent::Toc(_))
    }

    pub fn is_main(&self) -> (r: bool)
        ensures
            r == self.content is Main,
    {
        matches!(self.content, ElementContent::Main)
    }

    /// The node's children, for a container node.
    pub fn children(&self) -> (r: Option<&Vec<Element>>)
        ensures
            match r {
                Some(c) => self.content matches ElementContent::Html { tag: _, children }
                    && *c == children,
                None => !(self.content is Html),
            },
    {
        match &self.content {
            ElementContent::Html { children, .. } => Some(children),
            _ => None,
        }
    }

    /// Build a container node from a `tag.class1.class2` key and its
    /// children.
    pub fn new_composite(key: &str, children: Vec<Element>) -> (r: Self)
        ensures
            r.content matches ElementContent::Html { tag, children: c } && tag@ == split_at_sep(
                key@,
                '.',
            )[0] && c == children,
            views_of(r.classes@) == split_at_sep(key@, '.').drop_first(),
    {
        let mut tokens = split_str(key, '.');
        proof {
            crate::strutil::lemma_split_at_sep_len(key@, '.');
        }
        let tag = tokens.remove(0);
        proof {
            assert(views_of(tokens@) =~~= split_at_sep(key@, '.').drop_first());
        }
        Self { classes: tokens, content: ElementContent::Html { tag, children } }
    }

    /// Whether this element or any element below it links to `href`.
    #[verifier::loop_isolation(false)]
    pub fn has_href(&self, href: &str) -> (r: bool)
        ensures
            r == element_has_href(*self, href@),
        decreases *self,
    {
        match &self.content {
            ElementContent::Link(link) => match &link.href {
                Some(h) => crate::strutil::str_eq(h.as_str(), href),
                None => false,
            },
            ElementContent::Html { tag: _, children } => {
                let mut i: usize = 0;
                while i < children.len()
                    invariant
                        0 <= i <= children@.len(),
                        forall|j: int|
                            0 <= j < i ==> !element_has_href(#[trigger] children@[j], href@),
                    decreases children@.len() - i,
                {
                    proof {
                        assert(decreases_to!(*self => self.content));
                        assert(decreases_to!(self.content => *children));
                        assert(decreases_to!(*children => children@[i as int]));
                    }
                    if children[i].has_href(href) {
                        return true;
                    }
                    i += 1;
                }
                false
            },
            _ => false,
        }
    }

    /// Whether this element or any element below it is a table of
    /// contents asking for visible-item activation.
    #[verifier::loop_isolation(false)]
    pub fn wants_toc_activation(&self) -> (r: bool)
        ensures
            r == element_wants_toc_activation(*self),
        decreases *self,
    {
        match &self.content {
            ElementContent::Toc(t) => t.activate_visible_item,
            ElementContent::Html { tag: _, children } => {
                let mut i: usize = 0;
                while i < children.len()
                    invariant
                        0 <= i <= children@.len(),
                        forall|j: int|
                            0 <= j < i ==> !element_wants_toc_activation(#[trigger] children@[j]),
                    decreases children@.len() - i,
                {
                    proof {
                        assert(decreases_to!(*self => self.content));
                        assert(decreases_to!(self.content => *children));
                        assert(decreases_to!(*children => children@[i as int]));
                    }
                    if children[i].wants_toc_activation() {
                        return true;
                    }
                    i += 1;
                }
                false
            },
            _ => false,
        }
    }
}

} // verus!
