use vstd::prelude::*;
use vstd::string::StringExecFns;
use crate::attribute::Attributes;
use crate::element::{element_has_href, element_wants_toc_activation, Element, ElementContent};
use crate::element_key::{ElementKey, ElementType};
use crate::error::DdError;
use crate::menu::Menu;
use crate::nav_link::NavLink;
use crate::toc::Toc;

verus! {

/// The ordered children of a container, or a whole page body: the root
/// of the layout tree is such a list.
#[derive(Debug, Default)]
pub struct CompositeElement {
    pub children: Vec<Element>,
}

/// The payload a configuration key maps to: either nested keyed
/// elements, or a flat attribute map.
#[derive(Debug)]
pub enum ElementPayload {
    Composite(CompositeElement),
    Attributes(Attributes),
}

/// Whether any element of the list, or below it, links to `href`.
pub open spec fn composite_has_href(c: CompositeElement, href: Seq<char>) -> bool {
    exists|i: int|
        0 <= i < c.children@.len() && element_has_href(#[trigger] c.children@[i], href)
}

/// Whether any element of the list, or below it, is a table of contents
/// asking for visible-item activation.
pub open spec fn composite_wants_toc_activation(c: CompositeElement) -> bool {
    exists|i: int|
        0 <= i < c.children@.len() && element_wants_toc_activation(#[trigger] c.children@[i])
}

impl CompositeElement {
    pub fn child(&self, index: usize) -> (r: Option<&Element>)
        ensures
            index < self.children@.len() ==> r == Some(&self.children@[index as int]),
            index >= self.children@.len() ==> r is None,
    {
        if index < self.children.len() {
            Some(&self.children[index])
        } else {
            None
        }
    }

    pub fn len(&self) -> (r: usize)
        ensures
            r == self.children@.len(),
    {
        self.children.len()
    }

    pub fn is_empty(&self) -> (r: bool)
        ensures
            r == (self.children@.len() == 0),
    {
        self.children.len() == 0
    }

    /// Whether any element of the body links to `href`.
    pub fn has_href(&self, href: &str) -> (r: bool)
        ensures
            r == composite_has_href(*self, href@),
    {
        let mut i: usize = 0;
        while i < self.children.len()
            invariant
                0 <= i <= self.children@.len(),
                forall|j: int| 0 <= j < i ==> !element_has_href(#[trigger] self.children@[j], href@),
            decreases self.children@.len() - i,
        {
            if self.children[i].has_href(href) {
                return true;
            }
            i += 1;
        }
        false
    }

    /// Whether any element of the body asks for visible-item activation
    /// of a table of contents.
    pub fn wants_toc_activation(&self) -> (r: bool)
        ensures
            r == composite_wants_toc_activation(*self),
    {
        let mut i: usize = 0;
        while i < self.children.len()
            invariant
                0 <= i <= self.children@.len(),
                forall|j: int|
                    0 <= j < i ==> !element_wants_toc_activation(#[trigger] self.children@[j]),
            decreases self.children@.len() - i,
        {
            if self.children[i].wants_toc_activation() {
                return true;
            }
            i += 1;
        }
        false
    }
}

/// Build one layout element from a parsed configuration key and the
/// payload written under it. The payload shape must match the key: a
/// container key wants nested elements, a link key wants attributes; a
/// menu or toc key takes attributes or anything empty for its defaults;
/// a mismatch is a configuration error, never coerced. A link attribute
/// key outside the recognized set earns a warning and is ignored.
pub fn build_element(
    key: ElementKey,
    payload: ElementPayload,
    warnings: &mut Vec<String>,
) -> (r: Result<Element, DdError>)
    ensures
        crate::strutil::views_of(final(warnings)@) == crate::strutil::views_of(old(warnings)@)
            + (match (key.etype, payload) {
            (ElementType::Link, ElementPayload::Attributes(attrs)) =>
                crate::nav_link::unknown_link_attr_warns(attrs.entries@),
            _ => Seq::<Seq<char>>::empty(),
        }),
        ({
            match (key.etype, payload) {
                (ElementType::HtmlTag(tag), ElementPayload::Composite(comp)) => r matches Ok(e)
                    && e.classes == key.classes && (e.content matches ElementContent::Html {
                    tag: t,
                    children,
                } && t == tag && children == comp.children),
                (ElementType::Link, ElementPayload::Attributes(attrs)) => r matches Ok(e)
                    && e.classes == key.classes && (e.content matches ElementContent::Link(link)
                    && link@.href == crate::nav_link::href_of_attrs(attrs) && link@.content
                    == crate::nav_link::content_of_attrs(attrs)),
                (ElementType::Menu, ElementPayload::Attributes(attrs)) => r matches Ok(e)
                    && e.classes == key.classes && e.content == ElementContent::Menu(
                    Menu::of_attrs_spec(attrs),
                ),
                (ElementType::Menu, ElementPayload::Composite(comp)) => if comp.children@.len()
                    == 0 {
                    r matches Ok(e) && e.classes == key.classes && e.content
                        == ElementContent::Menu(Menu { hamburger_checkbox: true })
                } else {
                    r is Err
                },
                (ElementType::Toc, ElementPayload::Attributes(attrs)) => r matches Ok(e)
                    && e.classes == key.classes && e.content == ElementContent::Toc(
                    Toc::of_attrs_spec(attrs),
                ),
                (ElementType::Toc, ElementPayload::Composite(comp)) => if comp.children@.len()
                    == 0 {
                    r matches Ok(e) && e.classes == key.classes && e.content
                        == ElementContent::Toc(Toc { activate_visible_item: false })
                } else {
                    r is Err
                },
                (ElementType::Main, _) => r matches Ok(e) && e.classes == key.classes
                    && e.content is Main,
                _ => r is Err,
            }
        }),
{
    let ElementKey { etype, classes } = key;
    match (etype, payload) {
        (ElementType::HtmlTag(tag), ElementPayload::Composite(comp)) => Ok(
            Element { classes, content: ElementContent::Html { tag, children: comp.children } },
        ),
        (ElementType::Link, ElementPayload::Attributes(attrs)) => {
            crate::nav_link::push_unknown_attr_warnings(&attrs, warnings);
            Ok(Element { classes, content: ElementContent::Link(NavLink::from_attributes(&attrs)) })
        },
        (ElementType::Menu, ElementPayload::Attributes(attrs)) => Ok(
            Element { classes, content: ElementContent::Menu(Menu::from_attributes(&attrs)) },
        ),
        (ElementType::Menu, ElementPayload::Composite(comp)) => {
            if comp.children.len() == 0 {
                Ok(Element { classes, content: ElementContent::Menu(Menu::default()) })
            } else {
                Err(DdError::InvalidElement { key: String::from_str("ddoc-menu") })
            }
        },
        (ElementType::Toc, ElementPayload::Attributes(attrs)) => Ok(
            Element { classes, content: ElementContent::Toc(Toc::from_attributes(&attrs)) },
        ),
        (ElementType::Toc, ElementPayload::Composite(comp)) => {
            if comp.children.len() == 0 {
                Ok(Element { classes, content: ElementContent::Toc(Toc::default()) })
            } else {
                Err(DdError::InvalidElement { key: String::from_str("ddoc-toc") })
            }
        },
        (ElementType::Main, _) => Ok(Element { classes, content: ElementContent::Main }),
        (ElementType::HtmlTag(tag), ElementPayload::Attributes(_)) => Err(
            DdError::InvalidElement { key: tag },
        ),
        (ElementType::Link, ElementPayload::Composite(_)) => Err(
            DdError::InvalidElement { key: String::from_str("ddoc-link") },
        ),
    }
}

} // verus!
