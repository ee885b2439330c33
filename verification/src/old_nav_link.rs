use vstd::prelude::*;
use crate::nav_link::{NavLink, NavLinkPart, NavLinkPartView};
use crate::text::Text;

verus! {

/// A single link in the navigation bar, as the historical configuration
/// format wrote it: one optional field per kind of content.
#[derive(Debug, Clone)]
pub struct OldNavLink {
    pub img: Option<String>,
    pub inline: Option<String>,
    pub label: Option<Text>,
    pub alt: Option<String>,
    pub href: Option<String>,
    pub class: Option<String>,
    pub target: Option<String>,
}

impl OldNavLink {
    /// The content parts this historical link stands for, in their fixed
    /// order: image, inline image, label.
    pub open spec fn content_spec(self) -> Seq<NavLinkPartView> {
        let img: Seq<NavLinkPartView> = match self.img {
            Some(src) => seq![NavLinkPartView::Img { src: src@, alt: self.alt.deep_view() }],
            None => Seq::empty(),
        };
        let inline: Seq<NavLinkPartView> = match self.inline {
            Some(src) => seq![NavLinkPartView::InlineImg { src: src@ }],
            None => Seq::empty(),
        };
        let label: Seq<NavLinkPartView> = match self.label {
            Some(t) => seq![NavLinkPartView::Label(t@)],
            None => Seq::empty(),
        };
        img + inline + label
    }

    /// Carry this historical link over to the current structure.
    pub fn to_nav_link(&self) -> (r: NavLink)
        ensures
            r@.href == self.href.deep_view(),
            r@.target == self.target.deep_view(),
            r@.class is None,
            r@.content == self.content_spec(),
    {
        let mut content: Vec<NavLinkPart> = Vec::new();
        if let Some(img_src) = &self.img {
            content.push(
                NavLinkPart::Img { src: img_src.clone(), alt: clone_opt_string(&self.alt) },
            );
        }
        if let Some(inline_src) = &self.inline {
            content.push(NavLinkPart::InlineImg { src: inline_src.clone() });
        }
        if let Some(label) = &self.label {
            content.push(NavLinkPart::Label(label.duplicate()));
        }
        let r = NavLink {
            href: clone_opt_string(&self.href),
            target: clone_opt_string(&self.target),
            class: None,
            content,
        };
        proof {
            assert(r@.content =~~= self.content_spec());
        }
        r
    }

    /// The class list this historical link carries: its one class
    /// attribute, when set.
    pub fn classes(&self) -> (r: Vec<String>)
        ensures
            match self.class {
                Some(c) => r@.len() == 1 && r@[0]@ == c@,
                None => r@.len() == 0,
            },
    {
        if let Some(class_str) = &self.class {
            vec![class_str.clone()]
        } else {
            Vec::new()
        }
    }
}

/// Copy an optional string, keeping its characters.
pub fn clone_opt_string(v: &Option<String>) -> (r: Option<String>)
    ensures
        r.deep_view() == v.deep_view(),
{
    match v {
        Some(s) => Some(s.clone()),
        None => None,
    }
}

} // verus!
