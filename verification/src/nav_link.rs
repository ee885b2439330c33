use vstd::prelude::*;
use vstd::string::StringExecFns;
use crate::attribute::{Attributes, AttributeValue};
use crate::text::Text;

verus! {

/// Spec-level shape of a piece of text in a navigation link.
pub enum TextView {
    Literal(Seq<char>),
    PreviousPageTitle,
    CurrentPageTitle,
    NextPageTitle,
}

impl View for Text {
    type V = TextView;

    open spec fn view(&self) -> TextView {
        match self {
            Text::String(s) => TextView::Literal(s@),
            Text::PreviousPageTitle => TextView::PreviousPageTitle,
            Text::CurrentPageTitle => TextView::CurrentPageTitle,
            Text::NextPageTitle => TextView::NextPageTitle,
        }
    }
}

/// One piece of the visible content of a navigation link: an image, an
/// image embedded inline in the page, or a label.
#[derive(Debug, Clone)]
pub enum NavLinkPart {
    Img { src: String, alt: Option<String> },
    InlineImg { src: String },
    Label(Text),
}

/// Spec-level shape of a navigation link part.
pub enum NavLinkPartView {
    Img { src: Seq<char>, alt: Option<Seq<char>> },
    InlineImg { src: Seq<char> },
    Label(TextView),
}

impl View for NavLinkPart {
    type V = NavLinkPartView;

    open spec fn view(&self) -> NavLinkPartView {
        match self {
            NavLinkPart::Img { src, alt } => NavLinkPartView::Img {
                src: src@,
                alt: alt.deep_view(),
            },
            NavLinkPart::InlineImg { src } => NavLinkPartView::InlineImg { src: src@ },
            NavLinkPart::Label(t) => NavLinkPartView::Label(t@),
        }
    }
}

impl DeepView for NavLinkPart {
    type V = NavLinkPartView;

    open spec fn deep_view(&self) -> NavLinkPartView {
        self.view()
    }
}

/// A single link in a navigation bar: an optional target URL, an optional
/// browser target, the content shown inside the anchor, and the
/// deprecated extra class name.
#[derive(Debug, Clone)]
pub struct NavLink {
    pub href: Option<String>,
    pub target: Option<String>,
    pub class: Option<String>,
    pub content: Vec<NavLinkPart>,
}

/// Spec-level shape of a navigation link.
pub struct NavLinkView {
    pub href: Option<Seq<char>>,
    pub target: Option<Seq<char>>,
    pub class: Option<Seq<char>>,
    pub content: Seq<NavLinkPartView>,
}

impl View for NavLink {
    type V = NavLinkView;

    open spec fn view(&self) -> NavLinkView {
        NavLinkView {
            href: self.href.deep_view(),
            target: self.target.deep_view(),
            class: self.class.deep_view(),
            content: self.content.deep_view(),
        }
    }
}

/// The string bound to `key` in `attrs`, if its first binding is a string.
pub open spec fn attr_str(attrs: Attributes, key: Seq<char>) -> Option<Seq<char>> {
    match attrs.find_spec(key) {
        Some(AttributeValue::String(s)) => Some(s@),
        _ => None,
    }
}

/// The target URL named by a link's attributes: `href`, or one of its
/// accepted aliases `url` and `link_target`, whichever is bound first.
pub open spec fn href_of_attrs(attrs: Attributes) -> Option<Seq<char>> {
    if attrs.find_spec("href"@) is Some {
        attr_str(attrs, "href"@)
    } else if attrs.find_spec("url"@) is Some {
        attr_str(attrs, "url"@)
    } else {
        attr_str(attrs, "link_target"@)
    }
}

/// The content parts described by a link's attributes: the image, then
/// the inline image, then the label, for those that are bound.
pub open spec fn content_of_attrs(attrs: Attributes) -> Seq<NavLinkPartView> {
    let img: Seq<NavLinkPartView> = match attr_str(attrs, "img"@) {
        Some(src) => seq![NavLinkPartView::Img { src, alt: attr_str(attrs, "alt"@) }],
        None => Seq::empty(),
    };
    let inline: Seq<NavLinkPartView> = match attr_str(attrs, "inline"@) {
        Some(src) => seq![NavLinkPartView::InlineImg { src }],
        None => Seq::empty(),
    };
    let label: Seq<NavLinkPartView> = match attr_str(attrs, "label"@) {
        Some(l) => seq![NavLinkPartView::Label(text_view_of(l))],
        None => Seq::empty(),
    };
    img + inline + label
}

/// The text view a literal string reads as, with the placeholder tokens
/// recognized.
pub open spec fn text_view_of(s: Seq<char>) -> TextView {
    if s == "--previous-page-title"@ {
        TextView::PreviousPageTitle
    } else if s == "--current-page-title"@ {
        TextView::CurrentPageTitle
    } else if s == "--next-page-title"@ {
        TextView::NextPageTitle
    } else {
        TextView::Literal(s)
    }
}

/// Whether a link element recognizes this attribute key.
pub open spec fn recognized_link_attr(k: Seq<char>) -> bool {
    ||| k == "img"@
    ||| k == "inline"@
    ||| k == "label"@
    ||| k == "alt"@
    ||| k == "href"@
    ||| k == "url"@
    ||| k == "link_target"@
    ||| k == "class"@
    ||| k == "target"@
}

/// The warning an unrecognized link attribute earns.
pub open spec fn unknown_attr_warning(k: Seq<char>) -> Seq<char> {
    "unknown link attribute: "@ + k
}

/// The warnings a link element's attributes earn: one per key outside
/// the recognized set, in order; the values are ignored either way.
pub open spec fn unknown_link_attr_warns(
    entries: Seq<(String, AttributeValue)>,
) -> Seq<Seq<char>>
    decreases entries.len(),
{
    if entries.len() == 0 {
        Seq::empty()
    } else {
        unknown_link_attr_warns(entries.drop_last()) + (if recognized_link_attr(
            entries.last().0@,
        ) {
            Seq::<Seq<char>>::empty()
        } else {
            seq![unknown_attr_warning(entries.last().0@)]
        })
    }
}

/// Whether a link element recognizes this attribute key.
fn is_recognized_link_attr(k: &str) -> (r: bool)
    ensures
        r == recognized_link_attr(k@),
{
    crate::strutil::str_eq(k, "img") || crate::strutil::str_eq(k, "inline")
        || crate::strutil::str_eq(k, "label") || crate::strutil::str_eq(k, "alt")
        || crate::strutil::str_eq(k, "href") || crate::strutil::str_eq(k, "url")
        || crate::strutil::str_eq(k, "link_target") || crate::strutil::str_eq(k, "class")
        || crate::strutil::str_eq(k, "target")
}

/// Warn about every attribute key a link element does not recognize;
/// such keys carry no meaning and are otherwise ignored.
pub fn push_unknown_attr_warnings(attrs: &Attributes, warnings: &mut Vec<String>)
    ensures
        crate::strutil::views_of(final(warnings)@) == crate::strutil::views_of(old(warnings)@)
            + unknown_link_attr_warns(attrs.entries@),
{
    proof {
        reveal_strlit("unknown link attribute: ");
    }
    let ghost w0 = crate::strutil::views_of(warnings@);
    let mut i: usize = 0;
    proof {
        assert(attrs.entries@.take(0) =~= Seq::<(String, AttributeValue)>::empty());
        assert(crate::strutil::views_of(warnings@) =~= w0 + unknown_link_attr_warns(
            attrs.entries@.take(0),
        ));
    }
    while i < attrs.entries.len()
        invariant
            0 <= i <= attrs.entries@.len(),
            crate::strutil::views_of(warnings@) == w0 + unknown_link_attr_warns(
                attrs.entries@.take(i as int),
            ),
        decreases attrs.entries@.len() - i,
    {
        proof {
            reveal_strlit("unknown link attribute: ");
            assert(attrs.entries@.take(i + 1).drop_last() =~= attrs.entries@.take(i as int));
            assert(attrs.entries@.take(i + 1).last() == attrs.entries@[i as int]);
        }
        let ghost before = crate::strutil::views_of(warnings@);
        if !is_recognized_link_attr(attrs.entries[i].0.as_str()) {
            let mut msg = String::from_str("unknown link attribute: ");
            msg.append(attrs.entries[i].0.as_str());
            warnings.push(msg);
            proof {
                assert(crate::strutil::views_of(warnings@) =~~= before.push(
                    unknown_attr_warning(attrs.entries@[i as int].0@),
                ));
            }
        }
        proof {
            assert(crate::strutil::views_of(warnings@) =~= w0 + unknown_link_attr_warns(
                attrs.entries@.take(i + 1),
            ));
        }
        i += 1;
    }
    proof {
        assert(attrs.entries@.take(attrs.entries@.len() as int) =~= attrs.entries@);
    }
}

impl NavLink {
    /// Read a navigation link from the flat attribute map of a `link`
    /// configuration element, normalizing the attribute aliases.
    pub fn from_attributes(attrs: &Attributes) -> (r: NavLink)
        ensures
            r@.href == href_of_attrs(*attrs),
            r@.target == attr_str(*attrs, "target"@),
            r@.class == attr_str(*attrs, "class"@),
            r@.content == content_of_attrs(*attrs),
    {
        let href = match attrs.find("href") {
            Some(v) => match v.as_str() {
                Some(s) => Some(s.to_owned()),
                None => None,
            },
            None => match attrs.find("url") {
                Some(v) => match v.as_str() {
                    Some(s) => Some(s.to_owned()),
                    None => None,
                },
                None => attrs.find_str("link_target"),
            },
        };
        let target = attrs.find_str("target");
        let class = attrs.find_str("class");
        let mut content: Vec<NavLinkPart> = Vec::new();
        if let Some(src) = attrs.find_str("img") {
            let alt = attrs.find_str("alt");
            content.push(NavLinkPart::Img { src, alt });
        }
        if let Some(src) = attrs.find_str("inline") {
            content.push(NavLinkPart::InlineImg { src });
        }
        if let Some(l) = attrs.find_str("label") {
            content.push(NavLinkPart::Label(Text::from_cow(l.as_str())));
        }
        let r = NavLink { href, target, class, content };
        proof {
            assert(r@.content =~~= content_of_attrs(*attrs));
        }
        r
    }
}

} // verus!
