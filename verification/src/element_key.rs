use vstd::prelude::*;
use crate::strutil::{split_at_sep, split_str, str_eq_string, views_of};

verus! {

/// The kind of element a configuration key names: one of the reserved
/// pseudo-tags, or a literal HTML tag.
#[derive(Debug, Clone, PartialEq, Eq, Hash)]
pub enum ElementType {
    HtmlTag(String),
    Menu,
    Link,
    Toc,
    Main,
}

/// A configuration key of the form `tag.class1.class2`: the element type
/// with its class names.
#[derive(Debug, Clone)]
pub struct ElementKey {
    pub etype: ElementType,
    pub classes: Vec<String>,
}

impl ElementKey {
    /// Read a configuration key: the text before the first dot names the
    /// element type, every following dot-separated token is a class name.
    pub fn parse(s: &str) -> (r: ElementKey)
        ensures
            ({
                let t = split_at_sep(s@, '.')[0];
                &&& t == "ddoc-menu"@ ==> r.etype is Menu
                &&& t == "ddoc-link"@ ==> r.etype is Link
                &&& t == "ddoc-toc"@ ==> r.etype is Toc
                &&& t == "ddoc-main"@ ==> r.etype is Main
                &&& (t != "ddoc-menu"@ && t != "ddoc-link"@ && t != "ddoc-toc"@ && t
                    != "ddoc-main"@) ==> (r.etype matches ElementType::HtmlTag(tag) && tag@ == t)
            }),
            views_of(r.classes@) == split_at_sep(s@, '.').drop_first(),
    {
        proof {
            reveal_strlit("ddoc-menu");
            reveal_strlit("ddoc-link");
            reveal_strlit("ddoc-toc");
            reveal_strlit("ddoc-main");
            assert("ddoc-menu"@.len() == 9);
            assert("ddoc-link"@.len() == 9);
            assert("ddoc-toc"@.len() == 8);
            assert("ddoc-main"@.len() == 9);
            assert("ddoc-menu"@[5] == 'm');
            assert("ddoc-menu"@[6] == 'e');
            assert("ddoc-main"@[6] == 'a');
            assert("ddoc-link"@[5] == 'l');
        }
        let mut parts = split_str(s, '.');
        proof {
            crate::strutil::lemma_split_at_sep_len(s@, '.');
        }
        let first = parts.remove(0);
        proof {
            assert(views_of(parts@) =~~= split_at_sep(s@, '.').drop_first());
        }
        let etype = if str_eq_string(&first, "ddoc-menu") {
            ElementType::Menu
        } else if str_eq_string(&first, "ddoc-link") {
            ElementType::Link
        } else if str_eq_string(&first, "ddoc-toc") {
            ElementType::Toc
        } else if str_eq_string(&first, "ddoc-main") {
            ElementType::Main
        } else {
            ElementType::HtmlTag(first)
        };
        ElementKey { etype, classes: parts }
    }
}

} // verus!
