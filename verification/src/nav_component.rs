use vstd::prelude::*;
use crate::composite_element::CompositeElement;
use crate::element::{Element, ElementContent};
use crate::menu::Menu;
use crate::old_nav_link::OldNavLink;
use crate::strutil::views_of;
use crate::toc::Toc;

verus! {

/// One component of a historical navigation bar: the menu, or a list of
/// links.
#[derive(Debug)]
pub enum NavComponent {
    Menu,
    NavLinks(Vec<OldNavLink>),
}

/// A historical header or footer: its components, keyed by a class
/// name, in order.
#[derive(Debug)]
pub struct NavDir {
    pub components: Vec<(String, NavComponent)>,
}

/// The interface options of the historical configuration format.
#[derive(Debug, Clone, Copy, PartialEq, Eq, Structural)]
pub struct UiOptions {
    pub hamburger_checkbox: bool,
}

impl Default for UiOptions {
    fn default() -> (r: Self)
        ensures
            r.hamburger_checkbox,
    {
        Self { hamburger_checkbox: true }
    }
}

/// The value historical configurations fall back to for a missing
/// boolean option.
pub fn bool_true() -> (r: bool)
    ensures
        r,
{
    true
}

/// The navigation fields of a historical configuration, kept only to be
/// converted into a body layout.
#[derive(Debug)]
pub struct NavComponents {
    pub header: NavDir,
    pub footer: NavDir,
    pub ui: UiOptions,
}

/// Whether `e` is the element a historical link stands for: a link node
/// carrying the historical link's one class, target and content.
pub open spec fn link_element_ok(link: OldNavLink, e: Element) -> bool {
    &&& match link.class {
        Some(c) => views_of(e.classes@) == seq![c@],
        None => views_of(e.classes@) == Seq::<Seq<char>>::empty(),
    }
    &&& e.content matches ElementContent::Link(nl) && nl@.href == link.href.deep_view()
        && nl@.target == link.target.deep_view() && nl@.content == link.content_spec()
}

/// Whether `children` are the elements a historical header or footer
/// stands for: one element per component, a menu insert for the menu,
/// a `nav` container of link elements for a link list, each carrying
/// its component's class name.
pub open spec fn navdir_children_ok(d: NavDir, ui: UiOptions, children: Seq<Element>) -> bool {
    &&& children.len() == d.components@.len()
    &&& forall|i: int|
        0 <= i < children.len() ==> match #[trigger] d.components@[i].1 {
            NavComponent::Menu => {
                &&& views_of(children[i].classes@) == seq![d.components@[i].0@]
                &&& children[i].content == ElementContent::Menu(
                    Menu { hamburger_checkbox: ui.hamburger_checkbox },
                )
            },
            NavComponent::NavLinks(links) => {
                &&& views_of(children[i].classes@) == seq![d.components@[i].0@]
                &&& children[i].content matches ElementContent::Html { tag, children: link_elems }
                    && tag@ == "nav"@ && link_elems@.len() == links@.len() && (forall|j: int|
                    0 <= j < links@.len() ==> link_element_ok(
                        #[trigger] links@[j],
                        link_elems@[j],
                    ))
            },
        }
}

impl NavDir {
    pub fn is_empty(&self) -> (r: bool)
        ensures
            r == (self.components@.len() == 0),
    {
        self.components.len() == 0
    }

    /// The body-layout elements this historical header or footer stands
    /// for.
    fn to_children(&self, ui: &UiOptions) -> (r: Vec<Element>)
        ensures
            navdir_children_ok(*self, *ui, r@),
    {
        let mut children: Vec<Element> = Vec::new();
        let mut i: usize = 0;
        while i < self.components.len()
            invariant
                0 <= i <= self.components@.len(),
                children@.len() == i,
                forall|k: int|
                    0 <= k < i ==> match #[trigger] self.components@[k].1 {
                        NavComponent::Menu => {
                            &&& views_of(children@[k].classes@) == seq![self.components@[k].0@]
                            &&& children@[k].content == ElementContent::Menu(
                                Menu { hamburger_checkbox: ui.hamburger_checkbox },
                            )
                        },
                        NavComponent::NavLinks(links) => {
                            &&& views_of(children@[k].classes@) == seq![self.components@[k].0@]
                            &&& children@[k].content matches ElementContent::Html {
                                tag,
                                children: link_elems,
                            } && tag@ == "nav"@ && link_elems@.len() == links@.len() && (forall|
                                j: int,
                            |
                                0 <= j < links@.len() ==> link_element_ok(
                                    #[trigger] links@[j],
                                    link_elems@[j],
                                ))
                        },
                    },
            decreases self.components@.len() - i,
        {
            let entry = &self.components[i];
            proof {
                assert(*entry == self.components@[i as int]);
            }
            match &entry.1 {
                NavComponent::Menu => {
                    let menu_insert = Menu { hamburger_checkbox: ui.hamburger_checkbox };
                    let elem = Element {
                        classes: vec![entry.0.clone()],
                        content: ElementContent::Menu(menu_insert),
                    };
                    proof {
                        assert(views_of(elem.classes@) =~~= seq![entry.0@]);
                    }
                    children.push(elem);
                },
                NavComponent::NavLinks(links) => {
                    let mut nav_children: Vec<Element> = Vec::new();
                    let mut j: usize = 0;
                    while j < links.len()
                        invariant
                            0 <= j <= links@.len(),
                            nav_children@.len() == j,
                            forall|m: int|
                                0 <= m < j ==> link_element_ok(
                                    #[trigger] links@[m],
                                    nav_children@[m],
                                ),
                        decreases links@.len() - j,
                    {
                        let link = &links[j];
                        let elem = Element {
                            classes: link.classes(),
                            content: ElementContent::Link(link.to_nav_link()),
                        };
                        proof {
                            assert(link_element_ok(links@[j as int], elem)) by {
                                match link.class {
                                    Some(c) => {
                                        assert(views_of(elem.classes@) =~~= seq![c@]);
                                    },
                                    None => {
                                        assert(views_of(elem.classes@)
                                            =~~= Seq::<Seq<char>>::empty());
                                    },
                                }
                            }
                        }
                        nav_children.push(elem);
                        j += 1;
                    }
                    let mut nav = Element::new_composite("nav", nav_children);
                    proof {
                        reveal_strlit("nav");
                        crate::path_laws::lemma_split_sep_free("nav"@, '.');
                        assert(!"nav"@.contains('.')) by {
                            if "nav"@.contains('.') {
                                let k = choose|k: int|
                                    0 <= k < "nav"@.len() && "nav"@[k] == '.';
                                assert("nav"@.len() == 3);
                            }
                        }
                        assert(views_of(nav.classes@) =~~= Seq::<Seq<char>>::empty());
                    }
                    nav.classes.push(entry.0.clone());
                    proof {
                        assert(views_of(nav.classes@) =~~= seq![entry.0@]);
                    }
                    children.push(nav);
                },
            }
            i += 1;
        }
        children
    }
}

/// Whether `r` is the body layout a historical configuration stands
/// for: the header's elements under a `header` container when the
/// header has any, then an `article` holding a `page-nav` aside with a
/// table of contents and the main content, then likewise a `footer`.
pub open spec fn body_composite_ok(nc: NavComponents, r: CompositeElement) -> bool {
    let has_header: int = if nc.header.components@.len() > 0 {
        1
    } else {
        0
    };
    let has_footer: int = if nc.footer.components@.len() > 0 {
        1
    } else {
        0
    };
    let article = r.children@[has_header];
    &&& r.children@.len() == has_header + 1 + has_footer
    &&& has_header == 1 ==> (r.children@[0].content matches ElementContent::Html {
        tag,
        children,
    } && tag@ == "header"@ && navdir_children_ok(nc.header, nc.ui, children@)
        && views_of(r.children@[0].classes@) == Seq::<Seq<char>>::empty())
    &&& article.content matches ElementContent::Html { tag, children } && tag@ == "article"@
        && children@.len() == 2 && (children@[0].content matches ElementContent::Html {
        tag: aside_tag,
        children: aside_children,
    } && aside_tag@ == "aside"@ && views_of(children@[0].classes@) == seq!["page-nav"@]
        && aside_children@.len() == 1 && aside_children@[0].content == ElementContent::Toc(
        Toc { activate_visible_item: false },
    )) && children@[1].content is Main
    &&& has_footer == 1 ==> (r.children@[has_header + 1].content
        matches ElementContent::Html { tag, children } && tag@ == "footer"@
        && navdir_children_ok(nc.footer, nc.ui, children@) && views_of(
        r.children@[has_header + 1].classes@,
    ) == Seq::<Seq<char>>::empty())
}

impl NavComponents {
    /// The body layout this historical configuration stands for,
    /// including the parts that were implicit in the historical format.
    pub fn into_body_composite(&self) -> (r: CompositeElement)
        ensures
            body_composite_ok(*self, r),
    {
        proof {
            reveal_strlit("header");
            reveal_strlit("article");
            reveal_strlit("footer");
            reveal_strlit("aside");
            reveal_strlit("aside.");
            reveal_strlit("page-nav");
            reveal_strlit("aside.page-nav");
            assert(!"header"@.contains('.')) by {
                assert("header"@.len() == 6);
                if "header"@.contains('.') {
                    let k = choose|k: int| 0 <= k < "header"@.len() && "header"@[k] == '.';
                }
            }
            assert(!"article"@.contains('.')) by {
                assert("article"@.len() == 7);
                if "article"@.contains('.') {
                    let k = choose|k: int| 0 <= k < "article"@.len() && "article"@[k] == '.';
                }
            }
            assert(!"footer"@.contains('.')) by {
                assert("footer"@.len() == 6);
                if "footer"@.contains('.') {
                    let k = choose|k: int| 0 <= k < "footer"@.len() && "footer"@[k] == '.';
                }
            }
            assert(!"aside"@.contains('.')) by {
                assert("aside"@.len() == 5);
                if "aside"@.contains('.') {
                    let k = choose|k: int| 0 <= k < "aside"@.len() && "aside"@[k] == '.';
                }
            }
            assert(!"page-nav"@.contains('.')) by {
                assert("page-nav"@.len() == 8);
                if "page-nav"@.contains('.') {
                    let k = choose|k: int| 0 <= k < "page-nav"@.len() && "page-nav"@[k] == '.';
                }
            }
            crate::path_laws::lemma_split_sep_free("header"@, '.');
            crate::path_laws::lemma_split_sep_free("article"@, '.');
            crate::path_laws::lemma_split_sep_free("footer"@, '.');
            crate::path_laws::lemma_split_sep_free("aside"@, '.');
            crate::path_laws::lemma_split_sep_free("page-nav"@, '.');
            assert("aside."@ =~= "aside"@ + seq!['.']);
            assert("aside."@.len() > 0 && "aside."@.last() == '.');
            crate::path_laws::lemma_split_concat("aside."@, "page-nav"@, '.');
            assert("aside."@ + "page-nav"@ =~= "aside.page-nav"@);
            assert("aside."@.drop_last() =~= "aside"@);
            assert(crate::strutil::split_at_sep("aside."@, '.')
                =~~= seq!["aside"@, Seq::<char>::empty()]);
            assert(crate::strutil::split_at_sep("aside.page-nav"@, '.') =~~= seq![
                "aside"@,
                "page-nav"@,
            ]);
        }
        let mut children: Vec<Element> = Vec::new();
        if !self.header.is_empty() {
            children.push(Element::new_composite("header", self.header.to_children(&self.ui)));
        }
        let toc_elem = Element { classes: Vec::new(), content: ElementContent::Toc(Toc::default()) };
        let mut aside_children: Vec<Element> = Vec::new();
        aside_children.push(toc_elem);
        let aside = Element::new_composite("aside.page-nav", aside_children);
        let main_elem = Element { classes: Vec::new(), content: ElementContent::Main };
        let mut article_children: Vec<Element> = Vec::new();
        article_children.push(aside);
        article_children.push(main_elem);
        children.push(Element::new_composite("article", article_children));
        if !self.footer.is_empty() {
            children.push(Element::new_composite("footer", self.footer.to_children(&self.ui)));
        }
        let r = CompositeElement { children };
        proof {
            assert(views_of(Seq::<String>::empty()) =~~= Seq::<Seq<char>>::empty());
            assert(seq!["header"@].drop_first() =~~= Seq::<Seq<char>>::empty());
            assert(seq!["article"@].drop_first() =~~= Seq::<Seq<char>>::empty());
            assert(seq!["footer"@].drop_first() =~~= Seq::<Seq<char>>::empty());
            assert(seq!["aside"@, "page-nav"@].drop_first() =~~= seq!["page-nav"@]);
            assert(seq!["aside"@, "page-nav"@][0] == "aside"@);
            assert(body_composite_ok(*self, r));
        }
        r
    }
}

} // verus!
