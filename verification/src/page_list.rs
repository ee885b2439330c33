use vstd::prelude::*;
use crate::page::{Page, PageView};
use crate::page_path::{PagePath, PagePathView};
use crate::strutil::str_eq_string;

verus! {

/// One entry of the site map: a page, or a nested sub-map.
#[derive(Debug)]
pub enum ListItem {
    Page(PagePath),
    List(PageList),
}

/// The site map: an ordered mapping from display titles to pages or
/// nested sub-maps. Insertion order carries the page ordering used for
/// navigation.
#[derive(Debug)]
pub struct PageList {
    pub items: Vec<(String, ListItem)>,
}

/// The views of a sequence of page paths.
pub open spec fn pp_views(s: Seq<PagePath>) -> Seq<PagePathView> {
    s.map_values(|p: PagePath| p@)
}

/// The page paths reached from `acc` after walking one entry depth
/// first, each path kept once, first reference winning.
pub open spec fn paths_of_item(acc: Seq<PagePathView>, item: ListItem) -> Seq<PagePathView>
    decreases item, 0nat,
{
    match item {
        ListItem::Page(p) => if acc.contains(p@) {
            acc
        } else {
            acc.push(p@)
        },
        ListItem::List(l) => paths_of_items(acc, l.items@),
    }
}

/// The page paths reached from `acc` after walking the entries in
/// order.
pub open spec fn paths_of_items(
    acc: Seq<PagePathView>,
    items: Seq<(String, ListItem)>,
) -> Seq<PagePathView>
    decreases items, 1nat,
{
    if items.len() == 0 {
        acc
    } else {
        paths_of_items(paths_of_item(acc, items.first().1), items.drop_first())
    }
}

/// The canonical page ordering of a site map: its depth-first,
/// left-to-right leaf paths, without repetitions.
pub open spec fn flat_paths(l: PageList) -> Seq<PagePathView> {
    paths_of_items(Seq::empty(), l.items@)
}

/// The leftmost page path of one entry, if any.
pub open spec fn first_path_of_item(item: ListItem) -> Option<PagePathView>
    decreases item, 0nat,
{
    match item {
        ListItem::Page(p) => Some(p@),
        ListItem::List(l) => first_path_of_items(l.items@),
    }
}

/// The leftmost page path of an entry sequence, if any.
pub open spec fn first_path_of_items(items: Seq<(String, ListItem)>) -> Option<PagePathView>
    decreases items, 1nat,
{
    if items.len() == 0 {
        None
    } else {
        match first_path_of_item(items.first().1) {
            Some(p) => Some(p),
            None => first_path_of_items(items.drop_first()),
        }
    }
}

/// Index of the first occurrence of `x`, or -1 when absent.
pub open spec fn idx_of(s: Seq<PagePathView>, x: PagePathView) -> int
    decreases s.len(),
{
    if s.len() == 0 {
        -1
    } else if s.first() == x {
        0
    } else {
        let r = idx_of(s.drop_first(), x);
        if r < 0 {
            -1
        } else {
            r + 1
        }
    }
}

/// The page before `x` in the canonical ordering, if any.
pub open spec fn prev_of(l: PageList, x: PagePathView) -> Option<PagePathView> {
    let f = flat_paths(l);
    let i = idx_of(f, x);
    if i >= 1 {
        Some(f[i - 1])
    } else {
        None
    }
}

/// The page after `x` in the canonical ordering, if any.
pub open spec fn next_of(l: PageList, x: PagePathView) -> Option<PagePathView> {
    let f = flat_paths(l);
    let i = idx_of(f, x);
    if 0 <= i && i + 1 < f.len() {
        Some(f[i + 1])
    } else {
        None
    }
}

impl ListItem {
    /// The leftmost page path under this entry, if any.
    pub fn first_page_path(&self) -> (r: Option<PagePath>)
        ensures
            match r {
                Some(p) => first_path_of_item(*self) == Some(p@),
                None => first_path_of_item(*self) is None,
            },
        decreases *self,
    {
        match self {
            ListItem::Page(path) => Some(path.duplicate()),
            ListItem::List(submenu) => submenu.first_page_path(),
        }
    }
}

impl PageList {
    /// The leftmost page path of the site map, if it has any page at
    /// all.
    #[verifier::loop_isolation(false)]
    pub fn first_page_path(&self) -> (r: Option<PagePath>)
        ensures
            match r {
                Some(p) => first_path_of_items(self.items@) == Some(p@),
                None => first_path_of_items(self.items@) is None,
            },
        decreases *self,
    {
        let mut i: usize = 0;
        proof {
            assert(self.items@.skip(0) =~= self.items@);
        }
        while i < self.items.len()
            invariant
                0 <= i <= self.items@.len(),
                first_path_of_items(self.items@.skip(i as int)) == first_path_of_items(
                    self.items@,
                ),
                forall|j: int|
                    0 <= j < i ==> first_path_of_item(#[trigger] self.items@[j].1) is None,
            decreases self.items@.len() - i,
        {
            proof {
                assert(self.items@.skip(i as int).first() == self.items@[i as int]);
                assert(self.items@.skip(i as int).drop_first() =~= self.items@.skip(i + 1));
                assert(decreases_to!(*self => self.items));
                assert(decreases_to!(self.items => self.items@));
                assert(decreases_to!(self.items@ => self.items@[i as int]));
                assert(decreases_to!(self.items@[i as int] => self.items@[i as int].1));
            }
            let item = &self.items[i].1;
            if let Some(path) = item.first_page_path() {
                return Some(path);
            }
            i += 1;
        }
        proof {
            assert(self.items@.skip(self.items@.len() as int).len() == 0);
        }
        None
    }
}

/// Whether a path list holds a path with this view.
pub fn contains_path(v: &Vec<PagePath>, p: &PagePath) -> (r: bool)
    ensures
        r == pp_views(v@).contains(p@),
{
    let mut i: usize = 0;
    while i < v.len()
        invariant
            0 <= i <= v@.len(),
            forall|j: int| 0 <= j < i ==> pp_views(v@)[j] != p@,
        decreases v@.len() - i,
    {
        if v[i] == *p {
            proof {
                assert(pp_views(v@)[i as int] == p@);
            }
            return true;
        }
        i += 1;
    }
    proof {
        if pp_views(v@).contains(p@) {
            let k = choose|k: int| 0 <= k < pp_views(v@).len() && pp_views(v@)[k] == p@;
            assert(pp_views(v@)[k] == p@);
        }
    }
    false
}

impl PageList {
    /// Append, depth first and left to right, every page path of the
    /// site map that the list does not already hold; the first
    /// reference to a path wins.
    #[verifier::loop_isolation(false)]
    pub fn add_page_paths(&self, list: &mut Vec<PagePath>)
        ensures
            pp_views(final(list)@) == paths_of_items(pp_views(old(list)@), self.items@),
        decreases *self,
    {
        let mut i: usize = 0;
        proof {
            assert(self.items@.skip(0) =~= self.items@);
        }
        while i < self.items.len()
            invariant
                0 <= i <= self.items@.len(),
                paths_of_items(pp_views(list@), self.items@.skip(i as int)) == paths_of_items(
                    pp_views(old(list)@),
                    self.items@,
                ),
            decreases self.items@.len() - i,
        {
            proof {
                assert(self.items@.skip(i as int).first() == self.items@[i as int]);
                assert(self.items@.skip(i as int).drop_first() =~= self.items@.skip(i + 1));
                assert(decreases_to!(*self => self.items));
                assert(decreases_to!(self.items => self.items@));
                assert(decreases_to!(self.items@ => self.items@[i as int]));
                assert(decreases_to!(self.items@[i as int] => self.items@[i as int].1));
            }
            let ghost before = pp_views(list@);
            let item = &self.items[i].1;
            proof {
                assert(*item == self.items@[i as int].1);
            }
            match item {
                ListItem::Page(path) => {
                    if !contains_path(list, path) {
                        list.push(path.duplicate());
                        proof {
                            assert(pp_views(list@) =~~= before.push(path@));
                        }
                    }
                },
                ListItem::List(submenu) => {
                    submenu.add_page_paths(list);
                },
            }
            proof {
                assert(pp_views(list@) == paths_of_item(before, self.items@[i as int].1));
            }
            i += 1;
        }
        proof {
            assert(self.items@.skip(self.items@.len() as int).len() == 0);
        }
    }

    /// The page standing just before `current_page` in the canonical
    /// ordering; nothing at the first page or for a page not in the
    /// site map.
    pub fn previous(&self, current_page: &PagePath) -> (r: Option<PagePath>)
        ensures
            match r {
                Some(p) => prev_of(*self, current_page@) == Some(p@),
                None => prev_of(*self, current_page@) is None,
            },
    {
        let mut page_paths: Vec<PagePath> = Vec::new();
        self.add_page_paths(&mut page_paths);
        let ghost f = flat_paths(*self);
        proof {
            assert(pp_views(Seq::<PagePath>::empty()) =~= Seq::<PagePathView>::empty());
            assert(pp_views(page_paths@) == f);
        }
        let mut i: usize = 0;
        while i < page_paths.len()
            invariant
                0 <= i <= page_paths@.len(),
                pp_views(page_paths@) == f,
                f == flat_paths(*self),
                forall|j: int| 0 <= j < i ==> f[j] != current_page@,
            decreases page_paths@.len() - i,
        {
            if page_paths[i] == *current_page {
                proof {
                    assert(f[i as int] == current_page@);
                    lemma_idx_of_found(f, current_page@, i as int);
                }
                if i > 0 {
                    return Some(page_paths[i - 1].duplicate());
                } else {
                    return None;
                }
            }
            i += 1;
        }
        proof {
            lemma_idx_of_absent(f, current_page@);
        }
        None
    }

    /// The page standing just after `current_page` in the canonical
    /// ordering; nothing at the last page or for a page not in the
    /// site map.
    pub fn next(&self, current_page: &PagePath) -> (r: Option<PagePath>)
        ensures
            match r {
                Some(p) => next_of(*self, current_page@) == Some(p@),
                None => next_of(*self, current_page@) is None,
            },
    {
        let mut page_paths: Vec<PagePath> = Vec::new();
        self.add_page_paths(&mut page_paths);
        let ghost f = flat_paths(*self);
        proof {
            assert(pp_views(Seq::<PagePath>::empty()) =~= Seq::<PagePathView>::empty());
            assert(pp_views(page_paths@) == f);
        }
        let mut i: usize = 0;
        while i < page_paths.len()
            invariant
                0 <= i <= page_paths@.len(),
                pp_views(page_paths@) == f,
                f == flat_paths(*self),
                forall|j: int| 0 <= j < i ==> f[j] != current_page@,
            decreases page_paths@.len() - i,
        {
            if page_paths[i] == *current_page {
                proof {
                    assert(f[i as int] == current_page@);
                    lemma_idx_of_found(f, current_page@, i as int);
                }
                if i + 1 < page_paths.len() {
                    return Some(page_paths[i + 1].duplicate());
                } else {
                    return None;
                }
            }
            i += 1;
        }
        proof {
            lemma_idx_of_absent(f, current_page@);
        }
        None
    }
}

/// Where a page's Markdown source lives under the source directory.
pub open spec fn md_path_of(src: Seq<char>, p: PagePathView) -> Seq<char> {
    crate::page_path::join_under(src, p.dir) + seq!['/'] + p.stem + seq!['.'] + "md"@
}

/// Whether the page set already tracks this path.
pub open spec fn pages_track(pages: Seq<PageView>, p: PagePathView) -> bool {
    exists|i: int| 0 <= i < pages.len() && (#[trigger] pages[i]).page_path == p
}

/// The views of a sequence of pages.
pub open spec fn page_views(s: Seq<Page>) -> Seq<PageView> {
    s.map_values(|p: Page| p@)
}

/// The page set after walking one entry: a leaf not yet tracked is
/// added with its title and source location; one already tracked is
/// left alone.
pub open spec fn pages_of_item(
    acc: Seq<PageView>,
    title: Seq<char>,
    item: ListItem,
    src: Seq<char>,
) -> Seq<PageView>
    decreases item, 0nat,
{
    match item {
        ListItem::Page(p) => if pages_track(acc, p@) {
            acc
        } else {
            acc.push(PageView { title, page_path: p@, md_file_path: md_path_of(src, p@) })
        },
        ListItem::List(l) => pages_of_items(acc, l.items@, src),
    }
}

/// The page set after walking the entries in order.
pub open spec fn pages_of_items(
    acc: Seq<PageView>,
    items: Seq<(String, ListItem)>,
    src: Seq<char>,
) -> Seq<PageView>
    decreases items, 1nat,
{
    if items.len() == 0 {
        acc
    } else {
        pages_of_items(
            pages_of_item(acc, items.first().0@, items.first().1, src),
            items.drop_first(),
            src,
        )
    }
}

/// Whether the page set tracks this path.
pub fn pages_contain_path(pages: &Vec<Page>, p: &PagePath) -> (r: bool)
    ensures
        r == pages_track(page_views(pages@), p@),
{
    let mut i: usize = 0;
    while i < pages.len()
        invariant
            0 <= i <= pages@.len(),
            forall|j: int| 0 <= j < i ==> page_views(pages@)[j].page_path != p@,
        decreases pages@.len() - i,
    {
        if pages[i].page_path == *p {
            proof {
                assert(page_views(pages@)[i as int].page_path == p@);
            }
            return true;
        }
        i += 1;
    }
    proof {
        if pages_track(page_views(pages@), p@) {
            let k = choose|k: int|
                0 <= k < page_views(pages@).len() && page_views(pages@)[k].page_path == p@;
            assert(page_views(pages@)[k].page_path == p@);
        }
    }
    false
}

impl PageList {
    /// Walk the site map depth first and register every page not yet in
    /// the page set, with its Markdown source under `src_path`; the
    /// first reference to a path wins and later ones change nothing.
    #[verifier::loop_isolation(false)]
    pub fn add_pages(&self, pages: &mut Vec<Page>, src_path: &str)
        ensures
            page_views(final(pages)@) == pages_of_items(
                page_views(old(pages)@),
                self.items@,
                src_path@,
            ),
        decreases *self,
    {
        let mut i: usize = 0;
        proof {
            assert(self.items@.skip(0) =~= self.items@);
        }
        while i < self.items.len()
            invariant
                0 <= i <= self.items@.len(),
                pages_of_items(page_views(pages@), self.items@.skip(i as int), src_path@)
                    == pages_of_items(page_views(old(pages)@), self.items@, src_path@),
            decreases self.items@.len() - i,
        {
            proof {
                assert(self.items@.skip(i as int).first() == self.items@[i as int]);
                assert(self.items@.skip(i as int).drop_first() =~= self.items@.skip(i + 1));
                assert(decreases_to!(*self => self.items));
                assert(decreases_to!(self.items => self.items@));
                assert(decreases_to!(self.items@ => self.items@[i as int]));
                assert(decreases_to!(self.items@[i as int] => self.items@[i as int].1));
            }
            let ghost before = page_views(pages@);
            let entry = &self.items[i];
            proof {
                assert(*entry == self.items@[i as int]);
            }
            match &entry.1 {
                ListItem::Page(path) => {
                    if !pages_contain_path(pages, path) {
                        let md_file_path = path.md_path_buf(src_path);
                        let page = Page::new(entry.0.clone(), path.duplicate(), md_file_path);
                        pages.push(page);
                        proof {
                            assert(page_views(pages@) =~~= before.push(
                                PageView {
                                    title: entry.0@,
                                    page_path: path@,
                                    md_file_path: md_path_of(src_path@, path@),
                                },
                            ));
                        }
                    }
                },
                ListItem::List(submenu) => {
                    submenu.add_pages(pages, src_path);
                },
            }
            proof {
                assert(page_views(pages@) == pages_of_item(
                    before,
                    self.items@[i as int].0@,
                    self.items@[i as int].1,
                    src_path@,
                ));
            }
            i += 1;
        }
        proof {
            assert(self.items@.skip(self.items@.len() as int).len() == 0);
        }
    }
}

/// The markup of the hamburger toggle: a checkbox that styles into a
/// menu button on small screens.
pub open spec fn hamburger_html() -> Seq<char> {
    "<input type=checkbox id=nav-toggle class=nav-toggle>\n<label for=nav-toggle class=nav-toggle-label>\u{2630}</label>\n"@
}

/// Class names, each preceded by one space.
pub open spec fn spaced_classes(cs: Seq<Seq<char>>) -> Seq<char>
    decreases cs.len(),
{
    if cs.len() == 0 {
        Seq::empty()
    } else {
        spaced_classes(cs.drop_last()) + seq![' '] + cs.last()
    }
}

/// One menu entry's opening line: the item with its link and its
/// selection state.
pub open spec fn nav_item_li(title: Seq<char>, link: Seq<char>, selected: bool) -> Seq<char> {
    "<li class=\"nav-item "@ + (if selected {
        "selected"@
    } else {
        "not-selected"@
    }) + "\"><a href=\""@ + link + "\">"@ + title + "</a>\n"@
}

/// The markup of one site-map entry as seen from the hosting page: a
/// page links to itself-relative location and is marked selected on its
/// own page; a sub-map links to its first page, or `#` when it has
/// none, and nests its own list.
pub open spec fn entry_html(
    title: Seq<char>,
    item: ListItem,
    host: PagePathView,
) -> Seq<char>
    decreases item, 0nat,
{
    match item {
        ListItem::Page(p) => nav_item_li(
            title,
            crate::page_path::link_of(host, p@),
            p@ == host,
        ) + "</li>\n"@,
        ListItem::List(sub) => {
            let link = match first_path_of_items(sub.items@) {
                Some(t) => crate::page_path::link_of(host, t),
                None => "#"@,
            };
            nav_item_li(title, link, false) + items_list_html(sub.items@, host) + "</li>\n"@
        },
    }
}

/// The markup of the entries, in order.
pub open spec fn entries_html(
    items: Seq<(String, ListItem)>,
    host: PagePathView,
) -> Seq<char>
    decreases items, 1nat,
{
    if items.len() == 0 {
        Seq::empty()
    } else {
        entry_html(items.first().0@, items.first().1, host) + entries_html(
            items.drop_first(),
            host,
        )
    }
}

/// The markup of a whole menu level.
pub open spec fn items_list_html(
    items: Seq<(String, ListItem)>,
    host: PagePathView,
) -> Seq<char>
    decreases items, 2nat,
{
    "<ul class=\"nav-menu\">\n"@ + entries_html(items, host) + "</ul>\n"@
}

/// The whole navigation bar of a page.
pub open spec fn nav_html(
    items: Seq<(String, ListItem)>,
    host: PagePathView,
    classes: Seq<Seq<char>>,
    hamburger: bool,
) -> Seq<char> {
    "<nav class=\"site-nav\n"@ + spaced_classes(classes) + "\">\n"@ + (if hamburger {
        hamburger_html()
    } else {
        Seq::empty()
    }) + items_list_html(items, host) + "</nav>\n"@
}

impl PageList {
    /// Append the markup of this menu level, as seen from the hosting
    /// page.
    #[verifier::loop_isolation(false)]
    fn push_nav_item_html(&self, html: &mut String, hosting_page_path: &PagePath)
        requires
            hosting_page_path.dir@.len() < usize::MAX,
        ensures
            final(html)@ == old(html)@ + items_list_html(self.items@, hosting_page_path@),
        decreases *self,
    {
        proof {
            reveal_strlit("<ul class=\"nav-menu\">\n");
            reveal_strlit("</ul>\n");
            reveal_strlit("</li>\n");
            reveal_strlit("#");
            reveal_strlit("selected");
            reveal_strlit("not-selected");
            reveal_strlit("<li class=\"nav-item ");
            reveal_strlit("\"><a href=\"");
            reveal_strlit("\">");
            reveal_strlit("</a>\n");
        }
        html.append("<ul class=\"nav-menu\">\n");
        let ghost base = html@;
        let mut i: usize = 0;
        proof {
            assert(base =~= old(html)@ + "<ul class=\"nav-menu\">\n"@);
        }
        while i < self.items.len()
            invariant
                0 <= i <= self.items@.len(),
                html@ == base + entries_html(self.items@.take(i as int), hosting_page_path@),
            decreases self.items@.len() - i,
        {
            proof {
                assert(decreases_to!(*self => self.items));
                assert(decreases_to!(self.items => self.items@));
                assert(decreases_to!(self.items@ => self.items@[i as int]));
                assert(decreases_to!(self.items@[i as int] => self.items@[i as int].1));
            }
            let ghost before = html@;
            let entry = &self.items[i];
            proof {
                assert(*entry == self.items@[i as int]);
            }
            let (link, selected) = match &entry.1 {
                ListItem::Page(path) => {
                    (hosting_page_path.link_to(path), path == hosting_page_path)
                },
                ListItem::List(submenu) => {
                    let link = match submenu.first_page_path() {
                        Some(p) => hosting_page_path.link_to(&p),
                        None => String::from_str("#"),
                    };
                    (link, false)
                },
            };
            html.append("<li class=\"nav-item ");
            if selected {
                html.append("selected");
            } else {
                html.append("not-selected");
            }
            html.append("\"><a href=\"");
            html.append(link.as_str());
            html.append("\">");
            html.append(entry.0.as_str());
            html.append("</a>\n");
            proof {
                assert(html@ =~= before + nav_item_li(
                    entry.0@,
                    link@,
                    match entry.1 {
                        ListItem::Page(p) => p@ == hosting_page_path@,
                        ListItem::List(_) => false,
                    },
                ));
            }
            if let ListItem::List(submenu) = &entry.1 {
                submenu.push_nav_item_html(html, hosting_page_path);
            }
            html.append("</li>\n");
            proof {
                assert(html@ =~= before + entry_html(
                    self.items@[i as int].0@,
                    self.items@[i as int].1,
                    hosting_page_path@,
                ));
                lemma_entries_html_take_step(self.items@, hosting_page_path@, i as int);
                assert(html@ =~= base + entries_html(
                    self.items@.take(i + 1),
                    hosting_page_path@,
                ));
            }
            i += 1;
        }
        html.append("</ul>\n");
        proof {
            assert(self.items@.take(self.items@.len() as int) =~= self.items@);
            assert(html@ =~= old(html)@ + items_list_html(self.items@, hosting_page_path@));
        }
    }

    /// Append the whole navigation bar of the hosting page: the menu
    /// with its configured classes and, when asked for, the hamburger
    /// toggle.
    pub fn push_nav(
        &self,
        html: &mut String,
        classes: &Vec<String>,
        menu_insert: &crate::menu::Menu,
        hosting_page_path: &PagePath,
    )
        requires
            hosting_page_path.dir@.len() < usize::MAX,
        ensures
            final(html)@ == old(html)@ + nav_html(
                self.items@,
                hosting_page_path@,
                crate::strutil::views_of(classes@),
                menu_insert.hamburger_checkbox,
            ),
    {
        proof {
            reveal_strlit("<nav class=\"site-nav\n");
            reveal_strlit("\">\n");
            reveal_strlit(" ");
            reveal_strlit("</nav>\n");
            reveal_strlit(
                "<input type=checkbox id=nav-toggle class=nav-toggle>\n<label for=nav-toggle class=nav-toggle-label>\u{2630}</label>\n",
            );
        }
        html.append("<nav class=\"site-nav\n");
        let ghost base = html@;
        let mut i: usize = 0;
        proof {
            assert(crate::strutil::views_of(classes@).take(0)
                =~= Seq::<Seq<char>>::empty());
            assert(html@ =~= base + spaced_classes(
                crate::strutil::views_of(classes@).take(0),
            ));
        }
        while i < classes.len()
            invariant
                0 <= i <= classes@.len(),
                html@ == base + spaced_classes(
                    crate::strutil::views_of(classes@).take(i as int),
                ),
            decreases classes@.len() - i,
        {
            html.append(" ");
            html.append(classes[i].as_str());
            proof {
                reveal_strlit(" ");
                assert(" "@ =~= seq![' ']);
                assert(crate::strutil::views_of(classes@).take(i + 1).drop_last()
                    =~= crate::strutil::views_of(classes@).take(i as int));
                assert(crate::strutil::views_of(classes@).take(i + 1).last() == classes@[i as int]@);
                assert(html@ =~= base + spaced_classes(
                    crate::strutil::views_of(classes@).take(i + 1),
                ));
            }
            i += 1;
        }
        proof {
            assert(crate::strutil::views_of(classes@).take(classes@.len() as int)
                =~= crate::strutil::views_of(classes@));
        }
        html.append("\">\n");
        if menu_insert.hamburger_checkbox {
            html.append(
                "<input type=checkbox id=nav-toggle class=nav-toggle>\n<label for=nav-toggle class=nav-toggle-label>\u{2630}</label>\n",
            );
        }
        self.push_nav_item_html(html, hosting_page_path);
        html.append("</nav>\n");
        proof {
            assert(html@ =~= old(html)@ + nav_html(
                self.items@,
                hosting_page_path@,
                crate::strutil::views_of(classes@),
                menu_insert.hamburger_checkbox,
            ));
        }
    }
}

/// Extending the rendered entries by one renders the next entry after
/// the ones before it.
proof fn lemma_entries_html_take_step(
    items: Seq<(String, ListItem)>,
    host: PagePathView,
    i: int,
)
    requires
        0 <= i < items.len(),
    ensures
        entries_html(items.take(i + 1), host) == entries_html(items.take(i), host) + entry_html(
            items[i].0@,
            items[i].1,
            host,
        ),
    decreases i,
{
    if i == 0 {
        assert(items.take(1).first() == items[0]);
        assert(items.take(1).drop_first() =~= items.take(0));
        assert(entries_html(items.take(0), host) =~= Seq::<char>::empty());
        assert(entries_html(items.take(1), host) =~= entry_html(items[0].0@, items[0].1, host));
    } else {
        assert(items.take(i + 1).first() == items[0]);
        assert(items.take(i).first() == items[0]);
        assert(items.take(i + 1).drop_first() =~= items.drop_first().take(i));
        assert(items.take(i).drop_first() =~= items.drop_first().take(i - 1));
        lemma_entries_html_take_step(items.drop_first(), host, i - 1);
        assert(items.drop_first()[i - 1] == items[i]);
        assert(entries_html(items.take(i + 1), host) =~= entries_html(items.take(i), host)
            + entry_html(items[i].0@, items[i].1, host));
    }
}

/// When the first occurrence of `x` is at `i`, that is its index.
proof fn lemma_idx_of_found(s: Seq<PagePathView>, x: PagePathView, i: int)
    requires
        0 <= i < s.len(),
        s[i] == x,
        forall|j: int| 0 <= j < i ==> s[j] != x,
    ensures
        idx_of(s, x) == i,
    decreases i,
{
    if i == 0 {
    } else {
        assert(s.first() != x);
        lemma_idx_of_found(s.drop_first(), x, i - 1);
    }
}

/// A value that occurs nowhere has no index.
proof fn lemma_idx_of_absent(s: Seq<PagePathView>, x: PagePathView)
    requires
        forall|j: int| 0 <= j < s.len() ==> s[j] != x,
    ensures
        idx_of(s, x) == -1,
    decreases s.len(),
{
    if s.len() > 0 {
        lemma_idx_of_absent(s.drop_first(), x);
    }
}

/// Where `idx_of` finds an index, the value stands there.
proof fn lemma_idx_of_props(s: Seq<PagePathView>, x: PagePathView)
    ensures
        idx_of(s, x) == -1 || (0 <= idx_of(s, x) < s.len() && s[idx_of(s, x)] == x),
    decreases s.len(),
{
    if s.len() > 0 && s.first() != x {
        lemma_idx_of_props(s.drop_first(), x);
    }
}

/// No value occurs twice.
pub open spec fn no_dup(s: Seq<PagePathView>) -> bool {
    forall|i: int, j: int| 0 <= i < j < s.len() ==> s[i] != s[j]
}

/// Walking one entry keeps the accumulated paths free of repetitions,
/// and only appends.
proof fn lemma_paths_of_item_nodup(acc: Seq<PagePathView>, item: ListItem)
    requires
        no_dup(acc),
    ensures
        no_dup(paths_of_item(acc, item)),
        acc.is_prefix_of(paths_of_item(acc, item)),
    decreases item, 0nat,
{
    match item {
        ListItem::Page(p) => {
            if !acc.contains(p@) {
                let r = acc.push(p@);
                assert forall|i: int, j: int| 0 <= i < j < r.len() implies r[i] != r[j] by {
                    if j == r.len() - 1 {
                        assert(r[i] == acc[i]);
                        if acc[i] == p@ {
                            assert(acc.contains(p@));
                        }
                    }
                }
                assert(acc.is_prefix_of(r));
            }
        },
        ListItem::List(l) => {
            lemma_paths_of_items_nodup(acc, l.items@);
        },
    }
}

/// Walking an entry sequence keeps the accumulated paths free of
/// repetitions, and only appends.
proof fn lemma_paths_of_items_nodup(acc: Seq<PagePathView>, items: Seq<(String, ListItem)>)
    requires
        no_dup(acc),
    ensures
        no_dup(paths_of_items(acc, items)),
        acc.is_prefix_of(paths_of_items(acc, items)),
    decreases items, 1nat,
{
    if items.len() > 0 {
        lemma_paths_of_item_nodup(acc, items.first().1);
        lemma_paths_of_items_nodup(paths_of_item(acc, items.first().1), items.drop_first());
        assert(acc.is_prefix_of(paths_of_items(acc, items)));
    }
}

/// In a repetition-free sequence, the index found for the value at `i`
/// is `i` itself.
proof fn lemma_idx_of_self(s: Seq<PagePathView>, i: int)
    requires
        no_dup(s),
        0 <= i < s.len(),
    ensures
        idx_of(s, s[i]) == i,
{
    lemma_idx_of_found(s, s[i], i);
}

/// The canonical ordering never repeats a page, so walking it forward
/// and backward agree: whenever `b` follows `a`, `a` precedes `b`.
pub proof fn lemma_prev_next_antisymmetric(l: PageList, a: PagePathView, b: PagePathView)
    requires
        next_of(l, a) == Some(b),
    ensures
        prev_of(l, b) == Some(a),
{
    let f = flat_paths(l);
    assert(no_dup(Seq::<PagePathView>::empty()));
    lemma_paths_of_items_nodup(Seq::empty(), l.items@);
    lemma_idx_of_props(f, a);
    let i = idx_of(f, a);
    assert(0 <= i && i + 1 < f.len() && b == f[i + 1]);
    lemma_idx_of_self(f, i + 1);
    assert(idx_of(f, b) == i + 1);
    assert(f[i] == a);
}

} // verus!
