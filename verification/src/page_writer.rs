use vstd::prelude::*;
use vstd::string::StrSliceExecFns;
use vstd::string::StringExecFns;
use crate::markdown::{dec_str, md_tokens_of, slug_of, MdToken, MdTokenView};
use crate::page::Page;
use crate::page_path::{PagePath, PagePathView};
use crate::project::{
    broken_img_warning, count_leading_ups, img_rest, is_img_src, link_warnings_spec,
    rewrite_link_spec, src_file_listed, stripped_img, Project,
};
use crate::strutil::views_of;

verus! {

/// One rewrite to apply to the parsed Markdown events before they are
/// rendered.
#[derive(Debug)]
pub enum MdEdit {
    /// Replace the source URL of the image starting at this event.
    Image { idx: usize, url: String },
    /// Replace the target URL of the link starting at this event.
    Link { idx: usize, url: String },
    /// Give the heading starting at this event this identifier.
    HeadingId { idx: usize, id: String },
}

/// Spec-level shape of a Markdown edit.
pub enum MdEditView {
    Image { idx: int, url: Seq<char> },
    Link { idx: int, url: Seq<char> },
    HeadingId { idx: int, id: Seq<char> },
}

impl View for MdEdit {
    type V = MdEditView;

    open spec fn view(&self) -> MdEditView {
        match self {
            MdEdit::Image { idx, url } => MdEditView::Image { idx: *idx as int, url: url@ },
            MdEdit::Link { idx, url } => MdEditView::Link { idx: *idx as int, url: url@ },
            MdEdit::HeadingId { idx, id } => MdEditView::HeadingId { idx: *idx as int, id: id@ },
        }
    }
}

impl DeepView for MdEdit {
    type V = MdEditView;

    open spec fn deep_view(&self) -> MdEditView {
        self.view()
    }
}

/// Everything one pass over the Markdown tokens produces: the edits to
/// apply, the accumulated table-of-contents fragment, and the warnings.
pub struct MdPassView {
    pub edits: Seq<MdEditView>,
    pub toc: Seq<char>,
    pub warns: Seq<Seq<char>>,
}

/// A heading text extended by one more piece: pieces after the first
/// are separated by one space.
pub open spec fn text_app(acc: Seq<char>, piece: Seq<char>) -> Seq<char> {
    if acc.len() > 0 {
        acc + seq![' '] + piece
    } else {
        piece
    }
}

/// The flattened text of a heading: its code and text runs, up to the
/// heading's end, separated by spaces.
pub open spec fn heading_text_acc(acc: Seq<char>, toks: Seq<MdTokenView>, j: int) -> Seq<char>
    decreases toks.len() - j,
{
    if j < 0 || j >= toks.len() || toks[j] is HeadingEnd {
        acc
    } else {
        match toks[j] {
            MdTokenView::Code(c) => heading_text_acc(text_app(acc, c), toks, j + 1),
            MdTokenView::Text(t) => heading_text_acc(text_app(acc, t), toks, j + 1),
            _ => heading_text_acc(acc, toks, j + 1),
        }
    }
}

pub open spec fn heading_text_of(toks: Seq<MdTokenView>, i: int) -> Seq<char> {
    heading_text_acc(Seq::empty(), toks, i + 1)
}

/// How many times the value occurs.
pub open spec fn count_eq(used: Seq<Seq<char>>, x: Seq<char>) -> nat
    decreases used.len(),
{
    if used.len() == 0 {
        0
    } else {
        count_eq(used.drop_last(), x) + if used.last() == x {
            1nat
        } else {
            0nat
        }
    }
}

/// The identifier a heading gets: its slug, disambiguated against the
/// slugs already given out by appending `-2`, `-3`, … in order of
/// first occurrence.
pub open spec fn heading_id_of(used: Seq<Seq<char>>, text: Seq<char>) -> Seq<char> {
    let slug = slug_of(text);
    let n = count_eq(used, slug);
    if n == 0 {
        slug
    } else {
        slug + seq!['-'] + dec_str(n + 1)
    }
}

/// One entry of the table of contents.
pub open spec fn toc_line(level: u8, id: Seq<char>, text: Seq<char>) -> Seq<char> {
    "<li class=\"toc-item h"@ + dec_str(level as nat) + "\"><a href=#"@ + id + ">"@ + text
        + "</a></li>\n"@
}

/// The edits the resolver asks for on an image URL.
pub open spec fn img_edits_at(
    proj: Project,
    page: PagePathView,
    i: int,
    url: Seq<char>,
) -> Seq<MdEditView> {
    if is_img_src(url) && !(crate::page_path::depth_of(page) == 0 && count_leading_ups(url)
        == 0) {
        seq![
            MdEditView::Image {
                idx: i,
                url: crate::page_path::ascent(crate::page_path::depth_of(page)) + img_rest(url),
            },
        ]
    } else {
        Seq::empty()
    }
}

/// The warnings checking an image URL emits.
pub open spec fn img_warns(proj: Project, page: PagePathView, url: Seq<char>) -> Seq<Seq<char>> {
    if is_img_src(url) && !src_file_listed(
        proj.src_files@,
        stripped_img(url, crate::page_path::depth_of(page)),
    ) {
        seq![broken_img_warning(page, stripped_img(url, crate::page_path::depth_of(page)))]
    } else {
        Seq::empty()
    }
}

/// The whole pass over the Markdown tokens from position `i` on, with
/// `used` the slugs already given out: image and link URLs are
/// rewritten through the resolver, and every heading without an
/// authored identifier receives one and a table-of-contents entry.
pub open spec fn md_pass(
    proj: Project,
    page: PagePathView,
    toks: Seq<MdTokenView>,
    i: int,
    used: Seq<Seq<char>>,
) -> MdPassView
    decreases toks.len() - i,
{
    if i < 0 || i >= toks.len() {
        MdPassView { edits: Seq::empty(), toc: Seq::empty(), warns: Seq::empty() }
    } else {
        match toks[i] {
            MdTokenView::Image { url } => {
                let rest = md_pass(proj, page, toks, i + 1, used);
                MdPassView {
                    edits: img_edits_at(proj, page, i, url) + rest.edits,
                    toc: rest.toc,
                    warns: img_warns(proj, page, url) + rest.warns,
                }
            },
            MdTokenView::Link { url } => {
                let rest = md_pass(proj, page, toks, i + 1, used);
                let edits: Seq<MdEditView> = match rewrite_link_spec(proj, url, page) {
                    Some(u) => seq![MdEditView::Link { idx: i, url: u }],
                    None => Seq::empty(),
                };
                MdPassView {
                    edits: edits + rest.edits,
                    toc: rest.toc,
                    warns: link_warnings_spec(proj, url, page) + rest.warns,
                }
            },
            MdTokenView::Heading { level, has_id } => {
                if has_id {
                    md_pass(proj, page, toks, i + 1, used)
                } else {
                    let text = heading_text_of(toks, i);
                    let id = heading_id_of(used, text);
                    let rest = md_pass(proj, page, toks, i + 1, used.push(slug_of(text)));
                    MdPassView {
                        edits: seq![MdEditView::HeadingId { idx: i, id }] + rest.edits,
                        toc: toc_line(level, id, text) + rest.toc,
                        warns: rest.warns,
                    }
                }
            },
            _ => md_pass(proj, page, toks, i + 1, used),
        }
    }
}

pub open spec fn md_pass_of(proj: Project, page: PagePathView, toks: Seq<MdTokenView>) -> MdPassView {
    md_pass(proj, page, toks, 0, Seq::empty())
}

/// Count how many strings of the list equal this one.
fn count_used(used: &Vec<String>, x: &str) -> (r: usize)
    ensures
        r == count_eq(views_of(used@), x@),
        r <= used@.len(),
{
    let mut n: usize = 0;
    let mut k: usize = 0;
    while k < used.len()
        invariant
            0 <= k <= used@.len(),
            n <= k,
            n == count_eq(views_of(used@).take(k as int), x@),
        decreases used@.len() - k,
    {
        proof {
            assert(views_of(used@).take(k + 1).drop_last() =~= views_of(used@).take(k as int));
            assert(views_of(used@).take(k + 1).last() == used@[k as int]@);
        }
        if crate::strutil::str_eq_string(&used[k], x) {
            n += 1;
        }
        k += 1;
    }
    proof {
        assert(views_of(used@).take(used@.len() as int) =~= views_of(used@));
    }
    n
}

/// One pass over the Markdown tokens of a page: rewrite every image and
/// link URL through the resolver, give every heading without an
/// authored identifier a slug-derived one (disambiguating duplicates),
/// and accumulate the table-of-contents fragment. The edits come back
/// with the fragment; broken references earn warnings.
#[verifier::loop_isolation(false)]
#[verifier::rlimit(80)]
pub fn compute_md_edits(
    project: &Project,
    page_path: &PagePath,
    tokens: &Vec<MdToken>,
    warnings: &mut Vec<String>,
) -> (r: (Vec<MdEdit>, String))
    requires
        page_path.dir@.len() < usize::MAX,
    ensures
        ({
            let pass = md_pass_of(*project, page_path@, tokens.deep_view());
            &&& r.0.deep_view() == pass.edits
            &&& r.1@ == pass.toc
            &&& views_of(final(warnings)@) == views_of(old(warnings)@) + pass.warns
        }),
{
    let ghost toks = tokens.deep_view();
    let ghost full = md_pass(*project, page_path@, toks, 0, Seq::<Seq<char>>::empty());
    let ghost w0 = views_of(warnings@);
    let mut edits: Vec<MdEdit> = Vec::new();
    let mut toc = String::new();
    let mut used: Vec<String> = Vec::new();
    let mut i: usize = 0;
    proof {
        assert(views_of(used@) =~= Seq::<Seq<char>>::empty());
        assert(edits.deep_view() =~= Seq::<MdEditView>::empty());
        assert(views_of(warnings@).skip(w0.len() as int) =~= Seq::<Seq<char>>::empty());
        assert(views_of(warnings@).take(w0.len() as int) =~= w0);
    }
    while i < tokens.len()
        invariant
            0 <= i <= tokens@.len(),
            used@.len() <= i,
            full.edits == edits.deep_view() + md_pass(
                *project,
                page_path@,
                toks,
                i as int,
                views_of(used@),
            ).edits,
            full.toc == toc@ + md_pass(*project, page_path@, toks, i as int, views_of(used@)).toc,
            w0.len() <= views_of(warnings@).len(),
            views_of(warnings@).take(w0.len() as int) == w0,
            full.warns == views_of(warnings@).skip(w0.len() as int) + md_pass(
                *project,
                page_path@,
                toks,
                i as int,
                views_of(used@),
            ).warns,
        decreases tokens@.len() - i,
    {
        proof {
            assert(toks[i as int] == tokens@[i as int]@);
        }
        let ghost rest = md_pass(*project, page_path@, toks, i as int, views_of(used@));
        let ghost edits0 = edits.deep_view();
        let ghost toc0 = toc@;
        let ghost warns0 = views_of(warnings@);
        match &tokens[i] {
            MdToken::Image { url } => {
                let ghost wbefore = views_of(warnings@);
                if let Some(new_url) = project.maybe_rewrite_img_url(
                    url.as_str(),
                    page_path,
                    warnings,
                ) {
                    edits.push(MdEdit::Image { idx: i, url: new_url });
                }
                proof {
                    assert(edits.deep_view() =~~= edits0 + img_edits_at(
                        *project,
                        page_path@,
                        i as int,
                        url@,
                    ));
                    assert(views_of(warnings@) =~~= warns0 + img_warns(
                        *project,
                        page_path@,
                        url@,
                    ));
                }
            },
            MdToken::Link { url } => {
                if let Some(new_url) = project.maybe_rewrite_link_url(
                    url.as_str(),
                    page_path,
                    warnings,
                ) {
                    edits.push(MdEdit::Link { idx: i, url: new_url });
                }
                proof {
                    assert(edits.deep_view() =~~= edits0 + (match rewrite_link_spec(
                        *project,
                        url@,
                        page_path@,
                    ) {
                        Some(u) => seq![MdEditView::Link { idx: i as int, url: u }],
                        None => Seq::<MdEditView>::empty(),
                    }));
                    assert(views_of(warnings@) =~~= warns0 + link_warnings_spec(
                        *project,
                        url@,
                        page_path@,
                    ));
                }
            },
            MdToken::Heading { level, has_id } => {
                if !*has_id {
                    let mut text = String::new();
                    let mut j: usize = i + 1;
                    while j < tokens.len() && !matches!(&tokens[j], MdToken::HeadingEnd)
                        invariant
                            i + 1 <= j <= tokens@.len(),
                            heading_text_acc(text@, toks, j as int) == heading_text_of(
                                toks,
                                i as int,
                            ),
                        decreases tokens@.len() - j,
                    {
                        proof {
                            assert(toks[j as int] == tokens@[j as int]@);
                        }
                        let ghost text0 = text@;
                        match &tokens[j] {
                            MdToken::Code(c) => {
                                if !text.as_str().is_empty() {
                                    text.push(' ');
                                }
                                text.append(c.as_str());
                                proof {
                                    assert(text@ =~= text_app(text0, c@));
                                }
                            },
                            MdToken::Text(t) => {
                                if !text.as_str().is_empty() {
                                    text.push(' ');
                                }
                                text.append(t.as_str());
                                proof {
                                    assert(text@ =~= text_app(text0, t@));
                                }
                            },
                            _ => {},
                        }
                        j += 1;
                    }
                    proof {
                        assert(text@ == heading_text_of(toks, i as int));
                    }
                    let ghost used0 = used@;
                    let slug = crate::markdown::slugify(text.as_str());
                    let n = count_used(&used, slug.as_str());
                    let id = if n == 0 {
                        slug.clone()
                    } else {
                        let mut id = slug.clone();
                        id.push('-');
                        id.append(crate::markdown::usize_to_string(n + 1).as_str());
                        id
                    };
                    proof {
                        assert(id@ =~= heading_id_of(views_of(used@), text@));
                    }
                    // the table-of-contents entry for this heading
                    let mut line = String::from_str("<li class=\"toc-item h");
                    line.append(crate::markdown::u64_to_string(*level as u64).as_str());
                    line.append("\"><a href=#");
                    line.append(id.as_str());
                    line.append(">");
                    line.append(text.as_str());
                    line.append("</a></li>\n");
                    proof {
                        reveal_strlit("<li class=\"toc-item h");
                        reveal_strlit("\"><a href=#");
                        reveal_strlit(">");
                        reveal_strlit("</a></li>\n");
                        assert(line@ =~= toc_line(*level, id@, text@));
                    }
                    toc.append(line.as_str());
                    edits.push(MdEdit::HeadingId { idx: i, id });
                    used.push(slug);
                    proof {
                        assert(views_of(used@) =~~= views_of(used0).push(slug_of(text@)));
                        assert(edits.deep_view() =~~= edits0 + seq![
                            MdEditView::HeadingId {
                                idx: i as int,
                                id: heading_id_of(views_of(used0), text@),
                            },
                        ]);
                        assert(toc@ =~= toc0 + toc_line(*level, heading_id_of(views_of(used0), text@), text@));
                    }
                }
            },
            _ => {},
        }
        proof {
            assert(toks[i as int] == tokens@[i as int]@);
        }
        i += 1;
    }
    proof {
        assert(md_pass(*project, page_path@, toks, tokens@.len() as int, views_of(used@)).edits
            =~= Seq::<MdEditView>::empty());
        assert(md_pass(*project, page_path@, toks, tokens@.len() as int, views_of(used@)).toc
            =~= Seq::<char>::empty());
        assert(md_pass(*project, page_path@, toks, tokens@.len() as int, views_of(used@)).warns
            =~= Seq::<Seq<char>>::empty());
        assert(full.edits =~= edits.deep_view());
        assert(full.toc =~= toc@);
        assert(full.warns =~= views_of(warnings@).skip(w0.len() as int));
        assert(views_of(warnings@) =~= w0 + full.warns);
    }
    (edits, toc)
}

/// The URL an image reference renders as on a page: re-rooted under the
/// page's ascent when it points into the source tree, untouched
/// otherwise.
pub open spec fn img_url_of(page: PagePathView, src: Seq<char>) -> Seq<char> {
    if is_img_src(src) && !(crate::page_path::depth_of(page) == 0 && count_leading_ups(src)
        == 0) {
        crate::page_path::ascent(crate::page_path::depth_of(page)) + img_rest(src)
    } else {
        src
    }
}


/// The full title a page shows: its own title, then the site's.
pub open spec fn full_title_of(proj: Project, pg: Page) -> Seq<char> {
    pg.title@ + " - "@ + proj.config.title@
}

/// The head line linking one script file, with its cache-busting
/// timestamp.
pub open spec fn js_line(depth: nat, e: crate::statics::StaticEntry) -> Seq<char> {
    "<script src=\""@ + crate::page_path::ascent(depth) + "js/"@ + e.filename@ + "?m="@
        + dec_str(e.mtime as nat) + "\"></script>\n"@
}

/// The head lines linking the script files, in order.
pub open spec fn js_lines(depth: nat, es: Seq<crate::statics::StaticEntry>) -> Seq<char>
    decreases es.len(),
{
    if es.len() == 0 {
        Seq::empty()
    } else {
        js_lines(depth, es.drop_last()) + js_line(depth, es.last())
    }
}

/// The head line linking one style file, with its cache-busting
/// timestamp.
pub open spec fn css_line(depth: nat, e: crate::statics::StaticEntry) -> Seq<char> {
    "<link href=\""@ + crate::page_path::ascent(depth) + "css/"@ + e.filename@ + "?m="@
        + dec_str(e.mtime as nat) + "\" rel=stylesheet>\n"@
}

/// The head lines linking the style files, in order.
pub open spec fn css_lines(depth: nat, es: Seq<crate::statics::StaticEntry>) -> Seq<char>
    decreases es.len(),
{
    if es.len() == 0 {
        Seq::empty()
    } else {
        css_lines(depth, es.drop_last()) + css_line(depth, es.last())
    }
}

/// The whole `<head>` of a page: the fixed prelude, the title and
/// description metadata, the favicon, the discovered script and style
/// files with cache-busting timestamps, and the search script when some
/// body element links to the search opener.
pub open spec fn head_meta(proj: Project, pg: Page) -> Seq<char> {
    let full_title = full_title_of(proj, pg);
    crate::html::HTML_START@ + "<title>"@ + crate::html::escaped_text(full_title)
        + "</title>\n"@ + "<meta name=\"og-title\" content=\""@ + crate::html::escaped_attr(
        full_title,
    ) + "\">\n"@ + (match crate::config::nonempty_opt(proj.config.description) {
        Some(d) => "<meta name=\"description\" content=\""@ + crate::html::escaped_attr(d)
            + "\">\n"@ + "<meta name=\"og-description\" content=\""@
            + crate::html::escaped_attr(d) + "\">\n"@,
        None => Seq::empty(),
    }) + (match crate::config::nonempty_opt(proj.config.favicon) {
        Some(u) => "<link rel=\"shortcut icon\" href=\""@ + img_url_of(pg.page_path@, u)
            + "\">\n"@,
        None => Seq::empty(),
    })
}

/// The asset part of a page's head.
pub open spec fn head_assets(proj: Project, pg: Page) -> Seq<char> {
    let depth = crate::page_path::depth_of(pg.page_path@);
    js_lines(depth, proj.js_entries@) + (if crate::composite_element::composite_has_href(
        proj.config.body,
        "--search"@,
    ) {
        "<script src=\""@ + crate::page_path::ascent(depth) + "js/ddoc-search.js\" defer></script>\n"@
    } else {
        Seq::empty()
    }) + css_lines(depth, proj.css_entries@)
}

/// The whole `<head>` of a page.
pub open spec fn head_html(proj: Project, pg: Page) -> Seq<char> {
    head_meta(proj, pg) + head_assets(proj, pg) + "</head>\n"@
}

/// The warnings rendering a page's head emits: a broken favicon image
/// earns one.
pub open spec fn head_warns(proj: Project, pg: Page) -> Seq<Seq<char>> {
    match crate::config::nonempty_opt(proj.config.favicon) {
        Some(u) => img_warns(proj, pg.page_path@, u),
        None => Seq::empty(),
    }
}

/// The whole markup of a page: its head, then the body elements of the
/// configured layout inside a `<body>` marked with the page's stem.
pub open spec fn page_html(proj: Project, pg: Page, toc: Seq<char>, main: Seq<char>) -> Seq<
    char,
> {
    head_html(proj, pg) + "<body class=\"page-"@ + pg.page_path.stem@ + "\">\n\n"@
        + children_html(proj, pg, proj.config.body.children@, toc, main) + "</html>\n"@
}

/// The title of the page tracked under this path; nothing for a path
/// outside the page set.
pub open spec fn title_of_path(
    pages: Seq<crate::page::PageView>,
    p: PagePathView,
) -> Seq<char>
    decreases pages.len(),
{
    if pages.len() == 0 {
        Seq::empty()
    } else if pages.first().page_path == p {
        pages.first().title
    } else {
        title_of_path(pages.drop_first(), p)
    }
}

/// The text a link label resolves to on a page: a literal stays, the
/// placeholders name the current page or its neighbours in the site
/// map; a missing neighbour resolves to nothing.
pub open spec fn resolved_text(proj: Project, pg: Page, t: crate::nav_link::TextView) -> Seq<
    char,
> {
    match t {
        crate::nav_link::TextView::Literal(s) => s,
        crate::nav_link::TextView::CurrentPageTitle => pg.title@,
        crate::nav_link::TextView::PreviousPageTitle => match crate::page_list::prev_of(
            proj.config.site_map,
            pg.page_path@,
        ) {
            Some(t) => title_of_path(crate::page_list::page_views(proj.pages@), t),
            None => Seq::empty(),
        },
        crate::nav_link::TextView::NextPageTitle => match crate::page_list::next_of(
            proj.config.site_map,
            pg.page_path@,
        ) {
            Some(t) => title_of_path(crate::page_list::page_views(proj.pages@), t),
            None => Seq::empty(),
        },
    }
}

/// The inline-embedded content a path names: the stored file content
/// with anything before its `<svg` opening stripped; nothing for an
/// unknown path.
pub open spec fn inline_content_of(
    files: Seq<(String, String)>,
    src: Seq<char>,
) -> Seq<char>
    decreases files.len(),
{
    if files.len() == 0 {
        Seq::empty()
    } else if files.first().0@ == src {
        let c = files.first().1@;
        let k = crate::strutil::first_sub_idx(c, "<svg"@);
        if k >= 0 {
            c.skip(k)
        } else {
            c
        }
    } else {
        inline_content_of(files.drop_first(), src)
    }
}

/// The markup of one piece of a navigation link's content.
pub open spec fn part_html(
    proj: Project,
    pg: Page,
    part: crate::nav_link::NavLinkPartView,
) -> Seq<char> {
    match part {
        crate::nav_link::NavLinkPartView::Img { src, alt } => "<img src=\""@ + img_url_of(
            pg.page_path@,
            src,
        ) + "\""@ + (match alt {
            Some(a) => " alt=\""@ + crate::html::escaped_attr(a) + "\" title=\""@
                + crate::html::escaped_attr(a) + "\""@,
            None => Seq::empty(),
        }) + ">"@,
        crate::nav_link::NavLinkPartView::InlineImg { src } => inline_content_of(
            proj.inline_files@,
            src,
        ),
        crate::nav_link::NavLinkPartView::Label(t) => "<span>"@ + crate::html::escaped_text(
            resolved_text(proj, pg, t),
        ) + "</span>"@,
    }
}

/// The markup of a navigation link's content pieces, in order.
pub open spec fn parts_html(
    proj: Project,
    pg: Page,
    parts: Seq<crate::nav_link::NavLinkPartView>,
) -> Seq<char>
    decreases parts.len(),
{
    if parts.len() == 0 {
        Seq::empty()
    } else {
        parts_html(proj, pg, parts.drop_last()) + part_html(proj, pg, parts.last())
    }
}

/// The warnings rendering a navigation link's content emits: a broken
/// image earns one.
pub open spec fn parts_warns(
    proj: Project,
    pg: Page,
    parts: Seq<crate::nav_link::NavLinkPartView>,
) -> Seq<Seq<char>>
    decreases parts.len(),
{
    if parts.len() == 0 {
        Seq::empty()
    } else {
        parts_warns(proj, pg, parts.drop_last()) + (match parts.last() {
            crate::nav_link::NavLinkPartView::Img { src, alt } => img_warns(
                proj,
                pg.page_path@,
                src,
            ),
            _ => Seq::empty(),
        })
    }
}

/// The class attribute of a navigation link: its own deprecated class,
/// the element's class names, and the `unexpanded` mark for a special
/// token that found no target.
pub open spec fn nav_link_class_attr(
    link_class: Option<Seq<char>>,
    classes: Seq<Seq<char>>,
    unexpanded: bool,
) -> Seq<char> {
    " class=\"nav-link "@ + (match link_class {
        Some(c) => c,
        None => Seq::empty(),
    }) + crate::page_list::spaced_classes(classes) + (if unexpanded {
        " unexpanded"@
    } else {
        Seq::empty()
    }) + "\""@
}

/// The resolved target of a navigation link, and whether it counts as
/// unexpanded: a resolved URL still carrying the `--` prefix found no
/// target.
pub open spec fn nav_href_resolved(proj: Project, pg: Page, href: Seq<char>) -> Seq<char> {
    match rewrite_link_spec(proj, href, pg.page_path@) {
        Some(u) => u,
        None => href,
    }
}

/// The whole markup of one navigation link.
pub open spec fn nav_link_html(
    proj: Project,
    pg: Page,
    classes: Seq<Seq<char>>,
    link: crate::nav_link::NavLinkView,
) -> Seq<char> {
    let href_part: Seq<char> = match link.href {
        Some(h) => {
            let url = nav_href_resolved(proj, pg, h);
            if "--"@.is_prefix_of(url) {
                Seq::empty()
            } else {
                " href=\""@ + url + "\""@
            }
        },
        None => Seq::empty(),
    };
    let unexpanded: bool = match link.href {
        Some(h) => "--"@.is_prefix_of(nav_href_resolved(proj, pg, h)),
        None => false,
    };
    let target_part: Seq<char> = match link.target {
        Some(t) => " target=\""@ + t + "\""@,
        None => Seq::empty(),
    };
    "<a"@ + href_part + nav_link_class_attr(link.class, classes, unexpanded) + target_part
        + ">"@ + parts_html(proj, pg, link.content) + "</a>\n"@
}

/// The warnings rendering one navigation link emits.
pub open spec fn nav_link_warns(
    proj: Project,
    pg: Page,
    link: crate::nav_link::NavLinkView,
) -> Seq<Seq<char>> {
    (match link.href {
        Some(h) => link_warnings_spec(proj, h, pg.page_path@),
        None => Seq::empty(),
    }) + parts_warns(proj, pg, link.content)
}

/// Class names separated by single spaces, no space at either end.
pub open spec fn join_space(cs: Seq<Seq<char>>) -> Seq<char>
    decreases cs.len(),
{
    if cs.len() == 0 {
        Seq::empty()
    } else {
        join_space(cs.drop_last()) + (if cs.len() > 1 {
            seq![' ']
        } else {
            Seq::empty()
        }) + cs.last()
    }
}

/// The markup of one body-layout element on a page, with the page's
/// table-of-contents fragment and rendered Markdown standing in for the
/// generated parts.
pub open spec fn element_html(
    proj: Project,
    pg: Page,
    e: crate::element::Element,
    toc: Seq<char>,
    main: Seq<char>,
) -> Seq<char>
    decreases e, 0nat,
{
    match e.content {
        crate::element::ElementContent::Html { tag, children } => "<"@ + tag@ + "\n"@ + (if e.classes@.len() > 0 {
            " class=\""@ + join_space(views_of(e.classes@)) + "\""@
        } else {
            Seq::empty()
        }) + ">"@ + children_html(proj, pg, children@, toc, main) + "</"@ + tag@ + ">\n"@,
        crate::element::ElementContent::Link(l) => nav_link_html(
            proj,
            pg,
            views_of(e.classes@),
            l@,
        ),
        crate::element::ElementContent::Menu(m) => crate::page_list::nav_html(
            proj.config.site_map.items@,
            pg.page_path@,
            views_of(e.classes@),
            m.hamburger_checkbox,
        ),
        crate::element::ElementContent::Toc(_) => "<nav class=page-toc>\n<a class=toc-title href=\"#top\">"@
            + crate::html::escaped_text(pg.title@) + "</a>\n"@ + (if toc.len() > 0 {
            "<ul class=toc-content>"@ + toc + "</ul>"@
        } else {
            Seq::empty()
        }) + "</nav>\n"@,
        crate::element::ElementContent::Main => "<main>\n"@ + main + "\n</main>\n"@,
    }
}

/// The markup of a list of elements, in order.
pub open spec fn children_html(
    proj: Project,
    pg: Page,
    children: Seq<crate::element::Element>,
    toc: Seq<char>,
    main: Seq<char>,
) -> Seq<char>
    decreases children, 1nat,
{
    if children.len() == 0 {
        Seq::empty()
    } else {
        children_html(proj, pg, children.drop_last(), toc, main) + element_html(
            proj,
            pg,
            children.last(),
            toc,
            main,
        )
    }
}

/// The warnings rendering one element emits.
pub open spec fn element_warns(
    proj: Project,
    pg: Page,
    e: crate::element::Element,
) -> Seq<Seq<char>>
    decreases e, 0nat,
{
    match e.content {
        crate::element::ElementContent::Html { tag, children } => children_warns(
            proj,
            pg,
            children@,
        ),
        crate::element::ElementContent::Link(l) => nav_link_warns(proj, pg, l@),
        _ => Seq::empty(),
    }
}

/// The warnings rendering a list of elements emits.
pub open spec fn children_warns(
    proj: Project,
    pg: Page,
    children: Seq<crate::element::Element>,
) -> Seq<Seq<char>>
    decreases children, 1nat,
{
    if children.len() == 0 {
        Seq::empty()
    } else {
        children_warns(proj, pg, children.drop_last(), ) + element_warns(
            proj,
            pg,
            children.last(),
        )
    }
}

/// The title of the page tracked under this path; empty for a path
/// outside the page set.
fn title_for(project: &Project, p: &PagePath) -> (r: String)
    ensures
        r@ == title_of_path(crate::page_list::page_views(project.pages@), p@),
{
    let ghost pv = crate::page_list::page_views(project.pages@);
    let mut i: usize = 0;
    proof {
        assert(pv.skip(0) =~= pv);
    }
    while i < project.pages.len()
        invariant
            0 <= i <= project.pages@.len(),
            pv == crate::page_list::page_views(project.pages@),
            title_of_path(pv.skip(i as int), p@) == title_of_path(pv, p@),
        decreases project.pages@.len() - i,
    {
        proof {
            assert(pv.skip(i as int).first() == pv[i as int]);
            assert(pv.skip(i as int).drop_first() =~= pv.skip(i + 1));
        }
        if project.pages[i].page_path == *p {
            return project.pages[i].title.clone();
        }
        i += 1;
    }
    proof {
        assert(pv.skip(project.pages@.len() as int).len() == 0);
    }
    String::new()
}

/// Resolve a link label on a page.
fn resolve_text(project: &Project, pg: &Page, t: &crate::text::Text) -> (r: String)
    ensures
        r@ == resolved_text(*project, *pg, t@),
{
    match t {
        crate::text::Text::String(s) => s.clone(),
        crate::text::Text::CurrentPageTitle => pg.title.clone(),
        crate::text::Text::PreviousPageTitle => match project.config.site_map.previous(
            &pg.page_path,
        ) {
            Some(pp) => title_for(project, &pp),
            None => String::new(),
        },
        crate::text::Text::NextPageTitle => match project.config.site_map.next(&pg.page_path) {
            Some(pp) => title_for(project, &pp),
            None => String::new(),
        },
    }
}

/// Look up the content embedded for an inline image, its preamble
/// stripped.
fn inline_lookup(project: &Project, src: &str) -> (r: String)
    ensures
        r@ == inline_content_of(project.inline_files@, src@),
{
    let ghost fv = project.inline_files@;
    let mut i: usize = 0;
    proof {
        assert(fv.skip(0) =~= fv);
    }
    while i < project.inline_files.len()
        invariant
            0 <= i <= project.inline_files@.len(),
            fv == project.inline_files@,
            inline_content_of(fv.skip(i as int), src@) == inline_content_of(fv, src@),
        decreases project.inline_files@.len() - i,
    {
        proof {
            assert(fv.skip(i as int).first() == fv[i as int]);
            assert(fv.skip(i as int).drop_first() =~= fv.skip(i + 1));
        }
        if crate::strutil::str_eq_string(&project.inline_files[i].0, src) {
            let content = &project.inline_files[i].1;
            let clen = content.as_str().unicode_len();
            match crate::strutil::find_sub(content.as_str(), "<svg") {
                Some(k) => {
                    let r = content.as_str().substring_char(k, clen).to_owned();
                    proof {
                        assert(r@ =~= content@.skip(
                            crate::strutil::first_sub_idx(content@, "<svg"@),
                        ));
                    }
                    return r;
                },
                None => {
                    return content.clone();
                },
            }
        }
        i += 1;
    }
    proof {
        assert(fv.skip(project.inline_files@.len() as int).len() == 0);
    }
    String::new()
}

/// A page being rendered: the page and project it belongs to, the
/// accumulated table-of-contents fragment, and the rendered Markdown
/// body.
pub struct PageWriter<'p> {
    pub page: &'p Page,
    pub project: &'p Project,
    /// What goes inside the `<ul class=toc-content>` tag.
    pub toc: String,
    /// What goes inside the `<main>` tag.
    pub main: String,
}

impl<'p> PageWriter<'p> {
    /// Prepare a page for rendering: tokenize its Markdown, rewrite
    /// every image and link reference, give headings identifiers, and
    /// render the body, keeping the table-of-contents fragment beside
    /// it.
    #[verifier::loop_isolation(false)]
    pub fn new(
        page: &'p Page,
        project: &'p Project,
        md: &str,
        warnings: &mut Vec<String>,
    ) -> (r: Self)
        requires
            page.page_path.dir@.len() < usize::MAX,
        ensures
            r.page == page,
            r.project == project,
            r.toc@ == md_pass_of(*project, page.page_path@, md_tokens_of(md@)).toc,
            views_of(final(warnings)@) == views_of(old(warnings)@) + md_pass_of(
                *project,
                page.page_path@,
                md_tokens_of(md@),
            ).warns,
    {
        let (mut events, tokens) = crate::markdown::parse_markdown(md);
        let (edits, toc) = compute_md_edits(project, &page.page_path, &tokens, warnings);
        let mut k: usize = 0;
        while k < edits.len()
            invariant
                events@.len() == tokens@.len(),
            decreases edits@.len() - k,
        {
            match &edits[k] {
                MdEdit::Image { idx, url } => {
                    if *idx < events.len() {
                        crate::markdown::set_image_url(&mut events, *idx, url.clone());
                    }
                },
                MdEdit::Link { idx, url } => {
                    if *idx < events.len() {
                        crate::markdown::set_link_url(&mut events, *idx, url.clone());
                    }
                },
                MdEdit::HeadingId { idx, id } => {
                    if *idx < events.len() {
                        crate::markdown::set_heading_id(&mut events, *idx, id.clone());
                    }
                },
            }
            k += 1;
        }
        let main = crate::markdown::events_to_html(events);
        PageWriter { page, project, toc, main }
    }

    pub fn page_path(&self) -> (r: &PagePath)
        ensures
            r == &self.page.page_path,
    {
        &self.page.page_path
    }

    pub fn config(&self) -> (r: &crate::config::Config)
        ensures
            r == &self.project.config,
    {
        &self.project.config
    }


    /// Append the markup of a navigation link's content pieces.
    #[verifier::loop_isolation(false)]
    #[verifier::rlimit(60)]
    fn write_link_parts(
        &self,
        html: &mut String,
        link: &crate::nav_link::NavLink,
        warnings: &mut Vec<String>,
    )
        requires
            self.page.page_path.dir@.len() < usize::MAX,
        ensures
            final(html)@ == old(html)@ + parts_html(*self.project, *self.page, link@.content),
            views_of(final(warnings)@) == views_of(old(warnings)@) + parts_warns(
                *self.project,
                *self.page,
                link@.content,
            ),
    {
        let ghost pbase = html@;
        let ghost wbase = views_of(warnings@);
        let mut j: usize = 0;
        proof {
            assert(link@.content.take(0) =~= Seq::<crate::nav_link::NavLinkPartView>::empty());
            assert(html@ =~= pbase + parts_html(
                *self.project,
                *self.page,
                link@.content.take(0),
            ));
            assert(views_of(warnings@) =~= wbase + parts_warns(
                *self.project,
                *self.page,
                link@.content.take(0),
            ));
        }
        while j < link.content.len()
            invariant
                0 <= j <= link.content@.len(),
                html@ == pbase + parts_html(
                    *self.project,
                    *self.page,
                    link@.content.take(j as int),
                ),
                views_of(warnings@) == wbase + parts_warns(
                    *self.project,
                    *self.page,
                    link@.content.take(j as int),
                ),
            decreases link.content@.len() - j,
        {
            proof {
                assert(link@.content.take(j + 1).drop_last() =~= link@.content.take(j as int));
                assert(link@.content.take(j + 1).last() == link.content@[j as int]@);
            }
            let ghost hbefore = html@;
            let ghost wbefore = views_of(warnings@);
            match &link.content[j] {
                crate::nav_link::NavLinkPart::Img { src, alt } => {
                    proof {
                        reveal_strlit("<img src=\"");
                        reveal_strlit(" alt=\"");
                        reveal_strlit("\" title=\"");
                        reveal_strlit("\"");
                        reveal_strlit(">");
                    }
                    html.append("<img src=\"");
                    let url = self.project.img_url(src.as_str(), &self.page.page_path, warnings);
                    proof {
                        assert(url@ == img_url_of(self.page.page_path@, src@));
                    }
                    html.append(url.as_str());
                    html.append("\"");
                    if let Some(alt_str) = alt {
                        let escaped = crate::html::escape_attr(alt_str.as_str());
                        html.append(" alt=\"");
                        html.append(escaped.as_str());
                        html.append("\" title=\"");
                        html.append(escaped.as_str());
                        html.append("\"");
                    }
                    html.append(">");
                    proof {
                        assert(html@ =~= hbefore + part_html(
                            *self.project,
                            *self.page,
                            link.content@[j as int]@,
                        ));
                        assert(views_of(warnings@) =~= wbefore + (match link.content@[j as int]@ {
                            crate::nav_link::NavLinkPartView::Img { src: s2, alt: a2 } => img_warns(
                                *self.project,
                                self.page.page_path@,
                                s2,
                            ),
                            _ => Seq::<Seq<char>>::empty(),
                        }));
                    }
                },
                crate::nav_link::NavLinkPart::InlineImg { src } => {
                    let content = inline_lookup(self.project, src.as_str());
                    html.append(content.as_str());
                    proof {
                        assert(html@ =~= hbefore + part_html(
                            *self.project,
                            *self.page,
                            link.content@[j as int]@,
                        ));
                        assert(views_of(warnings@) =~= wbefore);
                    }
                },
                crate::nav_link::NavLinkPart::Label(t) => {
                    proof {
                        reveal_strlit("<span>");
                        reveal_strlit("</span>");
                    }
                    let label = resolve_text(self.project, self.page, t);
                    let escaped = crate::html::escape_text(label.as_str());
                    html.append("<span>");
                    html.append(escaped.as_str());
                    html.append("</span>");
                    proof {
                        assert(html@ =~= hbefore + part_html(
                            *self.project,
                            *self.page,
                            link.content@[j as int]@,
                        ));
                        assert(views_of(warnings@) =~= wbefore);
                    }
                },
            }
            proof {
                assert(html@ =~= pbase + parts_html(
                    *self.project,
                    *self.page,
                    link@.content.take(j + 1),
                ));
                assert(views_of(warnings@) =~= wbase + parts_warns(
                    *self.project,
                    *self.page,
                    link@.content.take(j + 1),
                ));
            }
            j += 1;
        }
        proof {
            assert(link@.content.take(link.content@.len() as int) =~= link@.content);
        }
    }

    /// Append the opening tag of one navigation link: its resolved
    /// target, its class names, and its browser target.
    #[verifier::loop_isolation(false)]
    #[verifier::rlimit(100)]
    fn write_link_open(
        &self,
        html: &mut String,
        classes: &Vec<String>,
        link: &crate::nav_link::NavLink,
        warnings: &mut Vec<String>,
    )
        requires
            self.page.page_path.dir@.len() < usize::MAX,
        ensures
            final(html)@ == old(html)@ + "<a"@ + (match link@.href {
                Some(h) => if "--"@.is_prefix_of(nav_href_resolved(*self.project, *self.page, h)) {
                    Seq::<char>::empty()
                } else {
                    " href=\""@ + nav_href_resolved(*self.project, *self.page, h) + "\""@
                },
                None => Seq::<char>::empty(),
            }) + nav_link_class_attr(
                link@.class,
                views_of(classes@),
                match link@.href {
                    Some(h) => "--"@.is_prefix_of(nav_href_resolved(*self.project, *self.page, h)),
                    None => false,
                },
            ) + (match link@.target {
                Some(t) => " target=\""@ + t + "\""@,
                None => Seq::<char>::empty(),
            }) + ">"@,
            views_of(final(warnings)@) == views_of(old(warnings)@) + (match link@.href {
                Some(h) => link_warnings_spec(*self.project, h, self.page.page_path@),
                None => Seq::<Seq<char>>::empty(),
            }),
    {
        proof {
            reveal_strlit("<a");
            reveal_strlit(" href=\"");
            reveal_strlit("\"");
            reveal_strlit(" class=\"nav-link ");
            reveal_strlit(" ");
            reveal_strlit(" unexpanded");
            reveal_strlit(" target=\"");
            reveal_strlit(">");
            reveal_strlit("--");
        }
        html.append("<a");
        let mut unexpanded = false;
        match &link.href {
            Some(url_str) => {
                let url = self.project.link_url(url_str.as_str(), &self.page.page_path, warnings);
                if crate::strutil::str_starts_with(url.as_str(), "--") {
                    unexpanded = true;
                } else {
                    html.append(" href=\"");
                    html.append(url.as_str());
                    html.append("\"");
                }
            },
            None => {},
        }
        html.append(" class=\"nav-link ");
        if let Some(c) = &link.class {
            html.append(c.as_str());
        }
        let ghost cbase = html@;
        let mut i: usize = 0;
        proof {
            assert(views_of(classes@).take(0) =~= Seq::<Seq<char>>::empty());
            assert(html@ =~= cbase + crate::page_list::spaced_classes(
                views_of(classes@).take(0),
            ));
        }
        while i < classes.len()
            invariant
                0 <= i <= classes@.len(),
                html@ == cbase + crate::page_list::spaced_classes(
                    views_of(classes@).take(i as int),
                ),
            decreases classes@.len() - i,
        {
            html.append(" ");
            html.append(classes[i].as_str());
            proof {
                reveal_strlit(" ");
                assert(" "@ =~= seq![' ']);
                assert(views_of(classes@).take(i + 1).drop_last() =~= views_of(classes@).take(
                    i as int,
                ));
                assert(views_of(classes@).take(i + 1).last() == classes@[i as int]@);
                assert(html@ =~= cbase + crate::page_list::spaced_classes(
                    views_of(classes@).take(i + 1),
                ));
            }
            i += 1;
        }
        proof {
            assert(views_of(classes@).take(classes@.len() as int) =~= views_of(classes@));
        }
        if unexpanded {
            html.append(" unexpanded");
        }
        html.append("\"");
        if let Some(t) = &link.target {
            html.append(" target=\"");
            html.append(t.as_str());
            html.append("\"");
        }
        html.append(">");
    }

    /// Append the markup of one navigation link, its target resolved
    /// from the hosting page.
    #[verifier::rlimit(60)]
    pub fn write_nav_link(
        &self,
        html: &mut String,
        classes: &Vec<String>,
        link: &crate::nav_link::NavLink,
        warnings: &mut Vec<String>,
    )
        requires
            self.page.page_path.dir@.len() < usize::MAX,
        ensures
            final(html)@ == old(html)@ + nav_link_html(
                *self.project,
                *self.page,
                views_of(classes@),
                link@,
            ),
            views_of(final(warnings)@) == views_of(old(warnings)@) + nav_link_warns(
                *self.project,
                *self.page,
                link@,
            ),
    {
        proof {
            reveal_strlit("</a>\n");
        }
        self.write_link_open(html, classes, link, warnings);
        self.write_link_parts(html, link, warnings);
        html.append("</a>\n");
        proof {
            assert(html@ =~= old(html)@ + nav_link_html(
                *self.project,
                *self.page,
                views_of(classes@),
                link@,
            ));
            assert(views_of(warnings@) =~= views_of(old(warnings)@) + nav_link_warns(
                *self.project,
                *self.page,
                link@,
            ));
        }
    }


    /// Append the markup of the body elements, in order.
    #[verifier::loop_isolation(false)]
    pub fn write_html_composite(
        &self,
        html: &mut String,
        composite: &crate::composite_element::CompositeElement,
        warnings: &mut Vec<String>,
    )
        requires
            self.page.page_path.dir@.len() < usize::MAX,
        ensures
            final(html)@ == old(html)@ + children_html(
                *self.project,
                *self.page,
                composite.children@,
                self.toc@,
                self.main@,
            ),
            views_of(final(warnings)@) == views_of(old(warnings)@) + children_warns(
                *self.project,
                *self.page,
                composite.children@,
            ),
    {
        let ghost base = html@;
        let ghost wbase = views_of(warnings@);
        let mut i: usize = 0;
        proof {
            assert(composite.children@.take(0) =~= Seq::<crate::element::Element>::empty());
            assert(html@ =~= base + children_html(
                *self.project,
                *self.page,
                composite.children@.take(0),
                self.toc@,
                self.main@,
            ));
            assert(views_of(warnings@) =~= wbase + children_warns(
                *self.project,
                *self.page,
                composite.children@.take(0),
            ));
        }
        while i < composite.children.len()
            invariant
                0 <= i <= composite.children@.len(),
                html@ == base + children_html(
                    *self.project,
                    *self.page,
                    composite.children@.take(i as int),
                    self.toc@,
                    self.main@,
                ),
                views_of(warnings@) == wbase + children_warns(
                    *self.project,
                    *self.page,
                    composite.children@.take(i as int),
                ),
            decreases composite.children@.len() - i,
        {
            proof {
                assert(composite.children@.take(i + 1).drop_last() =~= composite.children@.take(
                    i as int,
                ));
                assert(composite.children@.take(i + 1).last() == composite.children@[i as int]);
            }
            self.write_element(html, &composite.children[i], warnings);
            i += 1;
        }
        proof {
            assert(composite.children@.take(composite.children@.len() as int)
                =~= composite.children@);
        }
    }

    /// Append the markup of one body element: a literal container with
    /// its children, or the generated fragment its pseudo-tag stands
    /// for.
    #[verifier::loop_isolation(false)]
    #[verifier::rlimit(80)]
    pub fn write_element(
        &self,
        html: &mut String,
        element: &crate::element::Element,
        warnings: &mut Vec<String>,
    )
        requires
            self.page.page_path.dir@.len() < usize::MAX,
        ensures
            final(html)@ == old(html)@ + element_html(
                *self.project,
                *self.page,
                *element,
                self.toc@,
                self.main@,
            ),
            views_of(final(warnings)@) == views_of(old(warnings)@) + element_warns(
                *self.project,
                *self.page,
                *element,
            ),
        decreases *element,
    {
        match &element.content {
            crate::element::ElementContent::Html { tag, children } => {
                proof {
                    reveal_strlit("<");
                    reveal_strlit("\n");
                    reveal_strlit(" class=\"");
                    reveal_strlit("\"");
                    reveal_strlit(" ");
                    reveal_strlit(">");
                    reveal_strlit("</");
                    reveal_strlit(">\n");
                }
                html.append("<");
                html.append(tag.as_str());
                html.append("\n");
                if element.classes.len() > 0 {
                    html.append(" class=\"");
                    let ghost jbase = html@;
                    let mut k: usize = 0;
                    proof {
                        assert(views_of(element.classes@).take(0)
                            =~= Seq::<Seq<char>>::empty());
                        assert(html@ =~= jbase + join_space(
                            views_of(element.classes@).take(0),
                        ));
                    }
                    while k < element.classes.len()
                        invariant
                            0 <= k <= element.classes@.len(),
                            html@ == jbase + join_space(
                                views_of(element.classes@).take(k as int),
                            ),
                        decreases element.classes@.len() - k,
                    {
                        if k > 0 {
                            html.append(" ");
                        }
                        html.append(element.classes[k].as_str());
                        proof {
                            reveal_strlit(" ");
                            assert(" "@ =~= seq![' ']);
                            assert(views_of(element.classes@).take(k + 1).drop_last()
                                =~= views_of(element.classes@).take(k as int));
                            assert(views_of(element.classes@).take(k + 1).last()
                                == element.classes@[k as int]@);
                            assert(html@ =~= jbase + join_space(
                                views_of(element.classes@).take(k + 1),
                            ));
                        }
                        k += 1;
                    }
                    proof {
                        assert(views_of(element.classes@).take(element.classes@.len() as int)
                            =~= views_of(element.classes@));
                    }
                    html.append("\"");
                }
                html.append(">");
                let ghost cbase = html@;
                let ghost wbase = views_of(warnings@);
                let mut i: usize = 0;
                proof {
                    assert(children@.take(0) =~= Seq::<crate::element::Element>::empty());
                    assert(html@ =~= cbase + children_html(
                        *self.project,
                        *self.page,
                        children@.take(0),
                        self.toc@,
                        self.main@,
                    ));
                    assert(views_of(warnings@) =~= wbase + children_warns(
                        *self.project,
                        *self.page,
                        children@.take(0),
                    ));
                }
                while i < children.len()
                    invariant
                        0 <= i <= children@.len(),
                        html@ == cbase + children_html(
                            *self.project,
                            *self.page,
                            children@.take(i as int),
                            self.toc@,
                            self.main@,
                        ),
                        views_of(warnings@) == wbase + children_warns(
                            *self.project,
                            *self.page,
                            children@.take(i as int),
                        ),
                    decreases children@.len() - i,
                {
                    proof {
                        assert(children@.take(i + 1).drop_last() =~= children@.take(i as int));
                        assert(children@.take(i + 1).last() == children@[i as int]);
                        assert(decreases_to!(*element => element.content));
                        assert(decreases_to!(element.content => *children));
                        assert(decreases_to!(*children => children@[i as int]));
                    }
                    self.write_element(html, &children[i], warnings);
                    i += 1;
                }
                proof {
                    assert(children@.take(children@.len() as int) =~= children@);
                }
                html.append("</");
                html.append(tag.as_str());
                html.append(">\n");
                proof {
                    assert(html@ =~= old(html)@ + element_html(
                        *self.project,
                        *self.page,
                        *element,
                        self.toc@,
                        self.main@,
                    ));
                }
            },
            crate::element::ElementContent::Link(link) => {
                self.write_nav_link(html, &element.classes, link, warnings);
            },
            crate::element::ElementContent::Menu(menu_insert) => {
                self.project.config.site_map.push_nav(
                    html,
                    &element.classes,
                    menu_insert,
                    &self.page.page_path,
                );
            },
            crate::element::ElementContent::Toc(_) => {
                proof {
                    reveal_strlit("<nav class=page-toc>\n<a class=toc-title href=\"#top\">");
                    reveal_strlit("</a>\n");
                    reveal_strlit("<ul class=toc-content>");
                    reveal_strlit("</ul>");
                    reveal_strlit("</nav>\n");
                }
                html.append("<nav class=page-toc>\n<a class=toc-title href=\"#top\">");
                let escaped = crate::html::escape_text(self.page.title.as_str());
                html.append(escaped.as_str());
                html.append("</a>\n");
                if !self.toc.as_str().is_empty() {
                    html.append("<ul class=toc-content>");
                    html.append(self.toc.as_str());
                    html.append("</ul>");
                }
                html.append("</nav>\n");
                proof {
                    assert(html@ =~= old(html)@ + element_html(
                        *self.project,
                        *self.page,
                        *element,
                        self.toc@,
                        self.main@,
                    ));
                }
            },
            crate::element::ElementContent::Main => {
                proof {
                    reveal_strlit("<main>\n");
                    reveal_strlit("\n</main>\n");
                }
                html.append("<main>\n");
                html.append(self.main.as_str());
                html.append("\n</main>\n");
                proof {
                    assert(html@ =~= old(html)@ + element_html(
                        *self.project,
                        *self.page,
                        *element,
                        self.toc@,
                        self.main@,
                    ));
                }
            },
        }
    }


    /// Append the head lines linking the discovered scripts and styles,
    /// with the search script between them when the pages need it.
    #[verifier::loop_isolation(false)]
    #[verifier::rlimit(100)]
    fn write_asset_links(&self, html: &mut String)
        requires
            self.page.page_path.dir@.len() < usize::MAX,
        ensures
            ({
                let depth = crate::page_path::depth_of(self.page.page_path@);
                final(html)@ == old(html)@ + js_lines(depth, self.project.js_entries@) + (
                if crate::composite_element::composite_has_href(
                    self.project.config.body,
                    "--search"@,
                ) {
                    "<script src=\""@ + crate::page_path::ascent(depth)
                        + "js/ddoc-search.js\" defer></script>\n"@
                } else {
                    Seq::<char>::empty()
                }) + css_lines(depth, self.project.css_entries@)
            }),
    {
        let ghost depth = crate::page_path::depth_of(self.page.page_path@);
        let ghost jsbase = html@;
        let mut i: usize = 0;
        proof {
            assert(self.project.js_entries@.take(0)
                =~= Seq::<crate::statics::StaticEntry>::empty());
            assert(html@ =~= jsbase + js_lines(depth, self.project.js_entries@.take(0)));
        }
        while i < self.project.js_entries.len()
            invariant
                0 <= i <= self.project.js_entries@.len(),
                html@ == jsbase + js_lines(depth, self.project.js_entries@.take(i as int)),
            decreases self.project.js_entries@.len() - i,
        {
            proof {
                reveal_strlit("<script src=\"");
                reveal_strlit("js");
                reveal_strlit("?m=");
                reveal_strlit("\"></script>\n");
                reveal_strlit("js/");
                reveal_strlit("/");
                assert(self.project.js_entries@.take(i + 1).drop_last()
                    =~= self.project.js_entries@.take(i as int));
                assert(self.project.js_entries@.take(i + 1).last()
                    == self.project.js_entries@[i as int]);
            }
            let e = &self.project.js_entries[i];
            let url = self.project.static_url("js", e.filename.as_str(), &self.page.page_path);
            html.append("<script src=\"");
            html.append(url.as_str());
            html.append("?m=");
            html.append(crate::markdown::u64_to_string(e.mtime).as_str());
            html.append("\"></script>\n");
            proof {
                assert("js"@ + seq!['/'] =~= "js/"@);
                assert(html@ =~= jsbase + js_lines(
                    depth,
                    self.project.js_entries@.take(i + 1),
                ));
            }
            i += 1;
        }
        proof {
            assert(self.project.js_entries@.take(self.project.js_entries@.len() as int)
                =~= self.project.js_entries@);
        }
        if self.project.config.needs_search_script() {
            proof {
                reveal_strlit("<script src=\"");
                reveal_strlit("js");
                reveal_strlit("/");
                reveal_strlit("ddoc-search.js");
                reveal_strlit("\" defer></script>\n");
                reveal_strlit("js/ddoc-search.js\" defer></script>\n");
            }
            let url = self.project.static_url("js", "ddoc-search.js", &self.page.page_path);
            html.append("<script src=\"");
            html.append(url.as_str());
            html.append("\" defer></script>\n");
            proof {
                assert("js"@ + seq!['/'] + "ddoc-search.js"@ + "\" defer></script>\n"@
                    =~= "js/ddoc-search.js\" defer></script>\n"@);
            }
        }
        let ghost cssbase = html@;
        let mut i: usize = 0;
        proof {
            assert(self.project.css_entries@.take(0)
                =~= Seq::<crate::statics::StaticEntry>::empty());
            assert(html@ =~= cssbase + css_lines(depth, self.project.css_entries@.take(0)));
        }
        while i < self.project.css_entries.len()
            invariant
                0 <= i <= self.project.css_entries@.len(),
                html@ == cssbase + css_lines(depth, self.project.css_entries@.take(i as int)),
            decreases self.project.css_entries@.len() - i,
        {
            proof {
                reveal_strlit("<link href=\"");
                reveal_strlit("css");
                reveal_strlit("?m=");
                reveal_strlit("\" rel=stylesheet>\n");
                reveal_strlit("css/");
                reveal_strlit("/");
                assert(self.project.css_entries@.take(i + 1).drop_last()
                    =~= self.project.css_entries@.take(i as int));
                assert(self.project.css_entries@.take(i + 1).last()
                    == self.project.css_entries@[i as int]);
            }
            let e = &self.project.css_entries[i];
            let url = self.project.static_url("css", e.filename.as_str(), &self.page.page_path);
            html.append("<link href=\"");
            html.append(url.as_str());
            html.append("?m=");
            html.append(crate::markdown::u64_to_string(e.mtime).as_str());
            html.append("\" rel=stylesheet>\n");
            proof {
                assert("css"@ + seq!['/'] =~= "css/"@);
                assert(html@ =~= cssbase + css_lines(
                    depth,
                    self.project.css_entries@.take(i + 1),
                ));
            }
            i += 1;
        }
        proof {
            assert(self.project.css_entries@.take(self.project.css_entries@.len() as int)
                =~= self.project.css_entries@);
        }
    }

    /// Append the variable parts of the page `<head>`: metadata, the
    /// favicon, and the links to the discovered scripts and styles.
    #[verifier::loop_isolation(false)]
    #[verifier::rlimit(100)]
    pub fn write_html_head(&self, html: &mut String, warnings: &mut Vec<String>)
        requires
            self.page.page_path.dir@.len() < usize::MAX,
        ensures
            final(html)@ == old(html)@ + head_html(*self.project, *self.page),
            views_of(final(warnings)@) == views_of(old(warnings)@) + head_warns(
                *self.project,
                *self.page,
            ),
    {
        proof {
            reveal_strlit("<title>");
            reveal_strlit("</title>\n");
            reveal_strlit("<meta name=\"og-title\" content=\"");
            reveal_strlit("\">\n");
            reveal_strlit("<meta name=\"description\" content=\"");
            reveal_strlit("<meta name=\"og-description\" content=\"");
            reveal_strlit("<link rel=\"shortcut icon\" href=\"");
            reveal_strlit(" - ");
            reveal_strlit("</head>\n");
        }
        html.append(crate::html::HTML_START);
        let mut full_title = self.page.title.clone();
        full_title.append(" - ");
        full_title.append(self.project.config.title.as_str());
        let escaped_title = crate::html::escape_text(full_title.as_str());
        html.append("<title>");
        html.append(escaped_title.as_str());
        html.append("</title>\n");
        let attr_title = crate::html::escape_attr(full_title.as_str());
        html.append("<meta name=\"og-title\" content=\"");
        html.append(attr_title.as_str());
        html.append("\">\n");
        if let Some(description) = self.project.config.description() {
            let d = crate::html::escape_attr(description);
            html.append("<meta name=\"description\" content=\"");
            html.append(d.as_str());
            html.append("\">\n");
            html.append("<meta name=\"og-description\" content=\"");
            html.append(d.as_str());
            html.append("\">\n");
        }
        if let Some(url) = self.project.config.favicon() {
            let url_string = url.to_owned();
            let resolved = self.project.img_url(
                url_string.as_str(),
                &self.page.page_path,
                warnings,
            );
            html.append("<link rel=\"shortcut icon\" href=\"");
            html.append(resolved.as_str());
            html.append("\">\n");
        }
        proof {
            assert(html@ =~= old(html)@ + head_meta(*self.project, *self.page));
        }
        let ghost mid = html@;
        self.write_asset_links(html);
        proof {
            assert(html@ =~= mid + head_assets(*self.project, *self.page));
        }
        html.append("</head>\n");
        proof {
            assert(html@ =~= old(html)@ + head_html(*self.project, *self.page));
            assert(views_of(warnings@) =~= views_of(old(warnings)@) + head_warns(
                *self.project,
                *self.page,
            ));
        }
    }

    /// Append the whole markup of the page.
    pub fn write_html(&self, html: &mut String, warnings: &mut Vec<String>)
        requires
            self.page.page_path.dir@.len() < usize::MAX,
        ensures
            final(html)@ == old(html)@ + page_html(
                *self.project,
                *self.page,
                self.toc@,
                self.main@,
            ),
            views_of(final(warnings)@) == views_of(old(warnings)@) + head_warns(
                *self.project,
                *self.page,
            ) + children_warns(*self.project, *self.page, self.project.config.body.children@),
    {
        proof {
            reveal_strlit("<body class=\"page-");
            reveal_strlit("\">\n\n");
            reveal_strlit("</html>\n");
        }
        self.write_html_head(html, warnings);
        html.append("<body class=\"page-");
        html.append(self.page.page_path.stem.as_str());
        html.append("\">\n\n");
        self.write_html_composite(html, &self.project.config.body, warnings);
        html.append("</html>\n");
        proof {
            assert(html@ =~= old(html)@ + page_html(
                *self.project,
                *self.page,
                self.toc@,
                self.main@,
            ));
        }
    }
}

} // verus!
