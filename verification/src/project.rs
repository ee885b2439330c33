use vstd::prelude::*;
use vstd::string::StrSliceExecFns;
use vstd::string::StringExecFns;
use crate::config::Config;
use crate::page::{Page, PageView};
use crate::page_list::{page_views, pages_of_items, pages_track, prev_of, next_of};
use crate::page_path::{
    ascent, depth_of, display_of, link_of, PagePath, PagePathView,
};
use crate::statics::StaticEntry;
use crate::strutil::{str_eq, str_starts_with, views_of};
use crate::watcher::FileChange;

verus! {

/// A loaded site: its configuration, its page set, and the locations it
/// is read from and built into. The asset lists and the source-file
/// list are snapshots that the surrounding program refreshes from disk
/// before a build.
#[derive(Debug)]
pub struct Project {
    pub root: String,
    pub config: Config,
    pub config_path: String,
    pub pages: Vec<Page>,
    pub src_path: String,
    pub build_path: String,
    /// The script files under the source `js` directory.
    pub js_entries: Vec<StaticEntry>,
    /// The style files under the source `css` directory.
    pub css_entries: Vec<StaticEntry>,
    /// The files present under the source directory, as `/`-separated
    /// paths relative to it (`img/logo.svg`).
    pub src_files: Vec<String>,
    /// The contents of the files that links embed inline, keyed by the
    /// path the link names.
    pub inline_files: Vec<(String, String)>,
}

/// What an update call decides to do for one change signal.
#[derive(Debug)]
pub enum UpdateAction {
    /// Re-read the configuration and rebuild every page.
    ReloadAndRebuild,
    /// Re-render this one tracked page only.
    BuildPage(PagePath),
    /// Copy this one image, named relative to the source `img`
    /// directory, into the output tree.
    CopyImage(String),
    /// Change nothing: the signal does not concern the built site.
    Nothing,
}

impl Project {
    /// Build the in-memory project for a configuration read from
    /// `config_path` in the project directory `root`: fix historical
    /// configurations up, derive the source and output locations, and
    /// walk the site map into the page set. The asset snapshots start
    /// empty.
    pub fn from_config(root: String, config: Config, config_path: String) -> (r: Project)
        ensures
            r.root == root,
            r.config_path == config_path,
            r.src_path@ == root@ + "/src"@,
            r.build_path@ == root@ + "/site"@,
            r.config.title == config.title,
            r.config.description == config.description,
            r.config.site_map == config.site_map,
            r.config.favicon == config.favicon,
            config.body.children@.len() > 0 ==> r.config.body == config.body,
            config.body.children@.len() == 0 ==> crate::nav_component::body_composite_ok(
                config.old,
                r.config.body,
            ),
            page_views(r.pages@) == pages_of_items(
                Seq::empty(),
                config.site_map.items@,
                r.src_path@,
            ),
            r.js_entries@.len() == 0 && r.css_entries@.len() == 0 && r.src_files@.len() == 0,
            r.inline_files@.len() == 0,
    {
        proof {
            reveal_strlit("/src");
            reveal_strlit("/site");
        }
        let mut config = config;
        config.fix_old();
        let src_path = root.clone().concat("/src");
        let build_path = root.clone().concat("/site");
        let mut pages: Vec<Page> = Vec::new();
        proof {
            assert(page_views(pages@) =~= Seq::<PageView>::empty());
        }
        config.site_map.add_pages(&mut pages, src_path.as_str());
        Project {
            root,
            config,
            config_path,
            pages,
            src_path,
            build_path,
            js_entries: Vec::new(),
            css_entries: Vec::new(),
            src_files: Vec::new(),
            inline_files: Vec::new(),
        }
    }

    /// Whether the page set tracks this path.
    pub fn has_page(&self, page_path: &PagePath) -> (r: bool)
        ensures
            r == pages_track(page_views(self.pages@), page_path@),
    {
        crate::page_list::pages_contain_path(&self.pages, page_path)
    }

    /// Check that a linked page exists; a reference to an untracked
    /// page earns one warning and nothing more.
    pub fn check_page_path(&self, page_path: &PagePath, warnings: &mut Vec<String>)
        ensures
            pages_track(page_views(self.pages@), page_path@) ==> final(warnings)@ == old(
                warnings,
            )@,
            !pages_track(page_views(self.pages@), page_path@) ==> views_of(final(warnings)@)
                == views_of(old(warnings)@).push(missing_page_warning(page_path@)),
    {
        if !self.has_page(page_path) {
            proof {
                reveal_strlit("link to a page not in the site map: ");
            }
            let mut msg = String::from_str("link to a page not in the site map: ");
            msg.append(page_path.display_string().as_str());
            let ghost before = warnings@;
            warnings.push(msg);
            proof {
                assert(views_of(warnings@) =~~= views_of(before).push(
                    missing_page_warning(page_path@),
                ));
            }
        }
    }

    /// The page tracked for this Markdown source location, if any; the
    /// first registered page wins.
    pub fn page_path_of(&self, path: &str) -> (r: Option<PagePath>)
        ensures
            match r {
                Some(p) => find_page_by_md(page_views(self.pages@), path@) == Some(p@),
                None => find_page_by_md(page_views(self.pages@), path@) is None,
            },
    {
        let mut i: usize = 0;
        proof {
            assert(page_views(self.pages@).skip(0) =~= page_views(self.pages@));
        }
        while i < self.pages.len()
            invariant
                0 <= i <= self.pages@.len(),
                find_page_by_md(page_views(self.pages@).skip(i as int), path@) == find_page_by_md(
                    page_views(self.pages@),
                    path@,
                ),
            decreases self.pages@.len() - i,
        {
            proof {
                assert(page_views(self.pages@).skip(i as int).first() == page_views(
                    self.pages@,
                )[i as int]);
                assert(page_views(self.pages@).skip(i as int).drop_first() =~= page_views(
                    self.pages@,
                ).skip(i + 1));
            }
            if str_eq(self.pages[i].md_file_path.as_str(), path) {
                return Some(self.pages[i].page_path.duplicate());
            }
            i += 1;
        }
        proof {
            assert(page_views(self.pages@).skip(self.pages@.len() as int).len() == 0);
        }
        None
    }

    /// The URL a page uses to reach a static file: climb to the site
    /// root, then descend into the asset directory.
    pub fn static_url(&self, dir: &str, filename: &str, page_path: &PagePath) -> (r: String)
        requires
            page_path.dir@.len() < usize::MAX,
        ensures
            r@ == ascent(depth_of(page_path@)) + dir@ + seq!['/'] + filename@,
    {
        proof {
            reveal_strlit("../");
            reveal_strlit("/");
        }
        let mut url = String::new();
        let depth = page_path.depth();
        let mut i: usize = 0;
        while i < depth
            invariant
                0 <= i <= depth,
                url@ =~= ascent(i as nat),
            decreases depth - i,
        {
            url.append("../");
            proof {
                reveal_strlit("../");
                assert("../"@ =~= seq!['.', '.', '/']);
                assert(url@ =~= ascent((i + 1) as nat));
            }
            i += 1;
        }
        url.append(dir);
        url.append("/");
        url.append(filename);
        proof {
            assert("/"@ =~= seq!['/']);
        }
        url
    }
}

/// How many `../` tokens begin the string.
pub open spec fn count_leading_ups(s: Seq<char>) -> nat
    decreases s.len(),
{
    if s.len() >= 3 && s.take(3) == seq!['.', '.', '/'] {
        1 + count_leading_ups(s.skip(3))
    } else {
        0
    }
}

/// The string with its leading `../` tokens removed.
pub open spec fn img_rest(s: Seq<char>) -> Seq<char> {
    s.skip(3 * count_leading_ups(s) as int)
}

/// Whether the string names an image of the source tree: some `../`
/// tokens, then a path under `img/`.
pub open spec fn is_img_src(s: Seq<char>) -> bool {
    "img/"@.is_prefix_of(img_rest(s))
}

/// The string with up to `d` of its leading `../` tokens removed.
pub open spec fn stripped_img(s: Seq<char>, d: nat) -> Seq<char> {
    if count_leading_ups(s) <= d {
        img_rest(s)
    } else {
        s.skip(3 * d as int)
    }
}

/// The warning a reference to a missing image earns.
pub open spec fn broken_img_warning(page: PagePathView, img: Seq<char>) -> Seq<char> {
    "broken img src in "@ + display_of(page) + ": "@ + img
}

/// Whether `3 * count_leading_ups` is reached at position `i`, i.e. the
/// remaining text no longer begins with `../`.
proof fn lemma_ups_step(s: Seq<char>, i: int)
    requires
        0 <= i <= s.len(),
        i % 3 == 0,
        s.skip(i).len() >= 3,
        s.skip(i).take(3) == seq!['.', '.', '/'],
    ensures
        count_leading_ups(s.skip(i)) == 1 + count_leading_ups(s.skip(i + 3)),
{
    assert(s.skip(i).skip(3) =~= s.skip(i + 3));
}

impl Project {
    /// Whether a `../` token stands at offset `i`.
    fn up_token_at(s: &str, i: usize) -> (r: bool)
        requires
            i + 3 <= s@.len() <= usize::MAX,
        ensures
            r == (s@[i as int] == '.' && s@[i as int + 1] == '.' && s@[i as int + 2] == '/'),
    {
        let a = s.get_char(i);
        let b = s.get_char(i + 1);
        let c = s.get_char(i + 2);
        a == '.' && b == '.' && c == '/'
    }

    /// Count the `../` tokens beginning the string, and hand back the
    /// offset just after them.
    fn leading_ups_end(src: &str) -> (r: usize)
        ensures
            r == 3 * count_leading_ups(src@),
            r <= src@.len(),
    {
        let len = src.unicode_len();
        let mut i: usize = 0;
        proof {
            assert(src@.skip(0) =~= src@);
        }
        while len - i >= 3 && Self::up_token_at(src, i)
            invariant
                0 <= i <= len,
                len == src@.len(),
                i % 3 == 0,
                3 * count_leading_ups(src@) == i + 3 * count_leading_ups(src@.skip(i as int)),
            decreases len - i,
        {
            proof {
                assert(src@.skip(i as int).take(3) =~= seq!['.', '.', '/']);
                lemma_ups_step(src@, i as int);
            }
            i += 3;
        }
        proof {
            if src@.skip(i as int).len() >= 3 && src@.skip(i as int).take(3) == seq![
                '.',
                '.',
                '/',
            ] {
                assert(src@.skip(i as int)[0] == src@[i as int]);
                assert(src@.skip(i as int)[1] == src@[i as int + 1]);
                assert(src@.skip(i as int)[2] == src@[i as int + 2]);
                assert(false);
            }
            assert(count_leading_ups(src@.skip(i as int)) == 0);
        }
        i
    }

    /// Check that an image referenced by a page exists in the source
    /// tree; the reference is read with at most `depth` of its leading
    /// `../` tokens honoured, and a missing image earns one warning.
    pub fn check_img_path(&self, img_path: &str, page_path: &PagePath, warnings: &mut Vec<String>)
        requires
            page_path.dir@.len() < usize::MAX,
        ensures
            ({
                let checked = stripped_img(img_path@, depth_of(page_path@));
                &&& src_file_listed(self.src_files@, checked) ==> final(warnings)@ == old(
                    warnings,
                )@
                &&& !src_file_listed(self.src_files@, checked) ==> views_of(
                    final(warnings)@,
                ) == views_of(old(warnings)@).push(broken_img_warning(page_path@, checked))
            }),
    {
        proof {
            reveal_strlit("../");
        }
        let depth = page_path.depth();
        let len = img_path.unicode_len();
        let mut i: usize = 0;
        let mut steps: usize = 0;
        proof {
            assert(img_path@.skip(0) =~= img_path@);
        }
        while steps < depth && len - i >= 3 && Self::up_token_at(img_path, i)
            invariant
                0 <= i <= len,
                len == img_path@.len(),
                i == 3 * steps,
                steps <= depth,
                depth == depth_of(page_path@),
                steps <= count_leading_ups(img_path@),
                3 * count_leading_ups(img_path@) == i + 3 * count_leading_ups(
                    img_path@.skip(i as int),
                ),
            decreases depth - steps,
        {
            proof {
                assert(img_path@.skip(i as int).take(3) =~= seq!['.', '.', '/']);
                lemma_ups_step(img_path@, i as int);
            }
            i += 3;
            steps += 1;
        }
        proof {
            if steps < depth {
                if img_path@.skip(i as int).len() >= 3 && img_path@.skip(i as int).take(3)
                    == seq!['.', '.', '/'] {
                    assert(img_path@.skip(i as int)[0] == img_path@[i as int]);
                    assert(img_path@.skip(i as int)[1] == img_path@[i as int + 1]);
                    assert(img_path@.skip(i as int)[2] == img_path@[i as int + 2]);
                    assert(false);
                }
                assert(count_leading_ups(img_path@.skip(i as int)) == 0);
                assert(img_path@.skip(i as int) =~= stripped_img(img_path@, depth as nat));
            } else {
                assert(img_path@.skip(i as int) =~= stripped_img(img_path@, depth as nat));
            }
        }
        let checked = img_path.substring_char(i, len).to_owned();
        if !self.src_file_exists(checked.as_str()) {
            proof {
                reveal_strlit("broken img src in ");
                reveal_strlit(": ");
            }
            let mut msg = String::from_str("broken img src in ");
            msg.append(page_path.display_string().as_str());
            msg.append(": ");
            msg.append(checked.as_str());
            let ghost before = warnings@;
            warnings.push(msg);
            proof {
                assert(views_of(warnings@) =~~= views_of(before).push(
                    broken_img_warning(page_path@, stripped_img(img_path@, depth_of(page_path@))),
                ));
            }
        }
    }

    /// Whether the source tree holds this relative path.
    fn src_file_exists(&self, rel: &str) -> (r: bool)
        ensures
            r == src_file_listed(self.src_files@, rel@),
    {
        let mut i: usize = 0;
        while i < self.src_files.len()
            invariant
                0 <= i <= self.src_files@.len(),
                forall|j: int| 0 <= j < i ==> (#[trigger] self.src_files@[j])@ != rel@,
            decreases self.src_files@.len() - i,
        {
            if str_eq(self.src_files[i].as_str(), rel) {
                return true;
            }
            i += 1;
        }
        proof {
            if src_file_listed(self.src_files@, rel@) {
                let k = choose|k: int|
                    0 <= k < self.src_files@.len() && (#[trigger] self.src_files@[k])@ == rel@;
            }
        }
        false
    }

    /// Rewrite a reference to an image of the source tree so that it
    /// resolves from this page's location: the authored ascent is
    /// replaced by this page's own ascent. Anything else is left alone,
    /// as is an `img/` reference on the root page that needs no ascent.
    /// A rewritten reference to a missing image earns one warning.
    pub fn maybe_rewrite_img_url(
        &self,
        src: &str,
        page_path: &PagePath,
        warnings: &mut Vec<String>,
    ) -> (r: Option<String>)
        requires
            page_path.dir@.len() < usize::MAX,
        ensures
            !is_img_src(src@) ==> r is None && final(warnings)@ == old(warnings)@,
            is_img_src(src@) ==> ({
                let checked = stripped_img(src@, depth_of(page_path@));
                &&& (depth_of(page_path@) == 0 && count_leading_ups(src@) == 0) ==> r is None
                &&& !(depth_of(page_path@) == 0 && count_leading_ups(src@) == 0) ==> (r matches
                    Some(u) && u@ == ascent(depth_of(page_path@)) + img_rest(src@))
                &&& src_file_listed(self.src_files@, checked) ==> final(warnings)@ == old(
                    warnings,
                )@
                &&& !src_file_listed(self.src_files@, checked) ==> views_of(
                    final(warnings)@,
                ) == views_of(old(warnings)@).push(broken_img_warning(page_path@, checked))
            }),
    {
        proof {
            reveal_strlit("img/");
            reveal_strlit("../");
        }
        let ups_end = Self::leading_ups_end(src);
        let len = src.unicode_len();
        let rest = src.substring_char(ups_end, len);
        if !crate::strutil::str_starts_with(rest, "img/") {
            proof {
                assert(rest@ =~= img_rest(src@));
            }
            return None;
        }
        proof {
            assert(rest@ =~= img_rest(src@));
        }
        self.check_img_path(src, page_path, warnings);
        let depth = page_path.depth();
        if depth == 0 && ups_end == 0 {
            return None;
        }
        let mut url = String::new();
        let mut i: usize = 0;
        while i < depth
            invariant
                0 <= i <= depth,
                url@ =~= ascent(i as nat),
            decreases depth - i,
        {
            url.append("../");
            proof {
                reveal_strlit("../");
                assert("../"@ =~= seq!['.', '.', '/']);
                assert(url@ =~= ascent((i + 1) as nat));
            }
            i += 1;
        }
        url.append(rest);
        Some(url)
    }

    /// The image reference as a page should emit it: rewritten when it
    /// points into the source tree, untouched otherwise.
    pub fn img_url(&self, src: &str, page_path: &PagePath, warnings: &mut Vec<String>) -> (r:
        String)
        requires
            page_path.dir@.len() < usize::MAX,
        ensures
            !is_img_src(src@) ==> r@ == src@ && final(warnings)@ == old(warnings)@,
            is_img_src(src@) && depth_of(page_path@) == 0 && count_leading_ups(src@) == 0 ==> r@
                == src@,
            is_img_src(src@) && !(depth_of(page_path@) == 0 && count_leading_ups(src@) == 0)
                ==> r@ == ascent(depth_of(page_path@)) + img_rest(src@),
            is_img_src(src@) ==> ({
                let checked = stripped_img(src@, depth_of(page_path@));
                &&& src_file_listed(self.src_files@, checked) ==> final(warnings)@ == old(
                    warnings,
                )@
                &&& !src_file_listed(self.src_files@, checked) ==> views_of(final(warnings)@)
                    == views_of(old(warnings)@).push(broken_img_warning(page_path@, checked))
            }),
    {
        match self.maybe_rewrite_img_url(src, page_path, warnings) {
            Some(new_url) => new_url,
            None => src.to_owned(),
        }
    }
}

/// A character the page-path grammar accepts in names: an ASCII letter
/// or digit, an underscore or a hyphen.
pub open spec fn word_char(c: char) -> bool {
    ('a' <= c <= 'z') || ('A' <= c <= 'Z') || ('0' <= c <= '9') || c == '_' || c == '-'
}

/// Whether every character is a name character.
pub open spec fn all_word(s: Seq<char>) -> bool {
    forall|i: int| 0 <= i < s.len() ==> word_char(#[trigger] s[i])
}

/// Whether every character is a name character or a separator.
pub open spec fn all_word_or_slash(s: Seq<char>) -> bool {
    forall|i: int| 0 <= i < s.len() ==> word_char(#[trigger] s[i]) || s[i] == '/'
}

/// Whether a token of a relative link's directory part is acceptable:
/// nothing, a dot or dot-dot step, or a plain name.
pub open spec fn rel_token_ok(t: Seq<char>) -> bool {
    t.len() == 0 || t == seq!['.'] || t == seq!['.', '.'] || all_word(t)
}

/// Whether the directory part of a relative link fits the grammar.
pub open spec fn rel_path_ok(p: Seq<char>) -> bool {
    forall|i: int|
        0 <= i < crate::strutil::split_at_sep(p, '/').len() ==> rel_token_ok(
            #[trigger] crate::strutil::split_at_sep(p, '/')[i],
        )
}

/// Where the fragment of a link starts: at its first `#`, or past the
/// end when it has none.
pub open spec fn link_hash_idx(s: Seq<char>) -> int {
    let i = crate::strutil::first_idx_of_char(s, '#');
    if i < 0 {
        s.len() as int
    } else {
        i
    }
}

pub open spec fn link_body(s: Seq<char>) -> Seq<char> {
    s.take(link_hash_idx(s))
}

pub open spec fn link_hash(s: Seq<char>) -> Seq<char> {
    s.skip(link_hash_idx(s))
}

/// Parse a site-absolute link `/dir/stem`, with an optional `.md`
/// extension, a trailing `/index` or `index` stripped, and an optional
/// fragment: the directory prefix (through its last `/`), the bare
/// stem, and the fragment. Anything outside the grammar gives nothing.
pub open spec fn parse_absolute(s: Seq<char>) -> Option<(Seq<char>, Seq<char>, Seq<char>)> {
    if s.len() == 0 || s[0] != '/' {
        None
    } else {
        let body = link_body(s).skip(1);
        let k = crate::strutil::last_idx_of_char(body, '/');
        let path = body.take(k + 1);
        let r0 = body.skip(k + 1);
        let r1 = if ".md"@.is_suffix_of(r0) {
            r0.take(r0.len() - 3)
        } else {
            r0
        };
        let f = if "index"@.is_suffix_of(r1) {
            r1.take(r1.len() - 5)
        } else {
            r1
        };
        if all_word_or_slash(path) && all_word(f) {
            Some((path, f, link_hash(s)))
        } else {
            None
        }
    }
}

/// Parse a relative link `dir/stem`, with `.` and `..` steps allowed in
/// the directory part, an optional `.md` extension or trailing `/`
/// stripped, and an optional fragment: the directory part (through its
/// last `/`), the stem, and the fragment. Anything outside the grammar
/// gives nothing.
pub open spec fn parse_relative(s: Seq<char>) -> Option<(Seq<char>, Seq<char>, Seq<char>)> {
    let body0 = link_body(s);
    let body = if body0.len() > 0 && body0.last() == '/' {
        body0.drop_last()
    } else {
        body0
    };
    let k = crate::strutil::last_idx_of_char(body, '/');
    let path = body.take(k + 1);
    let r0 = body.skip(k + 1);
    let f = if ".md"@.is_suffix_of(r0) {
        r0.take(r0.len() - 3)
    } else {
        r0
    };
    if f.len() > 0 && all_word(f) && rel_path_ok(path) {
        Some((path, f, link_hash(s)))
    } else {
        None
    }
}

/// The URL a rewritten link resolves to, for every kind of source.
pub open spec fn rewrite_link_spec(
    proj: Project,
    src: Seq<char>,
    page: PagePathView,
) -> Option<Seq<char>> {
    if src == "--previous"@ {
        match prev_of(proj.config.site_map, page) {
            Some(t) => Some(link_of(page, t)),
            None => None,
        }
    } else if src == "--next"@ {
        match next_of(proj.config.site_map, page) {
            Some(t) => Some(link_of(page, t)),
            None => None,
        }
    } else if src == "--search"@ {
        Some("javascript:ddoc_search.open();"@)
    } else if src.len() > 0 && src[0] == '/' {
        match parse_absolute(src) {
            Some((path, f, hash)) => Some(ascent(depth_of(page)) + path + f + hash),
            None => None,
        }
    } else {
        match parse_relative(src) {
            Some((path, f, hash)) => Some(
                path + (if f == "index"@ {
                    Seq::<char>::empty()
                } else {
                    f
                }) + hash,
            ),
            None => None,
        }
    }
}

/// The page a rewritten internal link points at, when the source is an
/// internal link.
pub open spec fn link_target_spec(src: Seq<char>, page: PagePathView) -> Option<PagePathView> {
    if src == "--previous"@ || src == "--next"@ || src == "--search"@ {
        None
    } else if src.len() > 0 && src[0] == '/' {
        match parse_absolute(src) {
            Some((path, f, hash)) => Some(
                PagePathView {
                    dir: crate::strutil::path_segments(path),
                    stem: if f.len() == 0 {
                        "index"@
                    } else {
                        f
                    },
                },
            ),
            None => None,
        }
    } else {
        match parse_relative(src) {
            Some((path, f, hash)) => Some(
                PagePathView { dir: crate::page_path::followed_dir_of(page, path), stem: f },
            ),
            None => None,
        }
    }
}

/// The warning a broken internal link earns.
pub open spec fn broken_link_warning(page: PagePathView, src: Seq<char>) -> Seq<char> {
    "broken link in "@ + display_of(page) + ": "@ + src
}

/// The warnings one link resolution emits: one broken-link warning when
/// an internal link points at an untracked page, nothing otherwise.
pub open spec fn link_warnings_spec(
    proj: Project,
    src: Seq<char>,
    page: PagePathView,
) -> Seq<Seq<char>> {
    match link_target_spec(src, page) {
        Some(t) => if pages_track(page_views(proj.pages@), t) {
            Seq::empty()
        } else {
            seq![broken_link_warning(page, src)]
        },
        None => Seq::empty(),
    }
}

/// A path relative to the source directory, when the path lies under
/// it.
pub open spec fn rel_to_src(src_path: Seq<char>, path: Seq<char>) -> Option<Seq<char>> {
    if (src_path + seq!['/']).is_prefix_of(path) {
        Some(path.skip(src_path.len() as int + 1))
    } else {
        None
    }
}

impl Project {
    /// Decide what one change signal asks of the built site. An unknown
    /// or compound change reloads and rebuilds everything, and so does
    /// any write outside the recognized cases — a new or untracked
    /// Markdown file, the configuration file, a style or script — since
    /// the page set or the shared page head may be affected. A write to
    /// a tracked page's Markdown source re-renders that one page only;
    /// a write under the source `img` tree copies that one image only.
    /// A removal matters only under the source `css` or `js` trees,
    /// where the shared page head changes.
    pub fn update_action(&self, change: &FileChange) -> (r: UpdateAction)
        ensures
            change is Other ==> r is ReloadAndRebuild,
            change matches FileChange::Removal(p) ==> match rel_to_src(self.src_path@, p@) {
                Some(rel) => if "css/"@.is_prefix_of(rel) || "js/"@.is_prefix_of(rel) {
                    r is ReloadAndRebuild
                } else {
                    r is Nothing
                },
                None => r is Nothing,
            },
            change matches FileChange::Write(p) ==> match rel_to_src(self.src_path@, p@) {
                Some(rel) => if ".md"@.is_suffix_of(rel) {
                    match find_page_by_md(page_views(self.pages@), p@) {
                        Some(t) => r matches UpdateAction::BuildPage(b) && b@ == t,
                        None => r is ReloadAndRebuild,
                    }
                } else if "img/"@.is_prefix_of(rel) {
                    r matches UpdateAction::CopyImage(ri) && ri@ == rel.skip(4)
                } else {
                    r is ReloadAndRebuild
                },
                None => r is ReloadAndRebuild,
            },
    {
        proof {
            reveal_strlit("/");
            reveal_strlit("css/");
            reveal_strlit("js/");
            reveal_strlit("img/");
            reveal_strlit(".md");
            assert("/"@ =~= seq!['/']);
            assert("img/"@.len() == 4);
        }
        let src_prefix = self.src_path.clone().concat("/");
        match change {
            FileChange::Other => UpdateAction::ReloadAndRebuild,
            FileChange::Removal(touched) => {
                if str_starts_with(touched.as_str(), src_prefix.as_str()) {
                    let tlen = touched.as_str().unicode_len();
                    let plen = src_prefix.unicode_len();
                    let rel = touched.as_str().substring_char(plen, tlen);
                    proof {
                        assert(rel@ =~= touched@.skip(self.src_path@.len() as int + 1));
                    }
                    if str_starts_with(rel, "css/") || str_starts_with(rel, "js/") {
                        UpdateAction::ReloadAndRebuild
                    } else {
                        UpdateAction::Nothing
                    }
                } else {
                    UpdateAction::Nothing
                }
            },
            FileChange::Write(touched) => {
                if str_starts_with(touched.as_str(), src_prefix.as_str()) {
                    let tlen = touched.as_str().unicode_len();
                    let plen = src_prefix.unicode_len();
                    let rel = touched.as_str().substring_char(plen, tlen);
                    proof {
                        assert(rel@ =~= touched@.skip(self.src_path@.len() as int + 1));
                    }
                    if crate::strutil::str_ends_with(rel, ".md") {
                        match self.page_path_of(touched.as_str()) {
                            Some(page_path) => UpdateAction::BuildPage(page_path),
                            None => UpdateAction::ReloadAndRebuild,
                        }
                    } else if str_starts_with(rel, "img/") {
                        let rlen = rel.unicode_len();
                        let rel_img = rel.substring_char(4, rlen).to_owned();
                        proof {
                            assert(rel_img@ =~= rel@.skip(4));
                        }
                        UpdateAction::CopyImage(rel_img)
                    } else {
                        UpdateAction::ReloadAndRebuild
                    }
                } else {
                    UpdateAction::ReloadAndRebuild
                }
            },
        }
    }
}

/// Whether the character is acceptable in a name.
fn is_word_char(c: char) -> (r: bool)
    ensures
        r == word_char(c),
{
    ('a' <= c && c <= 'z') || ('A' <= c && c <= 'Z') || ('0' <= c && c <= '9') || c == '_' || c
        == '-'
}

/// Whether every character of the string is acceptable in a name.
fn all_chars_word(s: &str) -> (r: bool)
    ensures
        r == all_word(s@),
{
    let len = s.unicode_len();
    let mut i: usize = 0;
    while i < len
        invariant
            0 <= i <= len,
            len == s@.len(),
            forall|j: int| 0 <= j < i ==> word_char(#[trigger] s@[j]),
        decreases len - i,
    {
        if !is_word_char(s.get_char(i)) {
            return false;
        }
        i += 1;
    }
    true
}

/// Whether every character of the string is acceptable in a name or a
/// separator.
fn all_chars_word_or_slash(s: &str) -> (r: bool)
    ensures
        r == all_word_or_slash(s@),
{
    let len = s.unicode_len();
    let mut i: usize = 0;
    while i < len
        invariant
            0 <= i <= len,
            len == s@.len(),
            forall|j: int| 0 <= j < i ==> word_char(#[trigger] s@[j]) || s@[j] == '/',
        decreases len - i,
    {
        let c = s.get_char(i);
        if !is_word_char(c) && c != '/' {
            return false;
        }
        i += 1;
    }
    true
}

/// Whether the directory part of a relative link fits the grammar.
fn rel_path_tokens_ok(p: &str) -> (r: bool)
    ensures
        r == rel_path_ok(p@),
{
    proof {
        reveal_strlit(".");
        reveal_strlit("..");
        assert("."@.len() == 1);
        assert(".."@.len() == 2);
    }
    let tokens = crate::strutil::split_str(p, '/');
    let mut i: usize = 0;
    while i < tokens.len()
        invariant
            0 <= i <= tokens@.len(),
            views_of(tokens@) == crate::strutil::split_at_sep(p@, '/'),
            forall|j: int|
                0 <= j < i ==> rel_token_ok(#[trigger] crate::strutil::split_at_sep(p@, '/')[j]),
        decreases tokens@.len() - i,
    {
        let t = &tokens[i];
        let ok = t.as_str().is_empty() || crate::strutil::str_eq_string(t, ".")
            || crate::strutil::str_eq_string(t, "..") || all_chars_word(t.as_str());
        if !ok {
            proof {
                reveal_strlit(".");
                reveal_strlit("..");
                assert("."@ =~= seq!['.']);
                assert(".."@ =~= seq!['.', '.']);
                assert(!rel_token_ok(crate::strutil::split_at_sep(p@, '/')[i as int]));
            }
            return false;
        }
        proof {
            reveal_strlit(".");
            reveal_strlit("..");
            assert("."@.len() == 1);
            assert(".."@.len() == 2);
            assert("."@ =~= seq!['.']);
            assert(".."@ =~= seq!['.', '.']);
            assert(rel_token_ok(crate::strutil::split_at_sep(p@, '/')[i as int]));
        }
        i += 1;
    }
    true
}

impl Project {
    /// Rewrite an authored link so that it resolves from this page:
    /// `--previous` and `--next` turn into the relative link to the
    /// neighbouring page when there is one (and stay put otherwise),
    /// `--search` opens the bundled search, a site-absolute link is
    /// re-rooted under this page's ascent, and a relative link to a
    /// page source is normalized. Anything else is left alone. An
    /// internal link to an untracked page earns one warning, and the
    /// best-effort URL is still handed back.
    #[verifier::rlimit(80)]
    pub fn maybe_rewrite_link_url(
        &self,
        src: &str,
        page_path: &PagePath,
        warnings: &mut Vec<String>,
    ) -> (r: Option<String>)
        requires
            page_path.dir@.len() < usize::MAX,
        ensures
            match r {
                Some(u) => rewrite_link_spec(*self, src@, page_path@) == Some(u@),
                None => rewrite_link_spec(*self, src@, page_path@) is None,
            },
            views_of(final(warnings)@) == views_of(old(warnings)@) + link_warnings_spec(
                *self,
                src@,
                page_path@,
            ),
    {
        proof {
            reveal_strlit("--previous");
            reveal_strlit("--next");
            reveal_strlit("--search");
            assert("--previous"@.len() == 10);
            assert("--next"@.len() == 6);
            assert("--search"@.len() == 8);
            assert("--next"@[2] == 'n');
            assert("--search"@[2] == 's');
        }
        let ghost ws0 = views_of(warnings@);
        if str_eq(src, "--previous") {
            let r = match self.config.site_map.previous(page_path) {
                Some(dst) => Some(page_path.link_to(&dst)),
                None => None,
            };
            proof {
                assert(views_of(warnings@) =~= ws0 + link_warnings_spec(
                    *self,
                    src@,
                    page_path@,
                ));
            }
            return r;
        }
        if str_eq(src, "--next") {
            let r = match self.config.site_map.next(page_path) {
                Some(dst) => Some(page_path.link_to(&dst)),
                None => None,
            };
            proof {
                assert(views_of(warnings@) =~= ws0 + link_warnings_spec(
                    *self,
                    src@,
                    page_path@,
                ));
            }
            return r;
        }
        if str_eq(src, "--search") {
            proof {
                reveal_strlit("javascript:ddoc_search.open();");
                assert(views_of(warnings@) =~= ws0 + link_warnings_spec(
                    *self,
                    src@,
                    page_path@,
                ));
            }
            return Some(String::from_str("javascript:ddoc_search.open();"));
        }
        proof {
            reveal_strlit(".md");
            reveal_strlit("index");
        }
        let len = src.unicode_len();
        let hi = match crate::strutil::find_char(src, '#') {
            Some(i) => i,
            None => len,
        };
        proof {
            assert(hi == link_hash_idx(src@));
        }
        if len > 0 && src.get_char(0) == '/' {
            proof {
                assert(hi >= 1);
            }
            let body = src.substring_char(1, hi);
            proof {
                assert(body@ =~= link_body(src@).skip(1));
            }
            let blen = body.unicode_len();
            let k_end = match crate::strutil::rfind_char(body, '/') {
                Some(k) => k + 1,
                None => 0,
            };
            let path_s = body.substring_char(0, k_end);
            let rest = body.substring_char(k_end, blen);
            proof {
                let kk = crate::strutil::last_idx_of_char(body@, '/');
                assert(path_s@ =~= link_body(src@).skip(1).take(kk + 1));
                assert(rest@ =~= link_body(src@).skip(1).skip(kk + 1));
            }
            let rlen = rest.unicode_len();
            let rest1 = if crate::strutil::str_ends_with(rest, ".md") {
                rest.substring_char(0, rlen - 3)
            } else {
                rest
            };
            let r1len = rest1.unicode_len();
            let f = if crate::strutil::str_ends_with(rest1, "index") {
                rest1.substring_char(0, r1len - 5)
            } else {
                rest1
            };
            if all_chars_word_or_slash(path_s) && all_chars_word(f) {
                let ghost parsed = parse_absolute(src@);
                proof {
                    assert(parsed == Some((path_s@, f@, link_hash(src@))));
                }
                let target = PagePath::from_path_stem(path_s, f);
                proof {
                    assert(target@ =~~= link_target_spec(src@, page_path@).unwrap());
                }
                if !self.has_page(&target) {
                    proof {
                        reveal_strlit("broken link in ");
                        reveal_strlit(": ");
                    }
                    let mut msg = String::from_str("broken link in ");
                    msg.append(page_path.display_string().as_str());
                    msg.append(": ");
                    msg.append(src);
                    warnings.push(msg);
                    proof {
                        assert(views_of(warnings@) =~~= ws0 + link_warnings_spec(
                            *self,
                            src@,
                            page_path@,
                        ));
                    }
                } else {
                    proof {
                        assert(views_of(warnings@) =~= ws0 + link_warnings_spec(
                            *self,
                            src@,
                            page_path@,
                        ));
                    }
                }
                proof {
                    reveal_strlit("../");
                }
                let mut url = String::new();
                let depth = page_path.depth();
                let mut i: usize = 0;
                while i < depth
                    invariant
                        0 <= i <= depth,
                        url@ =~= ascent(i as nat),
                    decreases depth - i,
                {
                    url.append("../");
                    proof {
                        reveal_strlit("../");
                        assert("../"@ =~= seq!['.', '.', '/']);
                        assert(url@ =~= ascent((i + 1) as nat));
                    }
                    i += 1;
                }
                url.append(path_s);
                url.append(f);
                let hash = src.substring_char(hi, len);
                proof {
                    assert(hash@ =~= link_hash(src@));
                }
                url.append(hash);
                Some(url)
            } else {
                proof {
                    assert(parse_absolute(src@) is None);
                    assert(views_of(warnings@) =~= ws0 + link_warnings_spec(
                        *self,
                        src@,
                        page_path@,
                    ));
                }
                None
            }
        } else {
            let body0 = src.substring_char(0, hi);
            proof {
                assert(body0@ =~= link_body(src@));
            }
            let b0len = body0.unicode_len();
            let body = if b0len > 0 && body0.get_char(b0len - 1) == '/' {
                body0.substring_char(0, b0len - 1)
            } else {
                body0
            };
            proof {
                if link_body(src@).len() > 0 && link_body(src@).last() == '/' {
                    assert(body@ =~= link_body(src@).drop_last());
                }
            }
            let blen = body.unicode_len();
            let k_end = match crate::strutil::rfind_char(body, '/') {
                Some(k) => k + 1,
                None => 0,
            };
            let path_s = body.substring_char(0, k_end);
            let rest = body.substring_char(k_end, blen);
            proof {
                let kk = crate::strutil::last_idx_of_char(body@, '/');
                assert(path_s@ =~= body@.take(kk + 1));
                assert(rest@ =~= body@.skip(kk + 1));
            }
            let rlen = rest.unicode_len();
            let f = if crate::strutil::str_ends_with(rest, ".md") {
                rest.substring_char(0, rlen - 3)
            } else {
                rest
            };
            if !f.is_empty() && all_chars_word(f) && rel_path_tokens_ok(path_s) {
                let ghost parsed = parse_relative(src@);
                proof {
                    assert(parsed == Some((path_s@, f@, link_hash(src@))));
                }
                let target = page_path.follow_relative_link(path_s, f);
                proof {
                    assert(target@ =~~= link_target_spec(src@, page_path@).unwrap());
                }
                if !self.has_page(&target) {
                    proof {
                        reveal_strlit("broken link in ");
                        reveal_strlit(": ");
                    }
                    let mut msg = String::from_str("broken link in ");
                    msg.append(page_path.display_string().as_str());
                    msg.append(": ");
                    msg.append(src);
                    warnings.push(msg);
                    proof {
                        assert(views_of(warnings@) =~~= ws0 + link_warnings_spec(
                            *self,
                            src@,
                            page_path@,
                        ));
                    }
                } else {
                    proof {
                        assert(views_of(warnings@) =~= ws0 + link_warnings_spec(
                            *self,
                            src@,
                            page_path@,
                        ));
                    }
                }
                let mut url = path_s.to_owned();
                if !str_eq(f, "index") {
                    url.append(f);
                }
                let hash = src.substring_char(hi, len);
                proof {
                    assert(hash@ =~= link_hash(src@));
                }
                url.append(hash);
                Some(url)
            } else {
                proof {
                    assert(parse_relative(src@) is None);
                    assert(views_of(warnings@) =~= ws0 + link_warnings_spec(
                        *self,
                        src@,
                        page_path@,
                    ));
                }
                None
            }
        }
    }

    /// The link as a page should emit it: rewritten when the resolver
    /// recognizes it, untouched otherwise — in particular an
    /// unexpandable `--previous` or `--next` stays as written.
    pub fn link_url(&self, src: &str, page_path: &PagePath, warnings: &mut Vec<String>) -> (r:
        String)
        requires
            page_path.dir@.len() < usize::MAX,
        ensures
            r@ == match rewrite_link_spec(*self, src@, page_path@) {
                Some(u) => u,
                None => src@,
            },
            views_of(final(warnings)@) == views_of(old(warnings)@) + link_warnings_spec(
                *self,
                src@,
                page_path@,
            ),
    {
        match self.maybe_rewrite_link_url(src, page_path, warnings) {
            Some(new_url) => new_url,
            None => src.to_owned(),
        }
    }
}

/// Whether the listed source files hold this relative path.
pub open spec fn src_file_listed(files: Seq<String>, rel: Seq<char>) -> bool {
    exists|i: int| 0 <= i < files.len() && (#[trigger] files[i])@ == rel
}

/// The first tracked page whose Markdown source is at `path`.
pub open spec fn find_page_by_md(pages: Seq<PageView>, path: Seq<char>) -> Option<PagePathView>
    decreases pages.len(),
{
    if pages.len() == 0 {
        None
    } else if pages.first().md_file_path == path {
        Some(pages.first().page_path)
    } else {
        find_page_by_md(pages.drop_first(), path)
    }
}

/// The warning a reference to an untracked page earns.
pub open spec fn missing_page_warning(p: PagePathView) -> Seq<char> {
    "link to a page not in the site map: "@ + display_of(p)
}

} // verus!
