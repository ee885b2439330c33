use vstd::prelude::*;
use vstd::string::StrSliceExecFns;
use vstd::string::StringExecFns;
use crate::strutil::{path_segments, split_path_segments, str_eq_string, views_of};

verus! {

/// The canonical identifier of a page: its directory segments and its
/// file stem. Two pages are the same exactly when both match.
#[derive(Debug, Clone)]
pub struct PagePath {
    pub dir: Vec<String>,
    pub stem: String,
}

/// A well-formed directory segment or stem: non-empty plain text, with no
/// separator and no dot, so that in particular it is neither a `.` nor a
/// `..` token.
pub open spec fn seg_wf(t: Seq<char>) -> bool {
    &&& t.len() > 0
    &&& !t.contains('/')
    &&& !t.contains('.')
}

/// Spec-level shape of a page path: the directory segments and the stem,
/// each as plain character sequences.
#[verifier::ext_equal]
pub struct PagePathView {
    pub dir: Seq<Seq<char>>,
    pub stem: Seq<char>,
}

impl View for PagePath {
    type V = PagePathView;

    open spec fn view(&self) -> PagePathView {
        PagePathView { dir: views_of(self.dir@), stem: self.stem@ }
    }
}

/// Whether a page-path view is the root index page.
pub open spec fn is_root_index_of(p: PagePathView) -> bool {
    p.dir.len() == 0 && p.stem == "index"@
}

/// The depth of a page-path view: 0 for the root index page, one more
/// than the number of directory segments for every other page.
pub open spec fn depth_of(p: PagePathView) -> nat {
    if is_root_index_of(p) {
        0
    } else {
        p.dir.len() + 1
    }
}

/// Structural well-formedness of a page-path view.
pub open spec fn wf_view(p: PagePathView) -> bool {
    &&& forall|i: int| 0 <= i < p.dir.len() ==> seg_wf(#[trigger] p.dir[i])
    &&& seg_wf(p.stem)
}

impl PagePath {
    /// The directory part, as a sequence of character sequences.
    pub open spec fn dir_view(self) -> Seq<Seq<char>> {
        views_of(self.dir@)
    }

    /// Copy this page path, keeping every segment and the stem.
    pub fn duplicate(&self) -> (r: Self)
        ensures
            r@ == self@,
    {
        let r = PagePath {
            dir: crate::strutil::clone_string_vec(&self.dir),
            stem: self.stem.clone(),
        };
        proof {
            assert(r@ =~~= self@);
        }
        r
    }

    /// Structural well-formedness: every segment is a plain path token and
    /// the stem is one too.
    pub open spec fn wf(self) -> bool {
        wf_view(self@)
    }

    pub open spec fn is_root_index_spec(self) -> bool {
        is_root_index_of(self@)
    }

    /// The number of `../` tokens a link hosted on this page needs in order
    /// to reach the site root.
    pub open spec fn depth_spec(self) -> nat {
        depth_of(self@)
    }

    /// Build a page path from a directory string and a stem; the directory
    /// splits at `/` with empty segments dropped, and an empty stem means
    /// the index page.
    pub fn from_path_stem(path: &str, stem: &str) -> (r: Self)
        ensures
            r.dir_view() == path_segments(path@),
            r.stem@ == if stem@.len() == 0 { "index"@ } else { stem@ },
    {
        let dir = split_path_segments(path);
        let stem = if stem.is_empty() {
            String::from_str("index")
        } else {
            stem.to_owned()
        };
        Self { dir, stem }
    }

    pub fn is_root_index(&self) -> (r: bool)
        ensures
            r == self.is_root_index_spec(),
    {
        self.dir.len() == 0 && str_eq_string(&self.stem, "index")
    }

    /// Depth of this page: 0 for the root index page, one more than the
    /// number of directory segments for every other page.
    pub fn depth(&self) -> (r: usize)
        requires
            self.dir@.len() < usize::MAX,
        ensures
            r == self.depth_spec(),
            self.is_root_index_spec() ==> r == 0,
            !self.is_root_index_spec() ==> r == self.dir@.len() + 1,
    {
        if self.is_root_index() {
            0
        } else {
            1 + self.dir.len()
        }
    }
}

/// A character the page-path string grammar accepts in a name: a
/// letter or digit of any script, an underscore or a hyphen.
pub open spec fn page_name_char(c: char) -> bool {
    crate::strutil::alnum_char(c) || c == '_' || c == '-'
}

/// A well-formed token of a page-path string: non-empty, name
/// characters only.
pub open spec fn page_token_ok(t: Seq<char>) -> bool {
    t.len() > 0 && (forall|j: int| 0 <= j < t.len() ==> page_name_char(#[trigger] t[j]))
}

/// The page-path string with its optional `.md` extension removed.
pub open spec fn page_path_body(s: Seq<char>) -> Seq<char> {
    if ".md"@.is_suffix_of(s) {
        s.take(s.len() - 3)
    } else {
        s
    }
}

/// Whether a string fits the page-path grammar: name tokens separated
/// by single slashes, an optional `.md` extension at the end.
pub open spec fn page_path_str_ok(s: Seq<char>) -> bool {
    let toks = crate::strutil::split_at_sep(page_path_body(s), '/');
    forall|i: int| 0 <= i < toks.len() ==> page_token_ok(#[trigger] toks[i])
}

/// Whether every character of the string is a name character.
fn all_page_name_chars(s: &str) -> (r: bool)
    ensures
        r == (forall|j: int| 0 <= j < s@.len() ==> page_name_char(#[trigger] s@[j])),
{
    let len = s.unicode_len();
    let mut i: usize = 0;
    while i < len
        invariant
            0 <= i <= len,
            len == s@.len(),
            forall|j: int| 0 <= j < i ==> page_name_char(#[trigger] s@[j]),
        decreases len - i,
    {
        let c = s.get_char(i);
        if !(c.is_alphanumeric() || c == '_' || c == '-') {
            return false;
        }
        i += 1;
    }
    true
}

impl PagePath {
    /// Read a page path written as `dir/stem`, with an optional `.md`
    /// extension: every `/`-separated token must be a non-empty name,
    /// the last one is the stem. Anything outside the grammar is
    /// rejected.
    pub fn parse(s: &str) -> (r: Result<Self, crate::error::DdError>)
        ensures
            match r {
                Ok(p) => {
                    let toks = crate::strutil::split_at_sep(page_path_body(s@), '/');
                    &&& page_path_str_ok(s@)
                    &&& p.dir_view() == toks.drop_last()
                    &&& p.stem@ == toks.last()
                },
                Err(e) => !page_path_str_ok(s@) && (e
                    matches crate::error::DdError::InvalidPagePath { path } && path@ == s@),
            },
    {
        proof {
            reveal_strlit(".md");
        }
        let len = s.unicode_len();
        let body = if crate::strutil::str_ends_with(s, ".md") {
            s.substring_char(0, len - 3)
        } else {
            s
        };
        proof {
            assert(body@ =~= page_path_body(s@));
        }
        let mut tokens = crate::strutil::split_str(body, '/');
        let ghost toks = crate::strutil::split_at_sep(page_path_body(s@), '/');
        let mut i: usize = 0;
        while i < tokens.len()
            invariant
                0 <= i <= tokens@.len(),
                toks == crate::strutil::split_at_sep(page_path_body(s@), '/'),
                views_of(tokens@) == toks,
                forall|j: int| 0 <= j < i ==> page_token_ok(#[trigger] toks[j]),
            decreases tokens@.len() - i,
        {
            let t = &tokens[i];
            proof {
                assert(toks[i as int] == tokens@[i as int]@);
            }
            if t.as_str().is_empty() || !all_page_name_chars(t.as_str()) {
                proof {
                    assert(!page_token_ok(toks[i as int]));
                    assert(!page_path_str_ok(s@));
                }
                return Err(crate::error::DdError::InvalidPagePath { path: s.to_owned() });
            }
            i += 1;
        }
        proof {
            crate::strutil::lemma_split_at_sep_len(page_path_body(s@), '/');
        }
        let last = tokens.len() - 1;
        let stem = tokens.remove(last);
        proof {
            assert(views_of(tokens@) =~~= toks.drop_last());
        }
        Ok(PagePath { dir: tokens, stem })
    }
}

/// The text a page path displays as: every segment followed by `/`,
/// then the stem.
pub open spec fn display_of(p: PagePathView) -> Seq<char> {
    join_segments_slash(p.dir) + p.stem
}

impl PagePath {
    /// The page path written out, segments separated by `/`.
    pub fn display_string(&self) -> (r: String)
        ensures
            r@ == display_of(self@),
    {
        proof {
            reveal_strlit("/");
        }
        let mut out = String::new();
        let mut j: usize = 0;
        while j < self.dir.len()
            invariant
                0 <= j <= self.dir@.len(),
                out@ =~= join_segments_slash(self.dir_view().take(j as int)),
            decreases self.dir@.len() - j,
        {
            out.append(self.dir[j].as_str());
            out.append("/");
            proof {
                reveal_strlit("/");
                assert("/"@ =~= seq!['/']);
                assert(self.dir_view().take(j + 1).drop_last() =~= self.dir_view().take(j as int));
                assert(out@ =~= join_segments_slash(self.dir_view().take(j + 1)));
            }
            j += 1;
        }
        proof {
            assert(self.dir_view().take(self.dir@.len() as int) =~= self.dir_view());
        }
        out.append(self.stem.as_str());
        out
    }
}

/// `n` copies of `../`: the prefix that climbs from a page of depth `n`
/// back to the site root.
pub open spec fn ascent(n: nat) -> Seq<char>
    decreases n,
{
    if n == 0 {
        Seq::empty()
    } else {
        ascent((n - 1) as nat) + seq!['.', '.', '/']
    }
}

/// The segments laid out one after the other, each followed by `/`.
pub open spec fn join_segments_slash(segs: Seq<Seq<char>>) -> Seq<char>
    decreases segs.len(),
{
    if segs.len() == 0 {
        Seq::empty()
    } else {
        join_segments_slash(segs.drop_last()) + segs.last() + seq!['/']
    }
}

/// One resolution step of a relative-path token against a directory:
/// `..` pops a segment (clamped at the root), `.` changes nothing, and
/// any other token descends.
pub open spec fn follow_step(dir: Seq<Seq<char>>, token: Seq<char>) -> Seq<Seq<char>> {
    if token == seq!['.', '.'] {
        if dir.len() > 0 {
            dir.drop_last()
        } else {
            dir
        }
    } else if token == seq!['.'] {
        dir
    } else {
        dir.push(token)
    }
}

/// Resolution of a whole token sequence, left to right.
pub open spec fn follow_tokens(dir: Seq<Seq<char>>, tokens: Seq<Seq<char>>) -> Seq<Seq<char>>
    decreases tokens.len(),
{
    if tokens.len() == 0 {
        dir
    } else {
        follow_tokens(follow_step(dir, tokens.first()), tokens.drop_first())
    }
}

/// A base path extended with `/`-separated components.
pub open spec fn join_under(base: Seq<char>, segs: Seq<Seq<char>>) -> Seq<char>
    decreases segs.len(),
{
    if segs.len() == 0 {
        base
    } else {
        join_under(base, segs.drop_last()) + seq!['/'] + segs.last()
    }
}

/// The part of a link that descends to a page from the site root:
/// nothing for the root index, else every directory segment and the
/// stem, each followed by `/`.
pub open spec fn local_link_of(p: PagePathView) -> Seq<char> {
    if is_root_index_of(p) {
        Seq::empty()
    } else {
        join_segments_slash(p.dir) + p.stem + seq!['/']
    }
}

/// The relative link from the page at `host` to the page at `dst`:
/// climb to the root, then descend to `dst`.
pub open spec fn link_of(host: PagePathView, dst: PagePathView) -> Seq<char> {
    ascent(depth_of(host)) + local_link_of(dst)
}

/// The directory a relative link starts from when hosted on a page:
/// the page's own directory, descended into the stem unless the page
/// is an index page.
pub open spec fn start_dir_of(p: PagePathView) -> Seq<Seq<char>> {
    if p.stem == "index"@ {
        p.dir
    } else {
        p.dir.push(p.stem)
    }
}

/// The directory reached by following the relative path `path` from
/// the page at `p`.
pub open spec fn followed_dir_of(p: PagePathView, path: Seq<char>) -> Seq<Seq<char>> {
    follow_tokens(start_dir_of(p), path_segments(path))
}

impl PagePath {
    /// The part of a link that descends to this page from the site root.
    pub open spec fn local_link_spec(self) -> Seq<char> {
        local_link_of(self@)
    }

    /// The relative link from this page to `other`: climb to the root,
    /// then descend to `other`.
    pub open spec fn link_to_spec(self, other: PagePath) -> Seq<char> {
        link_of(self@, other@)
    }

    /// The directory a relative link starts from when hosted on this page.
    pub open spec fn start_dir_spec(self) -> Seq<Seq<char>> {
        start_dir_of(self@)
    }

    /// The directory reached by following the relative path `path` from
    /// this page.
    pub open spec fn followed_dir_spec(self, path: Seq<char>) -> Seq<Seq<char>> {
        followed_dir_of(self@, path)
    }

    /// Relative link from this page to another, as a directory-style URL.
    pub fn link_to(&self, other: &PagePath) -> (r: String)
        requires
            self.dir@.len() < usize::MAX,
        ensures
            r@ == self.link_to_spec(*other),
    {
        proof {
            reveal_strlit("../");
            reveal_strlit("/");
        }
        let mut out = String::new();
        let depth = self.depth();
        let mut i: usize = 0;
        while i < depth
            invariant
                0 <= i <= depth,
                out@ =~= ascent(i as nat),
            decreases depth - i,
        {
            out.append("../");
            proof {
                reveal_strlit("../");
                assert("../"@ =~= seq!['.', '.', '/']);
                assert(out@ =~= ascent((i + 1) as nat));
            }
            i += 1;
        }
        if !other.is_root_index() {
            let ghost base = out@;
            let mut j: usize = 0;
            while j < other.dir.len()
                invariant
                    0 <= j <= other.dir@.len(),
                    out@ =~= base + join_segments_slash(other.dir_view().take(j as int)),
                decreases other.dir@.len() - j,
            {
                out.append(other.dir[j].as_str());
                out.append("/");
                proof {
                    reveal_strlit("/");
                    assert("/"@ =~= seq!['/']);
                    assert(other.dir_view().take(j + 1).drop_last() =~= other.dir_view().take(
                        j as int,
                    ));
                    assert(out@ =~= base + join_segments_slash(other.dir_view().take(j + 1)));
                }
                j += 1;
            }
            out.append(other.stem.as_str());
            out.append("/");
            proof {
                reveal_strlit("/");
                assert("/"@ =~= seq!['/']);
                assert(other.dir_view().take(other.dir@.len() as int) =~= other.dir_view());
                assert(out@ =~= self.link_to_spec(*other));
            }
        }
        out
    }

    /// The location of this page's file under `parent`, with segments
    /// separated by `/` and an optional extension appended to the stem.
    pub fn to_path_buf(&self, parent: &str, ext: Option<&str>) -> (r: String)
        ensures
            match ext {
                Some(e) => r@ == join_under(parent@, self.dir_view()) + seq!['/'] + self.stem@
                    + seq!['.'] + e@,
                None => r@ == join_under(parent@, self.dir_view()) + seq!['/'] + self.stem@,
            },
    {
        proof {
            reveal_strlit("/");
            reveal_strlit(".");
        }
        let mut out = parent.to_owned();
        let mut j: usize = 0;
        while j < self.dir.len()
            invariant
                0 <= j <= self.dir@.len(),
                out@ =~= join_under(parent@, self.dir_view().take(j as int)),
            decreases self.dir@.len() - j,
        {
            out.append("/");
            out.append(self.dir[j].as_str());
            proof {
                reveal_strlit("/");
                assert("/"@ =~= seq!['/']);
                assert(self.dir_view().take(j + 1).drop_last() =~= self.dir_view().take(j as int));
                assert(out@ =~= join_under(parent@, self.dir_view().take(j + 1)));
            }
            j += 1;
        }
        proof {
            assert(self.dir_view().take(self.dir@.len() as int) =~= self.dir_view());
        }
        out.append("/");
        out.append(self.stem.as_str());
        if let Some(e) = ext {
            out.append(".");
            out.append(e);
        }
        proof {
            reveal_strlit("/");
            reveal_strlit(".");
            assert("/"@ =~= seq!['/']);
            assert("."@ =~= seq!['.']);
        }
        out
    }

    /// The location of this page's Markdown source under `parent`.
    pub fn md_path_buf(&self, parent: &str) -> (r: String)
        ensures
            r@ == join_under(parent@, self.dir_view()) + seq!['/'] + self.stem@ + seq!['.']
                + "md"@,
    {
        self.to_path_buf(parent, Some("md"))
    }

    /// The location of this page's generated HTML file under `parent`:
    /// `index.html` right under it for the root index page, else under one
    /// more directory named after the stem.
    pub fn html_path_buf(&self, parent: &str) -> (r: String)
        ensures
            self.is_root_index_spec() ==> r@ == parent@ + seq!['/'] + "index.html"@,
            !self.is_root_index_spec() ==> r@ == join_under(
                parent@,
                self.dir_view().push(self.stem@),
            ) + seq!['/'] + "index.html"@,
    {
        proof {
            reveal_strlit("/");
        }
        let mut out = parent.to_owned();
        if !self.is_root_index() {
            let mut j: usize = 0;
            while j < self.dir.len()
                invariant
                    0 <= j <= self.dir@.len(),
                    out@ =~= join_under(parent@, self.dir_view().take(j as int)),
                decreases self.dir@.len() - j,
            {
                out.append("/");
                out.append(self.dir[j].as_str());
                proof {
                    reveal_strlit("/");
                    assert("/"@ =~= seq!['/']);
                    assert(self.dir_view().take(j + 1).drop_last() =~= self.dir_view().take(
                        j as int,
                    ));
                    assert(out@ =~= join_under(parent@, self.dir_view().take(j + 1)));
                }
                j += 1;
            }
            out.append("/");
            out.append(self.stem.as_str());
            proof {
                reveal_strlit("/");
                assert("/"@ =~= seq!['/']);
                assert(self.dir_view().take(self.dir@.len() as int) =~= self.dir_view());
                assert(self.dir_view().push(self.stem@).drop_last() =~= self.dir_view());
                assert(out@ =~= join_under(parent@, self.dir_view().push(self.stem@)));
            }
        }
        out.append("/");
        out.append("index.html");
        proof {
            reveal_strlit("/");
            assert("/"@ =~= seq!['/']);
        }
        out
    }

    /// Follow a relative link (directory part and stem) authored on this
    /// page: descend from the hosting location, resolving `.` and `..`
    /// tokens, never climbing above the site root.
    pub fn follow_relative_link(&self, path: &str, stem: &str) -> (r: Self)
        ensures
            r.dir_view() == self.followed_dir_spec(path@),
            r.stem@ == if stem@.len() == 0 { "index"@ } else { stem@ },
    {
        let mut dir = crate::strutil::clone_string_vec(&self.dir);
        if !str_eq_string(&self.stem, "index") {
            dir.push(self.stem.clone());
        }
        proof {
            assert(views_of(dir@) =~~= self.start_dir_spec());
        }
        let ghost start = views_of(dir@);
        let tokens = split_path_segments(path);
        let ghost token_views = views_of(tokens@);
        proof {
            assert(token_views.skip(0) =~= token_views);
        }
        let mut i: usize = 0;
        while i < tokens.len()
            invariant
                0 <= i <= tokens@.len(),
                token_views == views_of(tokens@),
                token_views == path_segments(path@),
                follow_tokens(views_of(dir@), token_views.skip(i as int)) == follow_tokens(
                    start,
                    token_views,
                ),
            decreases tokens@.len() - i,
        {
            let ghost before = views_of(dir@);
            proof {
                assert(token_views.skip(i as int).first() == token_views[i as int]);
                assert(token_views.skip(i as int).drop_first() =~= token_views.skip(i + 1));
            }
            if str_eq_string(&tokens[i], "..") {
                proof {
                    reveal_strlit("..");
                    assert(".."@ =~= seq!['.', '.']);
                }
                if dir.len() > 0 {
                    dir.pop();
                    proof {
                        assert(views_of(dir@) =~~= before.drop_last());
                    }
                }
            } else if str_eq_string(&tokens[i], ".") {
                proof {
                    reveal_strlit(".");
                    assert("."@ =~= seq!['.']);
                }
            } else {
                dir.push(tokens[i].clone());
                proof {
                    reveal_strlit(".");
                    reveal_strlit("..");
                    assert("."@ =~= seq!['.']);
                    assert(".."@ =~= seq!['.', '.']);
                    assert(views_of(dir@) =~~= before.push(token_views[i as int]));
                }
            }
            proof {
                assert(views_of(dir@) =~~= follow_step(before, token_views[i as int]));
            }
            i += 1;
        }
        proof {
            assert(token_views.skip(tokens@.len() as int) =~= Seq::<Seq<char>>::empty());
        }
        let stem = if stem.is_empty() {
            String::from_str("index")
        } else {
            stem.to_owned()
        };
        PagePath { dir, stem }
    }
}

impl PartialEq for PagePath {
    fn eq(&self, other: &PagePath) -> (r: bool) {
        if self.dir.len() != other.dir.len() {
            return false;
        }
        if !str_eq_string(&self.stem, other.stem.as_str()) {
            return false;
        }
        let mut i: usize = 0;
        while i < self.dir.len()
            invariant
                0 <= i <= self.dir@.len(),
                self.dir@.len() == other.dir@.len(),
                self.stem@ == other.stem@,
                forall|j: int| 0 <= j < i ==> self.dir_view()[j] == other.dir_view()[j],
            decreases self.dir@.len() - i,
        {
            if !str_eq_string(&self.dir[i], other.dir[i].as_str()) {
                proof {
                    assert(self.dir_view()[i as int] != other.dir_view()[i as int]);
                }
                return false;
            }
            i += 1;
        }
        proof {
            assert(self.dir_view() =~= other.dir_view());
        }
        true
    }
}

impl Eq for PagePath {

}

impl vstd::std_specs::cmp::PartialEqSpecImpl for PagePath {
    open spec fn obeys_eq_spec() -> bool {
        true
    }

    open spec fn eq_spec(&self, other: &PagePath) -> bool {
        self.dir_view() == other.dir_view() && self.stem@ == other.stem@
    }
}

} // verus!
