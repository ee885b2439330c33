use vstd::prelude::*;
use vstd::string::StrSliceExecFns;

verus! {

/// Relies on `String::push`: it appends the given character to the end
/// of the string.
pub assume_specification[ std::string::String::push ](s: &mut String, ch: char)
    ensures
        final(s)@ == old(s)@.push(ch),
;

/// Whether the character counts as alphanumeric, as Unicode defines it.
pub uninterp spec fn alnum_char(c: char) -> bool;

/// Relies on `char::is_alphanumeric`: whether the character is a
/// Unicode letter or number.
pub assume_specification[ char::is_alphanumeric ](c: char) -> (r: bool)
    ensures
        r == alnum_char(c),
;

/// The views of a sequence of owned strings.
pub open spec fn views_of(v: Seq<String>) -> Seq<Seq<char>> {
    v.map_values(|x: String| x@)
}

/// Splitting a string at every occurrence of `sep`, keeping empty tokens;
/// the result always holds at least one token, as `str::split` does.
pub open spec fn split_at_sep(s: Seq<char>, sep: char) -> Seq<Seq<char>>
    decreases s.len(),
{
    if s.len() == 0 {
        seq![Seq::empty()]
    } else {
        let r = split_at_sep(s.drop_last(), sep);
        if s.last() == sep {
            r.push(Seq::empty())
        } else {
            r.update(r.len() - 1, r.last().push(s.last()))
        }
    }
}

pub proof fn lemma_split_at_sep_len(s: Seq<char>, sep: char)
    ensures
        split_at_sep(s, sep).len() >= 1,
    decreases s.len(),
{
    if s.len() != 0 {
        lemma_split_at_sep_len(s.drop_last(), sep);
    }
}

/// The non-empty tokens between occurrences of `/`: the canonical way this
/// crate reads a path string as directory segments.
pub open spec fn path_segments(s: Seq<char>) -> Seq<Seq<char>> {
    split_at_sep(s, '/').filter(|t: Seq<char>| t.len() > 0)
}

/// Whether two string slices hold the same characters.
pub fn str_eq(a: &str, b: &str) -> (r: bool)
    ensures
        r <==> a@ == b@,
{
    let a_len = a.unicode_len();
    let b_len = b.unicode_len();
    if a_len != b_len {
        return false;
    }
    let mut i: usize = 0;
    while i < a_len
        invariant
            0 <= i <= a_len,
            a_len == a@.len() == b@.len(),
            forall|j: int| 0 <= j < i ==> a@[j] == b@[j],
        decreases a_len - i,
    {
        if a.get_char(i) != b.get_char(i) {
            return false;
        }
        i += 1;
    }
    proof {
        assert(a@ =~= b@);
    }
    true
}

/// Whether a string slice and an owned string hold the same characters.
pub fn str_eq_string(a: &String, b: &str) -> (r: bool)
    ensures
        r <==> a@ == b@,
{
    str_eq(a.as_str(), b)
}

/// Copy a vector of strings, keeping every character.
pub fn clone_string_vec(v: &Vec<String>) -> (r: Vec<String>)
    ensures
        views_of(r@) == views_of(v@),
        r@.len() == v@.len(),
{
    let mut r: Vec<String> = Vec::new();
    let mut i: usize = 0;
    while i < v.len()
        invariant
            0 <= i <= v@.len(),
            r@.len() == i,
            forall|j: int| 0 <= j < i ==> r@[j]@ == v@[j]@,
        decreases v@.len() - i,
    {
        r.push(v[i].clone());
        i += 1;
    }
    proof {
        assert(views_of(r@) =~~= views_of(v@));
    }
    r
}

/// Whether `p` begins `s`.
pub fn str_starts_with(s: &str, p: &str) -> (r: bool)
    ensures
        r == p@.is_prefix_of(s@),
{
    let s_len = s.unicode_len();
    let p_len = p.unicode_len();
    if p_len > s_len {
        proof {
            assert(!p@.is_prefix_of(s@));
        }
        return false;
    }
    let mut i: usize = 0;
    while i < p_len
        invariant
            0 <= i <= p_len,
            p_len == p@.len() <= s@.len() == s_len,
            forall|j: int| 0 <= j < i ==> s@[j] == p@[j],
        decreases p_len - i,
    {
        if s.get_char(i) != p.get_char(i) {
            proof {
                assert(s@.subrange(0, p@.len() as int)[i as int] == s@[i as int]);
            }
            return false;
        }
        i += 1;
    }
    proof {
        assert(p@ =~= s@.subrange(0, p@.len() as int));
    }
    true
}

/// Whether `p` ends `s`.
pub fn str_ends_with(s: &str, p: &str) -> (r: bool)
    ensures
        r == p@.is_suffix_of(s@),
{
    let s_len = s.unicode_len();
    let p_len = p.unicode_len();
    if p_len > s_len {
        proof {
            assert(!p@.is_suffix_of(s@));
        }
        return false;
    }
    let base = s_len - p_len;
    let mut i: usize = 0;
    while i < p_len
        invariant
            0 <= i <= p_len,
            p_len == p@.len() <= s@.len() == s_len,
            base == s@.len() - p@.len(),
            forall|j: int| 0 <= j < i ==> s@[base + j] == p@[j],
        decreases p_len - i,
    {
        if s.get_char(base + i) != p.get_char(i) {
            proof {
                assert(s@.subrange(base as int, s@.len() as int)[i as int] == s@[base + i]);
            }
            return false;
        }
        i += 1;
    }
    proof {
        assert(p@ =~= s@.subrange(base as int, s@.len() as int));
    }
    true
}

/// Index of the first occurrence of `c`, or -1 when absent.
pub open spec fn first_idx_of_char(s: Seq<char>, c: char) -> int
    decreases s.len(),
{
    if s.len() == 0 {
        -1
    } else if s.first() == c {
        0
    } else {
        let r = first_idx_of_char(s.drop_first(), c);
        if r < 0 {
            -1
        } else {
            r + 1
        }
    }
}

/// Index of the last occurrence of `c`, or -1 when absent.
pub open spec fn last_idx_of_char(s: Seq<char>, c: char) -> int
    decreases s.len(),
{
    if s.len() == 0 {
        -1
    } else if s.last() == c {
        s.len() - 1
    } else {
        last_idx_of_char(s.drop_last(), c)
    }
}

/// Find the first occurrence of `c`.
pub fn find_char(s: &str, c: char) -> (r: Option<usize>)
    ensures
        match r {
            Some(i) => i < s@.len() && s@[i as int] == c && first_idx_of_char(s@, c) == i,
            None => first_idx_of_char(s@, c) == -1,
        },
{
    let len = s.unicode_len();
    let mut i: usize = 0;
    while i < len
        invariant
            0 <= i <= len,
            len == s@.len(),
            forall|j: int| 0 <= j < i ==> s@[j] != c,
        decreases len - i,
    {
        if s.get_char(i) == c {
            proof {
                lemma_first_idx_found(s@, c, i as int);
            }
            return Some(i);
        }
        i += 1;
    }
    proof {
        lemma_first_idx_absent(s@, c);
    }
    None
}

/// Find the last occurrence of `c`.
pub fn rfind_char(s: &str, c: char) -> (r: Option<usize>)
    ensures
        match r {
            Some(i) => i < s@.len() && s@[i as int] == c && last_idx_of_char(s@, c) == i,
            None => last_idx_of_char(s@, c) == -1,
        },
{
    let len = s.unicode_len();
    let mut i: usize = len;
    while i > 0
        invariant
            0 <= i <= len,
            len == s@.len(),
            forall|j: int| i <= j < len ==> s@[j] != c,
        decreases i,
    {
        i -= 1;
        if s.get_char(i) == c {
            proof {
                lemma_last_idx_found(s@, c, i as int);
            }
            return Some(i);
        }
    }
    proof {
        lemma_last_idx_absent(s@, c);
    }
    None
}

/// Index of the first occurrence of `pat`, or -1 when absent.
pub open spec fn first_sub_idx(s: Seq<char>, pat: Seq<char>) -> int
    decreases s.len(),
{
    if pat.is_prefix_of(s) {
        0
    } else if s.len() == 0 {
        -1
    } else {
        let r = first_sub_idx(s.drop_first(), pat);
        if r < 0 {
            -1
        } else {
            r + 1
        }
    }
}

/// Find the first occurrence of `pat`.
pub fn find_sub(s: &str, pat: &str) -> (r: Option<usize>)
    ensures
        match r {
            Some(i) => i <= s@.len() && first_sub_idx(s@, pat@) == i,
            None => first_sub_idx(s@, pat@) == -1,
        },
{
    let len = s.unicode_len();
    let plen = pat.unicode_len();
    if plen == 0 {
        proof {
            assert(pat@ =~= s@.subrange(0, 0));
            assert(pat@.is_prefix_of(s@));
        }
        return Some(0);
    }
    let mut k: usize = 0;
    while k < len
        invariant
            0 <= k <= len,
            len == s@.len(),
            plen == pat@.len(),
            forall|j: int| 0 <= j < k ==> !pat@.is_prefix_of(s@.skip(j)),
        decreases len - k,
    {
        if plen <= len - k {
            let piece = s.substring_char(k, k + plen);
            if str_eq(piece, pat) {
                proof {
                    assert(pat@ =~= s@.skip(k as int).subrange(0, pat@.len() as int));
                    lemma_first_sub_found(s@, pat@, k as int);
                }
                return Some(k);
            }
            proof {
                if pat@.is_prefix_of(s@.skip(k as int)) {
                    assert(piece@ =~= pat@);
                }
            }
        } else {
            proof {
                if pat@.is_prefix_of(s@.skip(k as int)) {
                    assert(pat@.len() <= s@.skip(k as int).len());
                }
            }
        }
        k += 1;
    }
    proof {
        lemma_first_sub_absent(s@, pat@);
    }
    None
}

/// When the first occurrence of `pat` starts at `i`, that is its index.
proof fn lemma_first_sub_found(s: Seq<char>, pat: Seq<char>, i: int)
    requires
        0 <= i <= s.len(),
        pat.is_prefix_of(s.skip(i)),
        forall|j: int| 0 <= j < i ==> !pat.is_prefix_of(s.skip(j)),
    ensures
        first_sub_idx(s, pat) == i,
    decreases i,
{
    if i == 0 {
        assert(s.skip(0) =~= s);
    } else {
        assert(s.skip(0) =~= s);
        assert(!pat.is_prefix_of(s));
        assert forall|j: int| 0 <= j < i - 1 implies !pat.is_prefix_of(
            s.drop_first().skip(j),
        ) by {
            assert(s.drop_first().skip(j) =~= s.skip(j + 1));
        }
        assert(s.drop_first().skip(i - 1) =~= s.skip(i));
        lemma_first_sub_found(s.drop_first(), pat, i - 1);
    }
}

/// A non-empty pattern that starts nowhere has no index.
proof fn lemma_first_sub_absent(s: Seq<char>, pat: Seq<char>)
    requires
        pat.len() > 0,
        forall|j: int| 0 <= j < s.len() ==> !pat.is_prefix_of(s.skip(j)),
    ensures
        first_sub_idx(s, pat) == -1,
    decreases s.len(),
{
    if s.len() > 0 {
        assert(s.skip(0) =~= s);
        assert forall|j: int| 0 <= j < s.drop_first().len() implies !pat.is_prefix_of(
            s.drop_first().skip(j),
        ) by {
            assert(s.drop_first().skip(j) =~= s.skip(j + 1));
        }
        lemma_first_sub_absent(s.drop_first(), pat);
    }
}

/// When the first occurrence of `c` is at `i`, that is its index.
proof fn lemma_first_idx_found(s: Seq<char>, c: char, i: int)
    requires
        0 <= i < s.len(),
        s[i] == c,
        forall|j: int| 0 <= j < i ==> s[j] != c,
    ensures
        first_idx_of_char(s, c) == i,
    decreases i,
{
    if i > 0 {
        lemma_first_idx_found(s.drop_first(), c, i - 1);
    }
}

/// A character that occurs nowhere has no index.
proof fn lemma_first_idx_absent(s: Seq<char>, c: char)
    requires
        forall|j: int| 0 <= j < s.len() ==> s[j] != c,
    ensures
        first_idx_of_char(s, c) == -1,
    decreases s.len(),
{
    if s.len() > 0 {
        lemma_first_idx_absent(s.drop_first(), c);
    }
}

/// When the last occurrence of `c` is at `i`, that is its index.
proof fn lemma_last_idx_found(s: Seq<char>, c: char, i: int)
    requires
        0 <= i < s.len(),
        s[i] == c,
        forall|j: int| i < j < s.len() ==> s[j] != c,
    ensures
        last_idx_of_char(s, c) == i,
    decreases s.len(),
{
    if i < s.len() - 1 {
        lemma_last_idx_found(s.drop_last(), c, i);
    }
}

/// A character that occurs nowhere has no index.
proof fn lemma_last_idx_absent(s: Seq<char>, c: char)
    requires
        forall|j: int| 0 <= j < s.len() ==> s[j] != c,
    ensures
        last_idx_of_char(s, c) == -1,
    decreases s.len(),
{
    if s.len() > 0 {
        lemma_last_idx_absent(s.drop_last(), c);
    }
}

/// Split a string at every occurrence of `sep`, keeping empty tokens,
/// as `str::split` does.
pub fn split_str(s: &str, sep: char) -> (r: Vec<String>)
    ensures
        views_of(r@) == split_at_sep(s@, sep),
{
    let len = s.unicode_len();
    let mut tokens: Vec<String> = Vec::new();
    let mut start: usize = 0;
    let mut i: usize = 0;
    while i < len
        invariant
            0 <= start <= i <= len,
            len == s@.len(),
            views_of(tokens@).push(s@.subrange(start as int, i as int)) =~~= split_at_sep(
                s@.take(i as int),
                sep,
            ),
        decreases len - i,
    {
        let c = s.get_char(i);
        proof {
            assert(s@.take(i + 1).drop_last() =~= s@.take(i as int));
            assert(s@.take(i + 1).last() == s@[i as int]);
        }
        if c == sep {
            let ghost old_tokens = tokens@;
            tokens.push(s.substring_char(start, i).to_owned());
            proof {
                assert(views_of(tokens@) =~~= views_of(old_tokens).push(
                    s@.subrange(start as int, i as int),
                ));
                assert(views_of(tokens@).push(Seq::empty()) =~~= split_at_sep(
                    s@.take(i + 1),
                    sep,
                ));
            }
            start = i + 1;
            proof {
                assert(s@.subrange(start as int, i + 1) =~= Seq::<char>::empty());
            }
        } else {
            proof {
                assert(s@.subrange(start as int, i + 1) =~= s@.subrange(
                    start as int,
                    i as int,
                ).push(s@[i as int]));
                lemma_split_at_sep_len(s@.take(i as int), sep);
                assert(views_of(tokens@).push(s@.subrange(start as int, i + 1)) =~~= split_at_sep(
                    s@.take(i + 1),
                    sep,
                ));
            }
        }
        i += 1;
    }
    let ghost old_tokens = tokens@;
    tokens.push(s.substring_char(start, len).to_owned());
    proof {
        assert(s@.take(len as int) =~= s@);
        assert(views_of(tokens@) =~~= views_of(old_tokens).push(
            s@.subrange(start as int, len as int),
        ));
        assert(views_of(tokens@) =~~= split_at_sep(s@, sep));
    }
    tokens
}

/// Split a string at `/` and drop the empty tokens.
pub fn split_path_segments(s: &str) -> (r: Vec<String>)
    ensures
        views_of(r@) == path_segments(s@),
{
    let all = split_str(s, '/');
    let mut kept: Vec<String> = Vec::new();
    proof {
        reveal(Seq::filter);
        assert(views_of(all@).take(0).filter(|t: Seq<char>| t.len() > 0) =~~= Seq::empty());
    }
    let mut i: usize = 0;
    while i < all.len()
        invariant
            0 <= i <= all@.len(),
            views_of(all@) == split_at_sep(s@, '/'),
            views_of(kept@) =~~= views_of(all@).take(i as int).filter(
                |t: Seq<char>| t.len() > 0,
            ),
        decreases all@.len() - i,
    {
        proof {
            reveal(Seq::filter);
            assert(views_of(all@).take(i + 1).drop_last() =~= views_of(all@).take(i as int));
        }
        let ghost old_kept = kept@;
        if !all[i].as_str().is_empty() {
            kept.push(all[i].clone());
            proof {
                assert(views_of(kept@) =~~= views_of(old_kept).push(all@[i as int]@));
            }
        }
        proof {
            assert(views_of(all@).take(i + 1).last() == all@[i as int]@);
            assert(views_of(kept@) =~~= views_of(all@).take(i + 1).filter(
                |t: Seq<char>| t.len() > 0,
            ));
        }
        i += 1;
    }
    proof {
        reveal(Seq::filter);
        assert(views_of(all@).take(all@.len() as int) =~= views_of(all@));
        assert(views_of(kept@) =~~= path_segments(s@));
    }
    kept
}

} // verus!
