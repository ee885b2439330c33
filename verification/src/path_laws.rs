use vstd::prelude::*;
use crate::page_path::{
    ascent, depth_of, follow_tokens, followed_dir_of, is_root_index_of, join_segments_slash,
    link_of, local_link_of, seg_wf, start_dir_of, wf_view, PagePathView,
};
use crate::strutil::{path_segments, split_at_sep};

verus! {

/// A string without the separator splits into itself alone.
pub proof fn lemma_split_sep_free(t: Seq<char>, sep: char)
    requires
        !t.contains(sep),
    ensures
        split_at_sep(t, sep) == seq![t],
    decreases t.len(),
{
    if t.len() == 0 {
        assert(split_at_sep(t, sep) =~~= seq![t]);
    } else {
        assert(!t.drop_last().contains(sep)) by {
            if t.drop_last().contains(sep) {
                let i = choose|i: int| 0 <= i < t.drop_last().len() && t.drop_last()[i] == sep;
                assert(t[i] == sep);
            }
        }
        lemma_split_sep_free(t.drop_last(), sep);
        assert(t.last() != sep);
        assert(split_at_sep(t, sep) =~~= seq![t]);
    }
}

/// Splitting a concatenation whose first part ends with the separator
/// splits each part on its own.
pub proof fn lemma_split_concat(a: Seq<char>, b: Seq<char>, sep: char)
    requires
        a.len() > 0,
        a.last() == sep,
    ensures
        split_at_sep(a + b, sep) == split_at_sep(a, sep).drop_last() + split_at_sep(b, sep),
    decreases b.len(),
{
    crate::strutil::lemma_split_at_sep_len(b, sep);
    if b.len() == 0 {
        assert(a + b =~= a);
        assert(split_at_sep(b, sep) =~~= seq![Seq::<char>::empty()]);
        assert(split_at_sep(a, sep) =~~= split_at_sep(a.drop_last(), sep).push(Seq::empty()));
        assert(split_at_sep(a + b, sep) =~~= split_at_sep(a, sep).drop_last() + split_at_sep(
            b,
            sep,
        ));
    } else {
        lemma_split_concat(a, b.drop_last(), sep);
        crate::strutil::lemma_split_at_sep_len(b.drop_last(), sep);
        assert((a + b).drop_last() =~= a + b.drop_last());
        assert((a + b).last() == b.last());
        if b.last() == sep {
            assert(split_at_sep(a + b, sep) =~~= split_at_sep(a, sep).drop_last() + split_at_sep(
                b,
                sep,
            ));
        } else {
            assert(split_at_sep(a + b, sep) =~~= split_at_sep(a, sep).drop_last() + split_at_sep(
                b,
                sep,
            ));
        }
    }
}

/// Path segments of a concatenation, when the first part is empty or ends
/// with `/`, are the segments of the parts, one after the other.
pub proof fn lemma_segments_concat(a: Seq<char>, b: Seq<char>)
    requires
        a.len() == 0 || a.last() == '/',
    ensures
        path_segments(a + b) == path_segments(a) + path_segments(b),
{
    broadcast use Seq::filter_distributes_over_add;

    if a.len() == 0 {
        assert(a + b =~= b);
        assert(path_segments(a) =~~= Seq::<Seq<char>>::empty()) by {
            reveal_with_fuel(Seq::filter, 3);
        }
        assert(path_segments(a) + path_segments(b) =~= path_segments(b));
    } else {
        lemma_split_concat(a, b, '/');
        crate::strutil::lemma_split_at_sep_len(a.drop_last(), '/');
        let sa = split_at_sep(a, '/');
        assert(sa == split_at_sep(a.drop_last(), '/').push(Seq::<char>::empty()));
        assert(sa =~= sa.drop_last().push(Seq::<char>::empty()));
        assert(sa.drop_last() + seq![Seq::<char>::empty()] =~= sa);
        assert(path_segments(a) == (sa.drop_last() + seq![Seq::<char>::empty()]).filter(
            |t: Seq<char>| t.len() > 0,
        ));
        assert(seq![Seq::<char>::empty()].filter(|t: Seq<char>| t.len() > 0)
            =~= Seq::<Seq<char>>::empty()) by {
            reveal(Seq::filter);
        }
        assert(path_segments(a) =~= sa.drop_last().filter(|t: Seq<char>| t.len() > 0));
        assert(split_at_sep(a + b, '/') == sa.drop_last() + split_at_sep(b, '/'));
        assert(path_segments(a + b) =~= path_segments(a) + path_segments(b));
    }
}

/// A single well-formed segment followed by `/` reads back as that one
/// segment.
pub proof fn lemma_segments_single(t: Seq<char>)
    requires
        t.len() > 0,
        !t.contains('/'),
    ensures
        path_segments(t + seq!['/']) == seq![t],
{
    lemma_split_sep_free(t, '/');
    assert((t + seq!['/']).drop_last() =~= t);
    assert((t + seq!['/']).last() == '/');
    assert(split_at_sep(t + seq!['/'], '/') =~~= seq![t, Seq::<char>::empty()]);
    reveal_with_fuel(Seq::filter, 3);
    assert(seq![t, Seq::<char>::empty()].drop_last() =~= seq![t]);
    assert(seq![t].drop_last() =~= Seq::<Seq<char>>::empty());
    assert(path_segments(t + seq!['/']) =~= seq![t]);
}

/// The ascent prefix of depth `n` reads back as `n` dot-dot tokens.
pub proof fn lemma_segments_ascent(n: nat)
    ensures
        path_segments(ascent(n)) == Seq::new(n, |i: int| seq!['.', '.']),
        ascent(n).len() == 0 || ascent(n).last() == '/',
    decreases n,
{
    if n == 0 {
        assert(path_segments(ascent(0)) =~~= Seq::new(0, |i: int| seq!['.', '.'])) by {
            reveal_with_fuel(Seq::filter, 3);
        }
    } else {
        lemma_segments_ascent((n - 1) as nat);
        lemma_segments_concat(ascent((n - 1) as nat), seq!['.', '.', '/']);
        assert(!seq!['.', '.'].contains('/'));
        lemma_segments_single(seq!['.', '.']);
        assert(seq!['.', '.'] + seq!['/'] =~= seq!['.', '.', '/']);
        assert(ascent(n).last() == '/');
        assert(path_segments(ascent(n)) =~= Seq::new(n, |i: int| seq!['.', '.']));
    }
}

/// Joined well-formed segments read back as themselves.
pub proof fn lemma_segments_join(segs: Seq<Seq<char>>)
    requires
        forall|i: int| 0 <= i < segs.len() ==> seg_wf(#[trigger] segs[i]),
    ensures
        path_segments(join_segments_slash(segs)) == segs,
        join_segments_slash(segs).len() == 0 || join_segments_slash(segs).last() == '/',
    decreases segs.len(),
{
    if segs.len() == 0 {
        assert(path_segments(join_segments_slash(segs)) =~~= segs) by {
            reveal_with_fuel(Seq::filter, 3);
        }
    } else {
        lemma_segments_join(segs.drop_last());
        lemma_segments_concat(join_segments_slash(segs.drop_last()), segs.last() + seq!['/']);
        lemma_segments_single(segs.last());
        assert(join_segments_slash(segs) == join_segments_slash(segs.drop_last()) + (segs.last()
            + seq!['/'])) by {
            assert(join_segments_slash(segs.drop_last()) + segs.last() + seq!['/']
                =~= join_segments_slash(segs.drop_last()) + (segs.last() + seq!['/']));
        }
        assert((segs.last() + seq!['/']).last() == '/');
        assert(path_segments(join_segments_slash(segs)) =~= segs);
    }
}

/// Following tokens that are all plain segments descends into each one.
pub proof fn lemma_follow_plain(dir: Seq<Seq<char>>, segs: Seq<Seq<char>>)
    requires
        forall|i: int| 0 <= i < segs.len() ==> seg_wf(#[trigger] segs[i]),
    ensures
        follow_tokens(dir, segs) == dir + segs,
    decreases segs.len(),
{
    if segs.len() == 0 {
        assert(follow_tokens(dir, segs) =~= dir + segs);
    } else {
        assert(seg_wf(segs.first()));
        assert(segs.first() != seq!['.', '.'] && segs.first() != seq!['.']) by {
            assert(seq!['.', '.'][0] == '.');
            assert(seq!['.', '.'].contains('.'));
            assert(seq!['.'][0] == '.');
            assert(seq!['.'].contains('.'));
        }
        lemma_follow_plain(dir.push(segs.first()), segs.drop_first());
        assert(dir.push(segs.first()) + segs.drop_first() =~= dir + segs);
    }
}

/// Following exactly as many dot-dot tokens as the directory is deep, then
/// plain segments, lands in exactly those segments.
pub proof fn lemma_follow_ups_then_down(dir: Seq<Seq<char>>, n: nat, segs: Seq<Seq<char>>)
    requires
        dir.len() == n,
        forall|i: int| 0 <= i < segs.len() ==> seg_wf(#[trigger] segs[i]),
    ensures
        follow_tokens(dir, Seq::new(n, |i: int| seq!['.', '.']) + segs) == segs,
    decreases n,
{
    let ups = Seq::new(n, |i: int| seq!['.', '.']);
    if n == 0 {
        assert(ups + segs =~= segs);
        lemma_follow_plain(dir, segs);
        assert(dir + segs =~= segs);
    } else {
        let tokens = ups + segs;
        assert(tokens.first() == seq!['.', '.']);
        assert(follow_tokens(dir, tokens) == follow_tokens(dir.drop_last(), tokens.drop_first()));
        assert(tokens.drop_first() =~= Seq::new((n - 1) as nat, |i: int| seq!['.', '.']) + segs);
        lemma_follow_ups_then_down(dir.drop_last(), (n - 1) as nat, segs);
    }
}

/// Resolving the directory part of `host.link_to(dst)` from `host`, with
/// `dst`'s stem, lands back on `dst`: links computed by the path algebra
/// round-trip, for any host whose own location does not sit above the
/// site root (a non-root page whose stem is `index` climbs one level too
/// high, and is left out).
pub proof fn lemma_link_round_trip(host: PagePathView, dst: PagePathView)
    requires
        wf_view(host),
        wf_view(dst),
        is_root_index_of(host) || host.stem != "index"@,
    ensures
        followed_dir_of(host, ascent(depth_of(host)) + join_segments_slash(dst.dir)) == dst.dir,
{
    let n = depth_of(host);
    let dir_part = ascent(n) + join_segments_slash(dst.dir);
    lemma_segments_ascent(n);
    lemma_segments_join(dst.dir);
    lemma_segments_concat(ascent(n), join_segments_slash(dst.dir));
    assert(path_segments(dir_part) == Seq::new(n, |i: int| seq!['.', '.']) + dst.dir);
    assert(start_dir_of(host).len() == n) by {
        if is_root_index_of(host) {
            assert(host.stem == "index"@);
        } else {
        }
    }
    lemma_follow_ups_then_down(start_dir_of(host), n, dst.dir);
}

/// No dot occurs in joined well-formed segments.
pub proof fn lemma_join_no_dot(segs: Seq<Seq<char>>)
    requires
        forall|i: int| 0 <= i < segs.len() ==> seg_wf(#[trigger] segs[i]),
    ensures
        !join_segments_slash(segs).contains('.'),
    decreases segs.len(),
{
    if segs.len() > 0 {
        lemma_join_no_dot(segs.drop_last());
        let j = join_segments_slash(segs);
        let prev = join_segments_slash(segs.drop_last());
        if j.contains('.') {
            let i = choose|i: int| 0 <= i < j.len() && j[i] == '.';
            if i < prev.len() {
                assert(prev[i] == '.');
            } else if i < prev.len() + segs.last().len() {
                assert(segs.last()[i - prev.len()] == '.');
                assert(segs.last().contains('.'));
            } else {
                assert(j[i] == '/');
            }
        }
    }
}

/// The self link of a page never descends through a dot-dot token after
/// its ascent prefix, and ends with the page's stem followed by `/`; for
/// the root index page it is empty outright.
pub proof fn lemma_self_link_shape(p: PagePathView)
    requires
        wf_view(p),
    ensures
        is_root_index_of(p) ==> link_of(p, p).len() == 0,
        !is_root_index_of(p) ==> link_of(p, p) == ascent(depth_of(p)) + local_link_of(p),
        !is_root_index_of(p) ==> local_link_of(p).skip(
            local_link_of(p).len() - p.stem.len() - 1,
        ) == p.stem + seq!['/'],
        forall|k: int|
            0 <= k && k + 3 <= local_link_of(p).len() ==> #[trigger] local_link_of(p).subrange(
                k,
                k + 3,
            ) != seq!['.', '.', '/'],
{
    lemma_join_no_dot(p.dir);
    if is_root_index_of(p) {
        assert(link_of(p, p).len() == 0);
    } else {
        let local = local_link_of(p);
        let jd = join_segments_slash(p.dir);
        assert(local.skip(local.len() - p.stem.len() - 1) =~= p.stem + seq!['/']);
        assert forall|k: int| 0 <= k && k + 3 <= local.len() implies #[trigger] local.subrange(
            k,
            k + 3,
        ) != seq!['.', '.', '/'] by {
            if local.subrange(k, k + 3) == seq!['.', '.', '/'] {
                assert(local[k] == '.');
                if k < jd.len() {
                    assert(jd[k] == '.');
                    assert(jd.contains('.'));
                } else if k < jd.len() + p.stem.len() {
                    assert(p.stem[k - jd.len()] == '.');
                    assert(p.stem.contains('.'));
                } else {
                    assert(local[k] == '/');
                }
            }
        }
    }
}

} // verus!
