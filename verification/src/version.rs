use vstd::prelude::*;

verus! {

/// The version of this crate, as given in its manifest.
pub const DDOC_VERSION: &'static str = "0.12.0";

/// Numeric value of a sequence of decimal digit characters.
pub open spec fn digits_value(s: Seq<char>) -> nat
    decreases s.len(),
{
    if s.len() == 0 {
        0
    } else {
        (digits_value(s.drop_last()) * 10 + (s.last() as int - '0' as int)) as nat
    }
}

/// A version component parses to its numeric value when it is all digits
/// and fits in a `u32`; anything else counts as zero.
pub open spec fn component_value(s: Seq<char>) -> nat {
    if s.len() > 0 && (forall|i: int| 0 <= i < s.len() ==> '0' <= #[trigger] s[i] <= '9')
        && digits_value(s) <= u32::MAX {
        digits_value(s)
    } else {
        0
    }
}

/// Parse a version component: the numeric value of an all-digit string
/// fitting in a `u32`, else 0.
pub fn parse_component(s: &str) -> (r: u32)
    ensures
        r as nat == component_value(s@),
{
    let len = s.unicode_len();
    if len == 0 {
        return 0;
    }
    let mut value: u64 = 0;
    let mut i: usize = 0;
    while i < len
        invariant
            0 <= i <= len,
            len == s@.len(),
            forall|j: int| 0 <= j < i ==> '0' <= #[trigger] s@[j] <= '9',
            value == digits_value(s@.take(i as int)),
            value <= u32::MAX as u64,
        decreases len - i,
    {
        let c = s.get_char(i);
        if c < '0' || c > '9' {
            return 0;
        }
        let d: u64 = (c as u32 as u64) - 48;
        assert(s@.take(i + 1).drop_last() =~= s@.take(i as int));
        value = value * 10 + d;
        if value > u32::MAX as u64 {
            // overflow: the whole component counts as zero
            proof {
                lemma_digits_value_grows(s@, i + 1);
            }
            return 0;
        }
        i += 1;
    }
    proof {
        assert(s@.take(len as int) =~= s@);
    }
    value as u32
}

/// The numeric components of a version string: the text between the dots,
/// each read as a number.
pub open spec fn version_components(s: Seq<char>) -> Seq<nat> {
    crate::strutil::split_at_sep(s, '.').map_values(|t: Seq<char>| component_value(t))
}

/// Lexicographic comparison of two component sequences: the first
/// difference decides; a strict prefix counts as smaller.
pub open spec fn lex_cmp(a: Seq<nat>, b: Seq<nat>) -> core::cmp::Ordering
    decreases a.len(),
{
    if a.len() == 0 && b.len() == 0 {
        core::cmp::Ordering::Equal
    } else if a.len() == 0 {
        core::cmp::Ordering::Less
    } else if b.len() == 0 {
        core::cmp::Ordering::Greater
    } else if a.first() < b.first() {
        core::cmp::Ordering::Less
    } else if a.first() > b.first() {
        core::cmp::Ordering::Greater
    } else {
        lex_cmp(a.drop_first(), b.drop_first())
    }
}

/// Compare two dotted version strings component by component; on the
/// first difference the larger component wins, and with one version a
/// strict prefix of the other the longer one is the greater.
pub fn compare_versions(a: &str, b: &str) -> (r: core::cmp::Ordering)
    ensures
        r == lex_cmp(version_components(a@), version_components(b@)),
{
    let a_parts = crate::strutil::split_str(a, '.');
    let b_parts = crate::strutil::split_str(b, '.');
    let ghost av = version_components(a@);
    let ghost bv = version_components(b@);
    let mut i: usize = 0;
    proof {
        assert(av.skip(0) =~= av);
        assert(bv.skip(0) =~= bv);
    }
    let n = if a_parts.len() < b_parts.len() {
        a_parts.len()
    } else {
        b_parts.len()
    };
    while i < n
        invariant
            0 <= i <= n,
            n == if a_parts@.len() < b_parts@.len() {
                a_parts@.len()
            } else {
                b_parts@.len()
            },
            av == version_components(a@),
            bv == version_components(b@),
            av.len() == a_parts@.len(),
            bv.len() == b_parts@.len(),
            forall|j: int| 0 <= j < a_parts@.len() ==> av[j] == component_value(
                #[trigger] a_parts@[j]@,
            ),
            forall|j: int| 0 <= j < b_parts@.len() ==> bv[j] == component_value(
                #[trigger] b_parts@[j]@,
            ),
            lex_cmp(av.skip(i as int), bv.skip(i as int)) == lex_cmp(av, bv),
        decreases n - i,
    {
        let x = parse_component(a_parts[i].as_str());
        let y = parse_component(b_parts[i].as_str());
        proof {
            assert(av.skip(i as int).first() == av[i as int]);
            assert(bv.skip(i as int).first() == bv[i as int]);
            assert(av.skip(i as int).drop_first() =~= av.skip(i + 1));
            assert(bv.skip(i as int).drop_first() =~= bv.skip(i + 1));
        }
        if x < y {
            return core::cmp::Ordering::Less;
        }
        if x > y {
            return core::cmp::Ordering::Greater;
        }
        i += 1;
    }
    proof {
        if a_parts@.len() < b_parts@.len() {
            assert(av.skip(i as int).len() == 0);
            assert(bv.skip(i as int).len() > 0);
        } else if a_parts@.len() > b_parts@.len() {
            assert(av.skip(i as int).len() > 0);
            assert(bv.skip(i as int).len() == 0);
        } else {
            assert(av.skip(i as int).len() == 0);
            assert(bv.skip(i as int).len() == 0);
        }
    }
    if a_parts.len() < b_parts.len() {
        core::cmp::Ordering::Less
    } else if a_parts.len() > b_parts.len() {
        core::cmp::Ordering::Greater
    } else {
        core::cmp::Ordering::Equal
    }
}

/// Whether this crate's own version is older than the given one.
pub fn is_current_version_older_than(version: &str) -> (r: bool)
    ensures
        r == (lex_cmp(
            version_components(DDOC_VERSION@),
            version_components(version@),
        ) == core::cmp::Ordering::Less),
{
    let c = compare_versions(DDOC_VERSION, version);
    matches!(c, core::cmp::Ordering::Less)
}

/// Once a digit prefix exceeds `u32::MAX`, the whole string does too.
proof fn lemma_digits_value_grows(s: Seq<char>, i: int)
    requires
        0 < i <= s.len(),
        digits_value(s.take(i)) > u32::MAX,
    ensures
        (forall|j: int| 0 <= j < s.len() ==> '0' <= #[trigger] s[j] <= '9') ==> digits_value(
            s,
        ) > u32::MAX,
    decreases s.len() - i,
{
    if i == s.len() {
        assert(s.take(i) =~= s);
    } else {
        if forall|j: int| 0 <= j < s.len() ==> '0' <= #[trigger] s[j] <= '9' {
            assert(s.take(i + 1).drop_last() =~= s.take(i));
            assert(s.take(i + 1).last() == s[i]);
            lemma_digits_value_grows(s, i + 1);
        }
    }
}

} // verus!
