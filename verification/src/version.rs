//! Ordering of package versions, to tell whether a bucket offers a newer
//! version than the one installed.
//!
//! A version is read as segments separated by `.` or `-`. Two versions are
//! compared segment by segment: two numeric segments (ASCII digits whose
//! value fits in 64 bits) by value, any other two by name; the first
//! difference decides, and where one version is a prefix of the other the
//! longer one is the greater.
use vstd::prelude::*;

use crate::order::name_lt;
use crate::text::chars_of;

verus! {

/// A separator of version segments.
pub open spec fn is_sep(c: char) -> bool {
    c == '.' || c == '-'
}

/// The segments of a version, split at every separator.
pub open spec fn segments(s: Seq<char>) -> Seq<Seq<char>>
    decreases s.len(),
{
    if s.len() == 0 {
        seq![Seq::empty()]
    } else {
        let rest = segments(s.drop_first());
        if is_sep(s[0]) {
            seq![Seq::empty()] + rest
        } else {
            rest.update(0, seq![s[0]] + rest[0])
        }
    }
}

/// A version has at least one segment.
pub proof fn lemma_segments_nonempty(s: Seq<char>)
    ensures
        segments(s).len() >= 1,
    decreases s.len(),
{
    if s.len() > 0 {
        lemma_segments_nonempty(s.drop_first());
    }
}

/// The characters are all ASCII digits.
pub open spec fn all_digits(s: Seq<char>) -> bool {
    forall|i: int| 0 <= i < s.len() ==> '0' <= #[trigger] s[i] <= '9'
}

/// The value of a string of decimal digits.
pub open spec fn digits_value(s: Seq<char>) -> nat
    decreases s.len(),
{
    if s.len() == 0 {
        0
    } else {
        (digits_value(s.drop_last()) * 10 + (s.last() as int - '0' as int)) as nat
    }
}

/// A segment read as a number: non-empty digits whose value fits in 64
/// bits.
pub open spec fn numeric(s: Seq<char>) -> bool {
    s.len() > 0 && all_digits(s) && digits_value(s) <= u64::MAX
}

/// Comparison of two segments: -1, 0 or 1.
pub open spec fn segment_order(a: Seq<char>, b: Seq<char>) -> int {
    if numeric(a) && numeric(b) {
        if digits_value(a) < digits_value(b) {
            -1
        } else if digits_value(a) == digits_value(b) {
            0
        } else {
            1
        }
    } else if name_lt(a, b) {
        -1
    } else if a == b {
        0
    } else {
        1
    }
}

/// Comparison of two lists of segments: -1, 0 or 1.
pub open spec fn segments_order(a: Seq<Seq<char>>, b: Seq<Seq<char>>) -> int
    decreases a.len(),
{
    if a.len() == 0 || b.len() == 0 {
        if a.len() < b.len() {
            -1
        } else if a.len() == b.len() {
            0
        } else {
            1
        }
    } else {
        let c = segment_order(a[0], b[0]);
        if c != 0 {
            c
        } else {
            segments_order(a.drop_first(), b.drop_first())
        }
    }
}

/// `candidate` is a newer version than `installed`.
pub open spec fn is_newer(candidate: Seq<char>, installed: Seq<char>) -> bool {
    segments_order(segments(candidate), segments(installed)) > 0
}

/// The value of a longer run of digits is at least that of its prefix.
pub proof fn lemma_digits_value_grows(s: Seq<char>, i: int)
    requires
        0 <= i <= s.len(),
        all_digits(s),
    ensures
        digits_value(s.take(i)) <= digits_value(s),
    decreases s.len() - i,
{
    if i < s.len() {
        lemma_digits_value_grows(s, i + 1);
        assert(s.take(i + 1).drop_last() =~= s.take(i));
        assert(s.take(i + 1).last() == s[i]);
    } else {
        assert(s.take(i) =~= s);
    }
}

/// The segments of `s`.
pub fn split_segments(s: &Vec<char>) -> (res: Vec<Vec<char>>)
    ensures
        res@.map_values(|v: Vec<char>| v@) == segments(s@),
{
    let mut segs: Vec<Vec<char>> = Vec::new();
    segs.push(Vec::new());
    let mut i: usize = s.len();
    assert(s@.skip(s@.len() as int) =~= Seq::<char>::empty());
    assert(segs@.map_values(|v: Vec<char>| v@) =~= seq![Seq::<char>::empty()]);
    while i > 0
        invariant
            i <= s@.len(),
            segs@.map_values(|v: Vec<char>| v@) == segments(s@.skip(i as int)),
        decreases i,
    {
        let c = s[i - 1];
        let ghost t = s@.skip(i - 1);
        proof {
            assert(t.drop_first() =~= s@.skip(i as int));
            assert(t[0] == c);
            lemma_segments_nonempty(s@.skip(i as int));
        }
        let ghost prev = segs@.map_values(|v: Vec<char>| v@);
        if c == '.' || c == '-' {
            segs.insert(0, Vec::new());
            assert(segs@.map_values(|v: Vec<char>| v@) =~= seq![Seq::<char>::empty()] + prev);
        } else {
            let mut first = segs[0].clone();
            first.insert(0, c);
            assert(first@ =~= seq![c] + prev[0]);
            segs.set(0, first);
            assert(segs@.map_values(|v: Vec<char>| v@) =~= prev.update(0, seq![c] + prev[0]));
        }
        i -= 1;
    }
    assert(s@.skip(0) =~= s@);
    segs
}

/// A segment read as a number, where it is one.
pub fn parse_segment(s: &Vec<char>) -> (res: Option<u64>)
    ensures
        match res {
            Some(v) => numeric(s@) && v == digits_value(s@),
            None => !numeric(s@),
        },
{
    if s.len() == 0 {
        return None;
    }
    let mut v: u64 = 0;
    let mut i: usize = 0;
    while i < s.len()
        invariant
            i <= s@.len(),
            all_digits(s@.take(i as int)),
            v == digits_value(s@.take(i as int)),
        decreases s@.len() - i,
    {
        let c = s[i];
        proof {
            assert(s@.take(i + 1).drop_last() =~= s@.take(i as int));
            assert(s@.take(i + 1).last() == c);
        }
        if !('0' <= c && c <= '9') {
            assert(!all_digits(s@)) by {
                assert(!('0' <= s@[i as int] <= '9'));
            }
            return None;
        }
        let d: u64 = (c as u32 - '0' as u32) as u64;
        assert(d == c as int - '0' as int);
        if v > (u64::MAX - d) / 10 {
            proof {
                assert(all_digits(s@.take(i + 1)));
                assert(digits_value(s@.take(i + 1)) > u64::MAX) by (nonlinear_arith)
                    requires
                        v > (u64::MAX - d) / 10,
                        digits_value(s@.take(i + 1)) == v * 10 + d,
                        d <= 9,
                ;
                if all_digits(s@) {
                    lemma_digits_value_grows(s@, i + 1);
                }
            }
            return None;
        }
        v = v * 10 + d;
        i += 1;
    }
    assert(s@.take(s@.len() as int) =~= s@);
    Some(v)
}

/// Whether `a` comes strictly before `b`, by character code.
pub fn chars_less(a: &Vec<char>, b: &Vec<char>) -> (res: bool)
    ensures
        res == name_lt(a@, b@),
{
    let mut i: usize = 0;
    assert(a@.skip(0) =~= a@);
    assert(b@.skip(0) =~= b@);
    while i < a.len() && i < b.len() && a[i] == b[i]
        invariant
            i <= a@.len(),
            i <= b@.len(),
            name_lt(a@, b@) == name_lt(a@.skip(i as int), b@.skip(i as int)),
        decreases a@.len() - i,
    {
        proof {
            assert(a@.skip(i as int).drop_first() =~= a@.skip(i + 1));
            assert(b@.skip(i as int).drop_first() =~= b@.skip(i + 1));
        }
        i += 1;
    }
    if i == a.len() {
        i < b.len()
    } else if i == b.len() {
        false
    } else {
        a[i] < b[i]
    }
}

/// Whether two character lists are equal.
pub fn chars_eq(a: &Vec<char>, b: &Vec<char>) -> (res: bool)
    ensures
        res == (a@ == b@),
{
    if a.len() != b.len() {
        return false;
    }
    let mut i: usize = 0;
    while i < a.len()
        invariant
            a@.len() == b@.len(),
            i <= a@.len(),
            forall|k: int| 0 <= k < i ==> a@[k] == b@[k],
        decreases a@.len() - i,
    {
        if a[i] != b[i] {
            assert(a@[i as int] != b@[i as int]);
            return false;
        }
        i += 1;
    }
    assert(a@ =~= b@);
    true
}

/// Comparison of two segments: -1, 0 or 1.
pub fn compare_segments(a: &Vec<char>, b: &Vec<char>) -> (res: i8)
    ensures
        res as int == segment_order(a@, b@),
{
    match (parse_segment(a), parse_segment(b)) {
        (Some(x), Some(y)) => {
            if x < y {
                -1
            } else if x == y {
                0
            } else {
                1
            }
        },
        _ => {
            if chars_less(a, b) {
                -1
            } else if chars_eq(a, b) {
                0
            } else {
                1
            }
        },
    }
}

/// Whether `candidate` is a newer version than `installed`.
pub fn version_newer(candidate: &str, installed: &str) -> (res: bool)
    ensures
        res == is_newer(candidate@, installed@),
{
    let a = split_segments(&chars_of(candidate));
    let b = split_segments(&chars_of(installed));
    let ghost sa = a@.map_values(|v: Vec<char>| v@);
    let ghost sb = b@.map_values(|v: Vec<char>| v@);
    let mut i: usize = 0;
    assert(sa.skip(0) =~= sa);
    assert(sb.skip(0) =~= sb);
    while i < a.len() && i < b.len()
        invariant
            i <= a@.len(),
            i <= b@.len(),
            sa == a@.map_values(|v: Vec<char>| v@),
            sb == b@.map_values(|v: Vec<char>| v@),
            sa == segments(candidate@),
            sb == segments(installed@),
            segments_order(sa, sb) == segments_order(sa.skip(i as int), sb.skip(i as int)),
        decreases a@.len() - i,
    {
        let c = compare_segments(&a[i], &b[i]);
        proof {
            assert(sa.skip(i as int)[0] == a@[i as int]@);
            assert(sb.skip(i as int)[0] == b@[i as int]@);
            assert(sa.skip(i as int).drop_first() =~= sa.skip(i + 1));
            assert(sb.skip(i as int).drop_first() =~= sb.skip(i + 1));
        }
        if c != 0 {
            return c > 0;
        }
        i += 1;
    }
    a.len() - i > b.len() - i
}

} // verus!
