//! Byte-level helpers of the expect engine: substring search, escape-sequence
//! removal, echo removal, and the token comparison.

use vstd::prelude::*;
use vstd::slice::*;

use crate::text::bytes_eq;

verus! {

/// `needle` stands in `hay` at position `i`.
pub open spec fn occurs_at(hay: Seq<u8>, needle: Seq<u8>, i: int) -> bool {
    0 <= i && i + needle.len() <= hay.len() && hay.subrange(i, i + needle.len()) == needle
}

/// The first occurrence of `needle` in `hay` as a `(start, end)` pair.
pub open spec fn is_first_occurrence(
    hay: Seq<u8>,
    needle: Seq<u8>,
    found: Option<(usize, usize)>,
) -> bool {
    match found {
        Some((start, end)) => {
            &&& occurs_at(hay, needle, start as int)
            &&& end == start + needle.len()
            &&& forall|j: int| 0 <= j < start ==> !occurs_at(hay, needle, j)
        },
        None => forall|j: int| !occurs_at(hay, needle, j),
    }
}

/// Finds the first occurrence of `needle`; an empty needle stands at the start.
pub fn find_substring(hay: &[u8], needle: &[u8]) -> (found: Option<(usize, usize)>)
    ensures
        is_first_occurrence(hay@, needle@, found),
{
    if needle.len() == 0 {
        assert(hay@.subrange(0, 0) =~= needle@);
        return Some((0, 0));
    }
    if hay.len() < needle.len() {
        return None;
    }
    let n: usize = hay.len();
    let last: usize = n - needle.len();
    let mut i: usize = 0;
    while i <= last
        invariant
            i <= last + 1,
            0 < needle@.len(),
            n == hay@.len(),
            last == hay@.len() - needle@.len(),
            forall|j: int| 0 <= j < i ==> !occurs_at(hay@, needle@, j),
        decreases last + 1 - i,
    {
        if bytes_eq(slice_subrange(hay, i, i + needle.len()), needle) {
            return Some((i, i + needle.len()));
        }
        i = i + 1;
    }
    None
}

/// Bytewise comparison whose running time depends on the lengths alone, to
/// avoid timing leaks on the token check.
pub fn constant_time_eq(a: &[u8], b: &[u8]) -> (same: bool)
    ensures
        same == (a@ == b@),
{
    if a.len() != b.len() {
        return false;
    }
    let mut diff: u8 = 0;
    let mut i: usize = 0;
    assert(a@.take(0) =~= b@.take(0));
    while i < a.len()
        invariant
            i <= a@.len(),
            a@.len() == b@.len(),
            diff == 0 <==> a@.take(i as int) == b@.take(i as int),
        decreases a@.len() - i,
    {
        let x: u8 = a[i];
        let y: u8 = b[i];
        let before: u8 = diff;
        diff = diff | (x ^ y);
        proof {
            assert((before | (x ^ y)) == 0 <==> before == 0 && x == y) by (bit_vector);
            let ta = a@.take(i as int);
            let tb = b@.take(i as int);
            assert(a@.take(i + 1) =~= ta.push(x));
            assert(b@.take(i + 1) =~= tb.push(y));
            assert(ta.push(x).drop_last() =~= ta && ta.push(x).last() == x);
            assert(tb.push(y).drop_last() =~= tb && tb.push(y).last() == y);
        }
        i = i + 1;
    }
    assert(a@.take(i as int) =~= a@);
    assert(b@.take(i as int) =~= b@);
    diff == 0
}

// ---------- Escape sequences ----------

/// The escape character.
pub const ESC: u8 = 0x1b;

/// A byte that ends a control sequence opened by ESC `[`.
pub open spec fn is_csi_final(b: u8) -> bool {
    0x40 <= b <= 0x7e
}

/// The position just past the control sequence whose parameters start at `j`.
pub open spec fn csi_end(s: Seq<u8>, j: int) -> int
    decreases s.len() - j,
{
    if j >= s.len() {
        s.len() as int
    } else if is_csi_final(s[j]) {
        j + 1
    } else {
        csi_end(s, j + 1)
    }
}

/// The position just past the escape sequence that starts at `i`: ESC `[` up
/// to its final byte, or ESC and one character.
pub open spec fn escape_end(s: Seq<u8>, i: int) -> int {
    if i + 1 >= s.len() {
        s.len() as int
    } else if s[i + 1] == 0x5b {
        csi_end(s, i + 2)
    } else {
        i + 2
    }
}

pub proof fn lemma_csi_end_bounds(s: Seq<u8>, j: int)
    requires
        0 <= j,
    ensures
        j <= s.len() ==> j <= csi_end(s, j) <= s.len(),
    decreases s.len() - j,
{
    if j < s.len() && !is_csi_final(s[j]) {
        lemma_csi_end_bounds(s, j + 1);
    }
}

/// The positions, from `i` on, of the bytes that belong to no escape sequence.
pub open spec fn plain_positions(s: Seq<u8>, i: int) -> Seq<int>
    decreases s.len() - i,
    when 0 <= i
    via plain_positions_decreases
{
    if i >= s.len() {
        Seq::empty()
    } else if s[i] == ESC {
        plain_positions(s, escape_end(s, i))
    } else {
        seq![i] + plain_positions(s, i + 1)
    }
}

#[via_fn]
proof fn plain_positions_decreases(s: Seq<u8>, i: int) {
    if 0 <= i < s.len() && i + 1 < s.len() {
        lemma_csi_end_bounds(s, i + 2);
    }
}

/// `s` without its escape sequences.
pub open spec fn ansi_stripped(s: Seq<u8>) -> Seq<u8> {
    plain_positions(s, 0).map_values(|p: int| s[p])
}

/// Every plain position is in range, holds no ESC, and they ascend.
pub proof fn lemma_plain_positions(s: Seq<u8>, i: int)
    requires
        0 <= i,
    ensures
        forall|k: int|
            0 <= k < plain_positions(s, i).len() ==> i <= #[trigger] plain_positions(s, i)[k]
                < s.len() && s[plain_positions(s, i)[k]] != ESC,
        forall|k: int, l: int|
            0 <= k < l < plain_positions(s, i).len() ==> plain_positions(s, i)[k]
                < plain_positions(s, i)[l],
    decreases s.len() - i,
{
    if i < s.len() {
        if s[i] == ESC {
            if i + 1 < s.len() {
                lemma_csi_end_bounds(s, i + 2);
            }
            lemma_plain_positions(s, escape_end(s, i));
            assert(plain_positions(s, i) == plain_positions(s, escape_end(s, i)));
        } else {
            lemma_plain_positions(s, i + 1);
            let rest = plain_positions(s, i + 1);
            assert forall|k: int| 0 <= k < plain_positions(s, i).len() implies i
                <= #[trigger] plain_positions(s, i)[k] < s.len() && s[plain_positions(s, i)[k]]
                != ESC by {
                if k > 0 {
                    assert(plain_positions(s, i)[k] == rest[k - 1]);
                }
            }
            assert forall|k: int, l: int|
                0 <= k < l < plain_positions(s, i).len() implies plain_positions(s, i)[k]
                < plain_positions(s, i)[l] by {
                assert(plain_positions(s, i)[l] == rest[l - 1]);
                if k > 0 {
                    assert(plain_positions(s, i)[k] == rest[k - 1]);
                }
            }
        }
    }
}

/// Removing escape sequences leaves no escape character behind.
pub proof fn law_stripped_has_no_escape(s: Seq<u8>)
    ensures
        !ansi_stripped(s).contains(ESC),
{
    lemma_plain_positions(s, 0);
    let out = ansi_stripped(s);
    if out.contains(ESC) {
        let k = choose|k: int| 0 <= k < out.len() && out[k] == ESC;
        assert(s[plain_positions(s, 0)[k]] == ESC);
    }
}

proof fn lemma_plain_positions_identity(s: Seq<u8>, i: int)
    requires
        0 <= i <= s.len(),
        !s.contains(ESC),
    ensures
        plain_positions(s, i) == Seq::new((s.len() - i) as nat, |k: int| i + k),
    decreases s.len() - i,
{
    if i < s.len() {
        assert(s.contains(s[i]));
        lemma_plain_positions_identity(s, i + 1);
    }
    assert(plain_positions(s, i) =~= Seq::new((s.len() - i) as nat, |k: int| i + k));
}

/// Bytes without an escape character pass unchanged.
pub proof fn law_plain_bytes_unchanged(s: Seq<u8>)
    requires
        !s.contains(ESC),
    ensures
        ansi_stripped(s) == s,
{
    lemma_plain_positions_identity(s, 0);
    assert(ansi_stripped(s) =~= s);
}

/// Removing escape sequences twice is removing them once.
pub proof fn law_strip_idempotent(s: Seq<u8>)
    ensures
        ansi_stripped(ansi_stripped(s)) == ansi_stripped(s),
{
    law_stripped_has_no_escape(s);
    law_plain_bytes_unchanged(ansi_stripped(s));
}

/// `out` holds the bytes of `s` at the ascending positions `at`.
pub open spec fn is_selection(s: Seq<u8>, at: Seq<int>, out: Seq<u8>) -> bool {
    &&& at.len() == out.len()
    &&& forall|k: int| 0 <= k < at.len() ==> 0 <= #[trigger] at[k] < s.len() && out[k] == s[at[k]]
    &&& forall|k: int, l: int| 0 <= k < l < at.len() ==> at[k] < at[l]
}

/// What is left is a selection of the input's bytes in their order.
pub proof fn law_stripped_is_selection(s: Seq<u8>)
    ensures
        ansi_stripped(s).len() <= s.len(),
        is_selection(s, plain_positions(s, 0), ansi_stripped(s)),
{
    lemma_plain_positions(s, 0);
    lemma_ascending_bounded(plain_positions(s, 0), s.len() as int);
}

proof fn lemma_ascending_bounded(ps: Seq<int>, n: int)
    requires
        forall|k: int| 0 <= k < ps.len() ==> 0 <= #[trigger] ps[k] < n,
        forall|k: int, l: int| 0 <= k < l < ps.len() ==> ps[k] < ps[l],
        n >= 0,
    ensures
        ps.len() <= n,
    decreases ps.len(),
{
    if ps.len() > 0 {
        let last = ps.last();
        lemma_ascending_bounded(ps.drop_last(), last);
    }
}

/// The positions of the bytes that belong to no escape sequence.
pub fn plain_byte_positions(input: &[u8]) -> (out: Vec<usize>)
    ensures
        out@.map_values(|p: usize| p as int) == plain_positions(input@, 0),
{
    let mut out: Vec<usize> = Vec::with_capacity(input.len());
    let mut i: usize = 0;
    let ghost all = plain_positions(input@, 0);
    assert(out@.map_values(|p: usize| p as int) + plain_positions(input@, 0) =~= all);
    while i < input.len()
        invariant
            i <= input@.len(),
            all == plain_positions(input@, 0),
            out@.map_values(|p: usize| p as int) + plain_positions(input@, i as int) == all,
        decreases input@.len() - i,
    {
        let ghost here = i as int;
        let ghost kept = out@.map_values(|p: usize| p as int);
        if input[i] == 0x1b {
            if input.len() - i < 2 {
                i = input.len();
            } else if input[i + 1] == 0x5b {
                i = i + 2;
                while i < input.len() && !(0x40 <= input[i] && input[i] <= 0x7e)
                    invariant
                        here + 2 <= i <= input@.len(),
                        csi_end(input@, i as int) == csi_end(input@, here + 2),
                    decreases input@.len() - i,
                {
                    i = i + 1;
                }
                if i < input.len() {
                    i = i + 1;
                }
            } else {
                i = i + 2;
            }
            assert(i == escape_end(input@, here));
        } else {
            out.push(i);
            i = i + 1;
            assert(out@.map_values(|p: usize| p as int) =~= kept.push(here));
            assert(kept.push(here) + plain_positions(input@, here + 1) =~= kept + (seq![here]
                + plain_positions(input@, here + 1)));
        }
    }
    assert(out@.map_values(|p: usize| p as int) + plain_positions(input@, i as int)
        =~= out@.map_values(|p: usize| p as int));
    out
}

/// Strips CSI escapes plus single-character ESC sequences.
pub fn strip_ansi_bytes(input: &[u8]) -> (out: Vec<u8>)
    ensures
        out@ == ansi_stripped(input@),
{
    let positions = plain_byte_positions(input);
    let ghost ps = plain_positions(input@, 0);
    proof {
        lemma_plain_positions(input@, 0);
    }
    let mut out: Vec<u8> = Vec::with_capacity(positions.len());
    let mut k: usize = 0;
    while k < positions.len()
        invariant
            k <= positions@.len(),
            ps == plain_positions(input@, 0),
            positions@.map_values(|p: usize| p as int) == ps,
            forall|m: int| 0 <= m < ps.len() ==> 0 <= #[trigger] ps[m] < input@.len(),
            out@ == ansi_stripped(input@).take(k as int),
        decreases positions@.len() - k,
    {
        assert(ps[k as int] == positions@[k as int] as int);
        out.push(input[positions[k]]);
        k = k + 1;
        assert(out@ =~= ansi_stripped(input@).take(k as int));
    }
    assert(ps.len() == positions@.len());
    assert(out@ =~= ansi_stripped(input@));
    out
}

proof fn lemma_csi_end_shift(x: Seq<u8>, s: Seq<u8>, j: int)
    requires
        0 <= j <= s.len(),
    ensures
        csi_end(x + s, j + x.len()) == csi_end(s, j) + x.len(),
    decreases s.len() - j,
{
    if j < s.len() {
        assert((x + s)[j + x.len()] == s[j]);
        lemma_csi_end_shift(x, s, j + 1);
    }
}

proof fn lemma_plain_positions_shift(x: Seq<u8>, s: Seq<u8>, i: int)
    requires
        0 <= i <= s.len(),
    ensures
        plain_positions(x + s, i + x.len()) == plain_positions(s, i).map_values(
            |p: int| p + x.len(),
        ),
    decreases s.len() - i,
{
    let t = x + s;
    let n = x.len() as int;
    let moved = |p: int| p + x.len();
    if i < s.len() {
        assert(t[i + n] == s[i]);
        if s[i] == ESC {
            if i + 1 < s.len() {
                assert(t[i + 1 + n] == s[i + 1]);
                lemma_csi_end_bounds(s, i + 2);
                lemma_csi_end_shift(x, s, i + 2);
            }
            assert(escape_end(t, i + n) == escape_end(s, i) + n);
            lemma_plain_positions_shift(x, s, escape_end(s, i));
        } else {
            lemma_plain_positions_shift(x, s, i + 1);
            let rest = plain_positions(s, i + 1);
            assert((seq![i] + rest).map_values(moved) =~= seq![i + n] + rest.map_values(moved));
        }
    } else {
        assert(Seq::<int>::empty().map_values(moved) =~= Seq::<int>::empty());
    }
}

/// Where the bytes from `n` on start afresh, they are stripped by themselves.
proof fn lemma_stripped_from(x: Seq<u8>, s: Seq<u8>)
    requires
        plain_positions(x + s, 0) == plain_positions(x + s, x.len() as int),
    ensures
        ansi_stripped(x + s) == ansi_stripped(s),
{
    lemma_plain_positions_shift(x, s, 0);
    lemma_plain_positions(s, 0);
    let a = plain_positions(x + s, 0);
    let b = plain_positions(s, 0);
    assert forall|k: int| 0 <= k < b.len() implies (x + s)[a[k]] == s[b[k]] by {
        assert(a[k] == b[k] + x.len());
    }
    assert(ansi_stripped(x + s) =~= ansi_stripped(s));
}

proof fn lemma_plain_prefix(a: Seq<u8>, s: Seq<u8>)
    requires
        !a.contains(ESC),
    ensures
        ansi_stripped(a + s) == a + ansi_stripped(s),
    decreases a.len(),
{
    if a.len() == 0 {
        assert(a + s =~= s);
        assert(a + ansi_stripped(s) =~= ansi_stripped(s));
    } else {
        let b = a[0];
        let rest = a.skip(1);
        assert(a.contains(b));
        assert(!rest.contains(ESC)) by {
            if rest.contains(ESC) {
                let k = choose|k: int| 0 <= k < rest.len() && rest[k] == ESC;
                assert(a[k + 1] == ESC);
            }
        }
        lemma_plain_prefix(rest, s);
        let x = seq![b];
        let t = rest + s;
        assert(a + s =~= x + t);
        assert((x + t)[0] == b);
        lemma_plain_positions_shift(x, t, 0);
        lemma_plain_positions(t, 0);
        let p = plain_positions(x + t, 0);
        let q = plain_positions(t, 0);
        assert(p == seq![0int] + plain_positions(x + t, 1));
        assert forall|k: int| 0 <= k < q.len() implies (x + t)[p[k + 1]] == t[q[k]] by {
            assert(p[k + 1] == q[k] + 1);
        }
        assert(ansi_stripped(x + t) =~= x + ansi_stripped(t));
        assert(x + (rest + ansi_stripped(s)) =~= a + ansi_stripped(s));
    }
}

proof fn lemma_csi_end_at(s: Seq<u8>, j: int, end: int)
    requires
        0 <= j <= end <= s.len(),
        forall|k: int| j <= k < end ==> !(0x40 <= #[trigger] s[k] <= 0x7e),
        end < s.len() ==> 0x40 <= s[end] <= 0x7e,
    ensures
        csi_end(s, j) == (if end < s.len() {
            end + 1
        } else {
            end
        }),
    decreases end - j,
{
    if j < end {
        lemma_csi_end_at(s, j + 1, end);
    }
}

/// A control sequence is ESC, `[`, any bytes below 0x40 or above 0x7e, and one
/// byte from 0x40 to 0x7e. It is removed whole, and nothing else is: what went
/// before stays, and what follows is stripped by itself. Any other byte after
/// ESC makes a sequence of two. A sequence that is cut off reaches to the end.
pub proof fn law_escape_sequences_removed(
    a: Seq<u8>,
    params: Seq<u8>,
    end: u8,
    other: u8,
    rest: Seq<u8>,
)
    requires
        !a.contains(0x1b),
        forall|k: int|
            0 <= k < params.len() ==> #[trigger] params[k] < 0x40 || params[k] > 0x7e,
        0x40 <= end <= 0x7e,
        other != 0x5b,
    ensures
        ansi_stripped(a + (seq![0x1bu8, 0x5bu8] + params + seq![end] + rest)) == a
            + ansi_stripped(rest),
        ansi_stripped(a + (seq![0x1bu8, other] + rest)) == a + ansi_stripped(rest),
        ansi_stripped(a + (seq![0x1bu8, 0x5bu8] + params)) == a,
        ansi_stripped(a + seq![0x1bu8]) == a,
{
    assert(ESC == 0x1b);
    let n = params.len() as int;
    let x = seq![0x1bu8, 0x5bu8] + params + seq![end];
    let s = x + rest;
    assert(s =~= seq![0x1bu8, 0x5bu8] + params + seq![end] + rest);
    assert(s[0] == 0x1b && s[1] == 0x5b && s[n + 2] == end);
    assert forall|k: int| 2 <= k < n + 2 implies !(0x40 <= #[trigger] s[k] <= 0x7e) by {
        assert(s[k] == params[k - 2]);
    }
    lemma_csi_end_at(s, 2, n + 2);
    lemma_stripped_from(x, rest);
    lemma_plain_prefix(a, s);

    let y = seq![0x1bu8, other];
    assert((y + rest)[0] == 0x1b && (y + rest)[1] == other);
    lemma_stripped_from(y, rest);
    lemma_plain_prefix(a, y + rest);

    let z = seq![0x1bu8, 0x5bu8] + params;
    assert(z[0] == 0x1b && z[1] == 0x5b);
    assert forall|k: int| 2 <= k < n + 2 implies !(0x40 <= #[trigger] z[k] <= 0x7e) by {
        assert(z[k] == params[k - 2]);
    }
    lemma_csi_end_at(z, 2, n + 2);
    assert(escape_end(z, 0) == z.len());
    assert(plain_positions(z, 0) == plain_positions(z, z.len() as int));
    assert(plain_positions(z, z.len() as int) =~= Seq::empty());
    assert(ansi_stripped(z) =~= Seq::empty());
    lemma_plain_prefix(a, z);
    assert(a + Seq::<u8>::empty() =~= a);

    let e = seq![0x1bu8];
    assert(plain_positions(e, 0) == plain_positions(e, 1));
    assert(plain_positions(e, 1) =~= Seq::empty());
    assert(ansi_stripped(e) =~= Seq::empty());
    lemma_plain_prefix(a, e);
}

/// The same of the operation: with a control sequence, or ESC and another byte,
/// between plain bytes and the rest, the result is the plain bytes and what the
/// rest alone gives. The positions are those of the bytes that remain.
pub proof fn law_strip_removes_sequences(
    input: &[u8],
    a: Seq<u8>,
    params: Seq<u8>,
    end: u8,
    other: u8,
    rest: &[u8],
    out: Vec<u8>,
    rest_out: Vec<u8>,
    positions: Vec<usize>,
)
    requires
        !a.contains(0x1b),
        forall|k: int|
            0 <= k < params.len() ==> #[trigger] params[k] < 0x40 || params[k] > 0x7e,
        0x40 <= end <= 0x7e,
        other != 0x5b,
        input@ == a + (seq![0x1bu8, 0x5bu8] + params + seq![end] + rest@) || input@ == a + (
        seq![0x1bu8, other] + rest@),
        call_ensures(strip_ansi_bytes, (input,), out),
        call_ensures(strip_ansi_bytes, (rest,), rest_out),
        call_ensures(plain_byte_positions, (input,), positions),
    ensures
        out@ == a + rest_out@,
        positions@.len() == out@.len(),
        forall|k: int|
            0 <= k < out@.len() ==> (#[trigger] positions@[k]) < input@.len() && input@[positions@[k] as int]
                == out@[k],
        forall|k: int, l: int| 0 <= k < l < out@.len() ==> positions@[k] < positions@[l],
        forall|k: int| 0 <= k < a.len() ==> #[trigger] positions@[k] == k,
{
    law_escape_sequences_removed(a, params, end, other, rest@);
    let ps = plain_positions(input@, 0);
    let got = positions@.map_values(|p: usize| p as int);
    assert(got.len() == positions@.len());
    lemma_plain_positions(input@, 0);
    assert forall|k: int| 0 <= k < out@.len() implies (#[trigger] positions@[k]) < input@.len()
        && input@[positions@[k] as int] == out@[k] by {
        assert(got[k] == positions@[k] as int);
    }
    assert forall|k: int, l: int| 0 <= k < l < out@.len() implies positions@[k] < positions@[l] by {
        assert(got[k] == positions@[k] as int && got[l] == positions@[l] as int);
        assert(ps[k] < ps[l]);
    }
    assert forall|j: int| 0 <= j < a.len() implies #[trigger] input@[j] != ESC by {
        assert(input@[j] == a[j]);
        assert(a.contains(a[j]));
    }
    assert forall|k: int| 0 <= k < a.len() implies #[trigger] positions@[k] == k by {
        lemma_plain_prefix_positions(input@, a.len() as int, 0, k);
        assert(got[k] == positions@[k] as int);
    }
}

proof fn lemma_plain_prefix_positions(s: Seq<u8>, n: int, i: int, k: int)
    requires
        0 <= i <= k < n <= s.len(),
        forall|j: int| 0 <= j < n ==> #[trigger] s[j] != ESC,
    ensures
        plain_positions(s, i).len() > k - i,
        plain_positions(s, i)[k - i] == k,
    decreases k - i,
{
    assert(s[i] != ESC);
    if i < k {
        lemma_plain_prefix_positions(s, n, i + 1, k);
        assert(plain_positions(s, i)[k - i] == plain_positions(s, i + 1)[k - i - 1]);
    }
}

// ---------- Echo removal ----------

pub open spec fn is_eol(b: u8) -> bool {
    b == 0x0d || b == 0x0a
}

/// `s` without its trailing CR and LF bytes.
pub open spec fn without_trailing_eol(s: Seq<u8>) -> Seq<u8>
    decreases s.len(),
{
    if s.len() > 0 && is_eol(s.last()) {
        without_trailing_eol(s.drop_last())
    } else {
        s
    }
}

/// The first position from `i` on that holds a CR or LF, or the end.
pub open spec fn line_end_from(s: Seq<u8>, i: int) -> int
    decreases s.len() - i,
{
    if i >= s.len() || is_eol(s[i]) {
        i
    } else {
        line_end_from(s, i + 1)
    }
}

/// The first line of `s`, without its terminator.
pub open spec fn first_line(s: Seq<u8>) -> Seq<u8> {
    s.take(line_end_from(s, 0))
}

/// How many CR/LF bytes stand at `i`, counting at most two.
pub open spec fn eol_width(s: Seq<u8>, i: int) -> int {
    if i < s.len() && is_eol(s[i]) {
        if i + 1 < s.len() && is_eol(s[i + 1]) {
            2
        } else {
            1
        }
    } else {
        0
    }
}

/// `before` without a first line that repeats what was sent, and without that
/// line's terminator (at most two CR/LF bytes). Trailing CR/LF of what was
/// sent does not matter; nothing is removed when nothing else was sent.
pub open spec fn echo_stripped(before: Seq<u8>, echo: Seq<u8>) -> Seq<u8> {
    let body = without_trailing_eol(echo);
    let end = line_end_from(before, 0);
    if body.len() > 0 && first_line(before) == body {
        before.skip(end + eol_width(before, end))
    } else {
        before
    }
}

proof fn lemma_line_end_bounds(s: Seq<u8>, i: int)
    requires
        0 <= i <= s.len(),
    ensures
        i <= line_end_from(s, i) <= s.len(),
    decreases s.len() - i,
{
    if i < s.len() && !is_eol(s[i]) {
        lemma_line_end_bounds(s, i + 1);
    }
}

/// If `before` starts with an echo of `echo` (the bytes just sent), strips it.
/// CR/LF tolerant: ignores CR vs LF vs CRLF differences.
pub fn strip_leading_echo(before: &[u8], echo: &[u8]) -> (out: Vec<u8>)
    ensures
        out@ == echo_stripped(before@, echo@),
{
    let mut end: usize = echo.len();
    assert(echo@.take(end as int) =~= echo@);
    while end > 0 && (echo[end - 1] == 0x0d || echo[end - 1] == 0x0a)
        invariant
            end <= echo@.len(),
            without_trailing_eol(echo@.take(end as int)) == without_trailing_eol(echo@),
        decreases end,
    {
        assert(echo@.take(end as int).drop_last() =~= echo@.take(end - 1));
        end = end - 1;
    }
    let body = slice_subrange(echo, 0, end);
    assert(body@ =~= without_trailing_eol(echo@)) by {
        assert(body@ =~= echo@.take(end as int));
    }
    if body.len() == 0 {
        return slice_to_vec(before);
    }
    let mut line_end: usize = 0;
    while line_end < before.len() && before[line_end] != 0x0a && before[line_end] != 0x0d
        invariant
            line_end <= before@.len(),
            line_end_from(before@, line_end as int) == line_end_from(before@, 0),
        decreases before@.len() - line_end,
    {
        line_end = line_end + 1;
    }
    let line = slice_subrange(before, 0, line_end);
    assert(line@ =~= first_line(before@));
    if !bytes_eq(line, body) {
        return slice_to_vec(before);
    }
    let mut consumed: usize = line_end;
    if consumed < before.len() && (before[consumed] == 0x0d || before[consumed] == 0x0a) {
        consumed = consumed + 1;
        if consumed < before.len() && (before[consumed] == 0x0d || before[consumed] == 0x0a) {
            consumed = consumed + 1;
        }
    }
    let out = slice_to_vec(slice_subrange(before, consumed, before.len()));
    assert(out@ =~= before@.skip(consumed as int));
    out
}

proof fn lemma_line_end_of_line(line: Seq<u8>, rest: Seq<u8>, i: int)
    requires
        0 <= i <= line.len(),
        forall|k: int| 0 <= k < line.len() ==> !is_eol(#[trigger] line[k]),
        rest.len() > 0 ==> is_eol(rest[0]),
    ensures
        line_end_from(line + rest, i) == line.len(),
    decreases line.len() - i,
{
    let s = line + rest;
    if i < line.len() {
        assert(s[i] == line[i]);
        lemma_line_end_of_line(line, rest, i + 1);
    } else if rest.len() > 0 {
        assert(s[i] == rest[0]);
    }
}

proof fn lemma_trailing_eol_of_line(line: Seq<u8>, eol: Seq<u8>)
    requires
        forall|k: int| 0 <= k < line.len() ==> !is_eol(#[trigger] line[k]),
        forall|k: int| 0 <= k < eol.len() ==> is_eol(#[trigger] eol[k]),
    ensures
        without_trailing_eol(line + eol) == line,
    decreases eol.len(),
{
    let s = line + eol;
    if eol.len() > 0 {
        assert(s.last() == eol.last());
        assert(s.drop_last() =~= line + eol.drop_last());
        lemma_trailing_eol_of_line(line, eol.drop_last());
    } else {
        assert(s =~= line);
    }
}

proof fn lemma_echo_with_single_eol(
    line: Seq<u8>,
    sent_eol: Seq<u8>,
    answer: Seq<u8>,
    eol: u8,
)
    requires
        line.len() > 0,
        is_eol(eol),
        answer.len() == 0 || !is_eol(answer[0]),
        forall|k: int| 0 <= k < line.len() ==> !is_eol(#[trigger] line[k]),
        forall|k: int| 0 <= k < sent_eol.len() ==> is_eol(#[trigger] sent_eol[k]),
    ensures
        echo_stripped(line + seq![eol] + answer, line + sent_eol) == answer,
{
    let n = line.len() as int;
    let before = line + seq![eol] + answer;
    assert(before =~= line + (seq![eol] + answer));
    lemma_line_end_of_line(line, seq![eol] + answer, 0);
    lemma_trailing_eol_of_line(line, sent_eol);
    assert(first_line(before) =~= line);
    assert(before[n] == eol);
    if answer.len() > 0 {
        assert(before[n + 1] == answer[0]);
    }
    assert(before.skip(n + 1) =~= answer);
}

/// Whatever terminator was sent, a device that echoes the line and ends it has
/// exactly that echo removed from what it answered. It may end the line with
/// CR LF, or, where the answer does not start with a line break of its own,
/// with CR or LF alone.
pub proof fn law_echo_of_a_line_is_removed(line: Seq<u8>, sent_eol: Seq<u8>, answer: Seq<u8>)
    requires
        line.len() > 0,
        forall|k: int| 0 <= k < line.len() ==> !is_eol(#[trigger] line[k]),
        forall|k: int| 0 <= k < sent_eol.len() ==> is_eol(#[trigger] sent_eol[k]),
    ensures
        echo_stripped(line + seq![0x0du8, 0x0au8] + answer, line + sent_eol) == answer,
        answer.len() == 0 || !is_eol(answer[0]) ==> echo_stripped(
            line + seq![0x0du8] + answer,
            line + sent_eol,
        ) == answer,
        answer.len() == 0 || !is_eol(answer[0]) ==> echo_stripped(
            line + seq![0x0au8] + answer,
            line + sent_eol,
        ) == answer,
{
    if answer.len() == 0 || !is_eol(answer[0]) {
        lemma_echo_with_single_eol(line, sent_eol, answer, 0x0d);
        lemma_echo_with_single_eol(line, sent_eol, answer, 0x0a);
    }
    let crlf = seq![0x0du8, 0x0au8];
    let before = line + crlf + answer;
    assert(before =~= line + (crlf + answer));
    lemma_line_end_of_line(line, crlf + answer, 0);
    lemma_trailing_eol_of_line(line, sent_eol);
    assert(first_line(before) =~= line);
    assert(before[line.len() as int] == 0x0d && before[(line.len() + 1) as int] == 0x0a);
    assert(before.skip((line.len() + 2) as int) =~= answer);
}

/// What is left is always an end of what came before the match.
pub proof fn law_echo_removal_keeps_a_suffix(before: Seq<u8>, echo: Seq<u8>)
    ensures
        exists|n: int|
            0 <= n <= before.len() && echo_stripped(before, echo) == #[trigger] before.skip(n),
{
    lemma_line_end_bounds(before, 0);
    let end = line_end_from(before, 0);
    assert(before.skip(0) =~= before);
    assert(0 <= end + eol_width(before, end) <= before.len());
}

/// Only the echo of what was sent is removed: a first line that differs from it
/// by anything stays, also where it merely starts with it, and so does
/// everything where nothing was sent. An echo that no line break follows yet is
/// removed as far as it has come.
pub proof fn law_only_the_echo_is_removed(
    before: &[u8],
    echo: &[u8],
    line: Seq<u8>,
    sent: Seq<u8>,
    sent_eol: Seq<u8>,
    rest: Seq<u8>,
    out: Vec<u8>,
)
    requires
        call_ensures(strip_leading_echo, (before, echo), out),
        forall|k: int| 0 <= k < line.len() ==> #[trigger] line[k] != 0x0d && line[k] != 0x0a,
        forall|k: int| 0 <= k < sent.len() ==> #[trigger] sent[k] != 0x0d && sent[k] != 0x0a,
        forall|k: int|
            0 <= k < sent_eol.len() ==> #[trigger] sent_eol[k] == 0x0d || sent_eol[k] == 0x0a,
        echo@ == sent + sent_eol,
        before@ == line + rest,
        rest.len() > 0 ==> rest[0] == 0x0d || rest[0] == 0x0a,
    ensures
        line != sent ==> out@ == before@,
        sent.len() == 0 ==> out@ == before@,
        line == sent && sent.len() > 0 && rest.len() <= 1 ==> out@.len() == 0,
        line == sent && sent.len() > 0 && rest.len() >= 2 ==> (if rest[1] == 0x0d || rest[1] == 0x0a {
            out@ == rest.skip(2)
        } else {
            out@ == rest.skip(1)
        }),
{
    assert forall|k: int| 0 <= k < line.len() implies !is_eol(#[trigger] line[k]) by {
        assert(line[k] != 0x0d && line[k] != 0x0a);
    }
    assert forall|k: int| 0 <= k < sent.len() implies !is_eol(#[trigger] sent[k]) by {
        assert(sent[k] != 0x0d && sent[k] != 0x0a);
    }
    assert forall|k: int| 0 <= k < sent_eol.len() implies is_eol(#[trigger] sent_eol[k]) by {
        assert(sent_eol[k] == 0x0d || sent_eol[k] == 0x0a);
    }
    lemma_line_end_of_line(line, rest, 0);
    lemma_trailing_eol_of_line(sent, sent_eol);
    let n = line.len() as int;
    assert(first_line(before@) =~= line);
    if rest.len() > 0 {
        assert(before@[n] == rest[0]);
    }
    if rest.len() > 1 {
        assert(before@[n + 1] == rest[1]);
        assert(before@.skip(n + 2) =~= rest.skip(2));
        assert(before@.skip(n + 1) =~= rest.skip(1));
    }
}

} // verus!
