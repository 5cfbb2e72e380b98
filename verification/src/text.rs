//! Small verified text utilities the matchers build on: ASCII
//! case-insensitive comparison, substring containment, and the
//! comma-split-and-trim normalization applied to header values.

use vstd::prelude::*;

verus! {

/// The blank bytes trimmed from header value atoms: space and horizontal tab.
pub open spec fn is_blank(b: u8) -> bool {
    b == 32 || b == 9
}

/// How many blank bytes the sequence starts with.
pub open spec fn lead_blanks(s: Seq<u8>) -> int
    decreases s.len(),
{
    if s.len() > 0 && is_blank(s[0]) {
        1 + lead_blanks(s.subrange(1, s.len() as int))
    } else {
        0
    }
}

/// How many blank bytes the sequence ends with.
pub open spec fn trail_blanks(s: Seq<u8>) -> int
    decreases s.len(),
{
    if s.len() > 0 && is_blank(s[s.len() - 1]) {
        1 + trail_blanks(s.subrange(0, s.len() - 1))
    } else {
        0
    }
}

/// The sequence with leading and trailing blanks removed.
pub open spec fn trim_of(s: Seq<u8>) -> Seq<u8> {
    if lead_blanks(s) == s.len() {
        Seq::empty()
    } else {
        s.subrange(lead_blanks(s), s.len() - trail_blanks(s))
    }
}

pub proof fn lemma_lead_blanks(s: Seq<u8>)
    ensures
        0 <= lead_blanks(s) <= s.len(),
        forall|k: int| 0 <= k < lead_blanks(s) ==> is_blank(s[k]),
        lead_blanks(s) < s.len() ==> !is_blank(s[lead_blanks(s)]),
    decreases s.len(),
{
    if s.len() > 0 && is_blank(s[0]) {
        let t = s.subrange(1, s.len() as int);
        lemma_lead_blanks(t);
        assert forall|k: int| 0 <= k < lead_blanks(s) implies is_blank(s[k]) by {
            if k > 0 {
                assert(is_blank(t[k - 1]));
            }
        }
    }
}

pub proof fn lemma_trail_blanks(s: Seq<u8>)
    ensures
        0 <= trail_blanks(s) <= s.len(),
        forall|k: int| s.len() - trail_blanks(s) <= k < s.len() ==> is_blank(s[k]),
        trail_blanks(s) < s.len() ==> !is_blank(s[s.len() - 1 - trail_blanks(s)]),
    decreases s.len(),
{
    if s.len() > 0 && is_blank(s[s.len() - 1]) {
        let t = s.subrange(0, s.len() - 1);
        lemma_trail_blanks(t);
        assert forall|k: int| s.len() - trail_blanks(s) <= k < s.len() implies is_blank(s[k]) by {
            if k < s.len() - 1 {
                assert(is_blank(t[k]));
            }
        }
    }
}

/// Copies `s[from .. to]` out of a byte slice.
fn copy_range(s: &[u8], from: usize, to: usize) -> (r: Vec<u8>)
    requires
        from <= to <= s@.len(),
    ensures
        r@ == s@.subrange(from as int, to as int),
{
    let mut r: Vec<u8> = Vec::new();
    let mut k: usize = from;
    while k < to
        invariant
            from <= k <= to <= s@.len(),
            r@ == s@.subrange(from as int, k as int),
        decreases to - k,
    {
        r.push(s[k]);
        proof {
            assert(r@ =~= s@.subrange(from as int, k + 1));
        }
        k += 1;
    }
    r
}

/// Removes leading and trailing blanks from `s[from .. to]`.
#[verifier::loop_isolation(false)]
fn trim_range(s: &[u8], from: usize, to: usize) -> (r: Vec<u8>)
    requires
        from <= to <= s@.len(),
    ensures
        r@ == trim_of(s@.subrange(from as int, to as int)),
{
    let ghost piece = s@.subrange(from as int, to as int);
    proof {
        lemma_lead_blanks(piece);
        lemma_trail_blanks(piece);
    }
    let mut start: usize = from;
    while start < to && is_blank_byte(s[start])
        invariant
            from <= start <= to,
            forall|k: int| 0 <= k < start - from ==> is_blank(piece[k]),
        decreases to - start,
    {
        start += 1;
    }
    if start == to {
        proof {
            assert(lead_blanks(piece) == piece.len());
        }
        Vec::new()
    } else {
        proof {
            assert(!is_blank(piece[start - from]));
            assert(lead_blanks(piece) == start - from);
        }
        let mut end: usize = to;
        while end > start && is_blank_byte(s[end - 1])
            invariant
                start <= end <= to,
                forall|k: int| end - from <= k < to - from ==> is_blank(piece[k]),
            decreases end,
        {
            end -= 1;
        }
        proof {
            assert(!is_blank(piece[end - 1 - from]));
            assert(trail_blanks(piece) == to - end);
        }
        let r = copy_range(s, start, end);
        proof {
            assert(r@ =~= trim_of(piece));
        }
        r
    }
}

/// Whether a byte is a space or horizontal tab.
#[verifier::when_used_as_spec(is_blank)]
pub fn is_blank_byte(b: u8) -> (r: bool)
    ensures
        r == is_blank(b),
{
    b == 32 || b == 9
}

/// The position of the first comma, or the length if there is none.
pub open spec fn first_comma(s: Seq<u8>) -> int
    decreases s.len(),
{
    if s.len() == 0 {
        0
    } else if s[0] == 44 {
        0
    } else {
        1 + first_comma(s.subrange(1, s.len() as int))
    }
}

pub proof fn lemma_first_comma(s: Seq<u8>)
    ensures
        0 <= first_comma(s) <= s.len(),
        forall|k: int| 0 <= k < first_comma(s) ==> s[k] != 44,
        first_comma(s) < s.len() ==> s[first_comma(s)] == 44,
    decreases s.len(),
{
    if s.len() > 0 && s[0] != 44 {
        let t = s.subrange(1, s.len() as int);
        lemma_first_comma(t);
        assert forall|k: int| 0 <= k < first_comma(s) implies s[k] != 44 by {
            if k > 0 {
                assert(t[k - 1] != 44);
            }
        }
    }
}

/// A header value split at commas, each piece trimmed of blanks, in order.
pub open spec fn atoms_of(s: Seq<u8>) -> Seq<Seq<u8>>
    decreases s.len(),
    via atoms_of_decreases
{
    if first_comma(s) == s.len() {
        seq![trim_of(s)]
    } else {
        seq![trim_of(s.subrange(0, first_comma(s)))]
            + atoms_of(s.subrange(first_comma(s) + 1, s.len() as int))
    }
}

#[via_fn]
proof fn atoms_of_decreases(s: Seq<u8>) {
    lemma_first_comma(s);
}

/// The views of a sequence of byte vectors.
pub open spec fn byte_views(vs: Seq<Vec<u8>>) -> Seq<Seq<u8>> {
    vs.map_values(|v: Vec<u8>| v@)
}

/// Splits a header value at commas and trims each piece:
/// `"a, b"` becomes `["a", "b"]`.
#[verifier::loop_isolation(false)]
pub fn split_atoms(s: &[u8]) -> (r: Vec<Vec<u8>>)
    ensures
        byte_views(r@) == atoms_of(s@),
{
    let n = s.len();
    let mut r: Vec<Vec<u8>> = Vec::new();
    let mut start: usize = 0;
    let mut j: usize = 0;
    proof {
        assert(s@.subrange(0, n as int) =~= s@);
        assert(byte_views(r@) =~= Seq::<Seq<u8>>::empty());
        assert(byte_views(r@) + atoms_of(s@) =~= atoms_of(s@));
    }
    while j < n
        invariant
            start <= j <= n,
            n == s@.len(),
            forall|k: int| start <= k < j ==> s@[k] != 44,
            byte_views(r@) + atoms_of(s@.subrange(start as int, n as int)) == atoms_of(s@),
        decreases n - j,
    {
        if s[j] == 44 {
            let ghost rest = s@.subrange(start as int, n as int);
            proof {
                lemma_first_comma(rest);
                assert(rest[j - start] == 44);
                assert(forall|k: int| 0 <= k < j - start ==> rest[k] != 44);
                assert(first_comma(rest) == j - start);
                assert(rest.subrange(0, j - start) =~= s@.subrange(start as int, j as int));
                assert(rest.subrange(j - start + 1, rest.len() as int)
                    =~= s@.subrange(j + 1, n as int));
                assert(atoms_of(rest) == seq![trim_of(s@.subrange(start as int, j as int))]
                    + atoms_of(s@.subrange(j + 1, n as int)));
            }
            let piece = trim_range(s, start, j);
            let ghost prev = r@;
            r.push(piece);
            proof {
                assert(byte_views(r@) =~= byte_views(prev).push(piece@));
                assert(byte_views(r@) + atoms_of(s@.subrange(j + 1, n as int))
                    =~= byte_views(prev) + atoms_of(rest));
                assert(byte_views(r@) + atoms_of(s@.subrange(j + 1, n as int)) == atoms_of(s@));
            }
            start = j + 1;
        }
        j += 1;
    }
    let ghost rest = s@.subrange(start as int, n as int);
    proof {
        lemma_first_comma(rest);
        assert(first_comma(rest) == rest.len());
        assert(atoms_of(rest) == seq![trim_of(rest)]);
    }
    let piece = trim_range(s, start, n);
    let ghost prev = r@;
    r.push(piece);
    proof {
        assert(byte_views(r@) =~= byte_views(prev).push(piece@));
        assert(byte_views(r@) =~= byte_views(prev) + atoms_of(rest));
        assert(byte_views(r@) == atoms_of(s@));
    }
    r
}

} // verus!

verus! {

/// ASCII lower-casing of one byte.
pub open spec fn lower(b: u8) -> u8 {
    if 65 <= b <= 90 {
        (b + 32) as u8
    } else {
        b
    }
}

/// ASCII lower-casing of a byte sequence.
pub open spec fn lower_seq(s: Seq<u8>) -> Seq<u8> {
    s.map_values(|b: u8| lower(b))
}

/// Exact equality of two byte slices.
pub fn bytes_equal(a: &[u8], b: &[u8]) -> (r: bool)
    ensures
        r == (a@ == b@),
{
    if a.len() != b.len() {
        return false;
    }
    let n = a.len();
    let mut i: usize = 0;
    while i < n
        invariant
            i <= n,
            n == a@.len() == b@.len(),
            forall|k: int| 0 <= k < i ==> a@[k] == b@[k],
        decreases n - i,
    {
        if a[i] != b[i] {
            return false;
        }
        i += 1;
    }
    proof {
        assert(a@ =~= b@);
    }
    true
}

/// ASCII case-insensitive equality of two byte slices.
pub fn bytes_iequal(a: &[u8], b: &[u8]) -> (r: bool)
    ensures
        r == (lower_seq(a@) == lower_seq(b@)),
{
    if a.len() != b.len() {
        return false;
    }
    let n = a.len();
    let mut i: usize = 0;
    while i < n
        invariant
            i <= n,
            n == a@.len() == b@.len(),
            forall|k: int| 0 <= k < i ==> lower(a@[k]) == lower(b@[k]),
        decreases n - i,
    {
        let x = a[i];
        let y = b[i];
        let lx = if 65 <= x && x <= 90 { x + 32 } else { x };
        let ly = if 65 <= y && y <= 90 { y + 32 } else { y };
        if lx != ly {
            assert(lower_seq(a@)[i as int] != lower_seq(b@)[i as int]);
            return false;
        }
        i += 1;
    }
    proof {
        assert(lower_seq(a@) =~= lower_seq(b@));
    }
    true
}

/// Whether `n` occurs as a contiguous subrange of `h`.
pub open spec fn contains_seq(h: Seq<u8>, n: Seq<u8>) -> bool {
    exists|i: int| 0 <= i <= h.len() - n.len() && #[trigger] h.subrange(i, i + n.len()) == n
}

/// Decides `contains_seq(h@, n@)` by a direct scan.
#[verifier::loop_isolation(false)]
pub fn bytes_contains(h: &[u8], n: &[u8]) -> (r: bool)
    ensures
        r == contains_seq(h@, n@),
{
    if n.len() > h.len() {
        return false;
    }
    if n.len() == 0 {
        proof {
            assert(h@.subrange(0, 0 + n@.len() as int) =~= n@);
            assert(contains_seq(h@, n@));
        }
        return true;
    }
    let last = h.len() - n.len();
    let m = n.len();
    let mut i: usize = 0;
    while i <= last
        invariant
            i <= last + 1,
            last < h@.len(),
            forall|k: int| 0 <= k < i ==> #[trigger] h@.subrange(k, k + n@.len()) != n@,
        decreases last + 1 - i,
    {
        let mut j: usize = 0;
        let mut same = true;
        while j < m
            invariant
                j <= m,
                i <= last,
                same ==> forall|k: int| 0 <= k < j ==> h@[i + k] == n@[k],
                !same ==> h@.subrange(i as int, i + n@.len()) != n@,
            decreases m - j,
        {
            if same {
                if h[i + j] != n[j] {
                    proof {
                        assert(h@.subrange(i as int, i + n@.len())[j as int] != n@[j as int]);
                    }
                    same = false;
                }
            }
            j += 1;
        }
        if same {
            proof {
                assert(h@.subrange(i as int, i + n@.len()) =~= n@);
            }
            return true;
        }
        i += 1;
    }
    false
}

} // verus!

verus! {

/// The integer a string of decimal digit bytes denotes.
pub open spec fn digits_value(s: Seq<u8>) -> int
    decreases s.len(),
{
    if s.len() == 0 {
        0
    } else {
        10 * digits_value(s.subrange(0, s.len() - 1)) + (s[s.len() - 1] - 48)
    }
}

/// Whether the sequence is one or more decimal digit bytes.
pub open spec fn is_digits(s: Seq<u8>) -> bool {
    s.len() > 0 && forall|i: int| 0 <= i < s.len() ==> 48 <= #[trigger] s[i] <= 57
}

/// Whether the bytes are the canonical decimal rendering of an integer
/// in the signed 64-bit range: no leading zero, no negative zero.
pub open spec fn is_i64_rendering(s: Seq<u8>) -> bool {
    if s.len() >= 2 && s[0] == 45 {
        let t = s.subrange(1, s.len() as int);
        is_digits(t) && t[0] != 48 && digits_value(t) <= 0x8000000000000000
    } else {
        is_digits(s) && (s.len() == 1 || s[0] != 48) && digits_value(s) <= 0x7fffffffffffffff
    }
}

proof fn lemma_digits_value_nonneg(s: Seq<u8>)
    requires
        forall|i: int| 0 <= i < s.len() ==> 48 <= #[trigger] s[i] <= 57,
    ensures
        digits_value(s) >= 0,
    decreases s.len(),
{
    if s.len() > 0 {
        lemma_digits_value_nonneg(s.subrange(0, s.len() - 1));
    }
}

proof fn lemma_digits_value_grows(s: Seq<u8>, i: int, j: int)
    requires
        forall|k: int| 0 <= k < s.len() ==> 48 <= #[trigger] s[k] <= 57,
        0 <= i <= j <= s.len(),
    ensures
        digits_value(s.subrange(0, i)) <= digits_value(s.subrange(0, j)),
    decreases j - i,
{
    if i < j {
        lemma_digits_value_grows(s, i, j - 1);
        let p = s.subrange(0, j - 1);
        let q = s.subrange(0, j);
        assert(q.subrange(0, q.len() - 1) =~= p);
        lemma_digits_value_nonneg(p);
    }
}

/// Decides whether digit bytes `s[from..]` denote a value at most
/// `bound`, all of `s[from..]` being digits already checked.
#[verifier::loop_isolation(false)]
fn digits_fit(s: &[u8], from: usize, bound: u64) -> (r: bool)
    requires
        from <= s@.len(),
        forall|k: int| 0 <= k < s@.len() ==> 48 <= #[trigger] s@[k] <= 57,
    ensures
        r == (digits_value(s@.subrange(from as int, s@.len() as int)) <= bound),
{
    let ghost t = s@.subrange(from as int, s@.len() as int);
    proof {
        assert(forall|k: int| 0 <= k < t.len() ==> 48 <= #[trigger] t[k] <= 57);
    }
    let n = s.len();
    let mut val: u64 = 0;
    let mut i: usize = from;
    proof {
        assert(t.subrange(0, 0) =~= Seq::<u8>::empty());
    }
    while i < n
        invariant
            from <= i <= n,
            n == s@.len(),
            val == digits_value(t.subrange(0, i - from)),
            val <= bound,
        decreases n - i,
    {
        let d = s[i] - 48;
        proof {
            assert(t.subrange(0, i + 1 - from).subrange(0, (i + 1 - from) - 1)
                =~= t.subrange(0, i - from));
            assert(t.subrange(0, i + 1 - from).last() == t[i - from]);
            assert(digits_value(t.subrange(0, i + 1 - from))
                == 10 * (val as int) + (s@[i as int] - 48));
        }
        if val > bound / 10 || (val == bound / 10 && (d as u64) > bound % 10) {
            proof {
                assert(10 * (val as int) + (d as int) > bound) by (nonlinear_arith)
                    requires
                        val > bound / 10 || (val == bound / 10 && d > bound % 10),
                        bound == 10 * (bound / 10) + (bound % 10),
                        d >= 0,
                        val >= 0,
                ;
                lemma_digits_value_grows(t, i + 1 - from, t.len() as int);
                assert(t.subrange(0, t.len() as int) =~= t);
            }
            return false;
        }
        val = val * 10 + (d as u64);
        i += 1;
    }
    proof {
        assert(t.subrange(0, n - from) =~= t);
    }
    true
}

/// Decides whether the bytes canonically render an integer in the
/// signed 64-bit range.
#[verifier::loop_isolation(false)]
pub fn check_i64_rendering(s: &[u8]) -> (r: bool)
    ensures
        r == is_i64_rendering(s@),
{
    let n = s.len();
    if n == 0 {
        return false;
    }
    let negative = s[0] == 45 && n >= 2;
    let start: usize = if negative { 1 } else { 0 };
    let mut i: usize = start;
    while i < n
        invariant
            start <= i <= n,
            n == s@.len(),
            forall|k: int| start <= k < i ==> 48 <= #[trigger] s@[k] <= 57,
        decreases n - i,
    {
        let b = s[i];
        if b < 48 || b > 57 {
            proof {
                if negative {
                    let t = s@.subrange(1, s@.len() as int);
                    assert(t[i - 1] == s@[i as int]);
                }
            }
            return false;
        }
        i += 1;
    }
    if negative {
        let ghost t = s@.subrange(1, s@.len() as int);
        proof {
            assert(forall|k: int| 0 <= k < t.len() ==> 48 <= #[trigger] t[k] <= 57);
        }
        if s[1] == 48 {
            return false;
        }
        digits_fit_from_one(s)
    } else {
        if n > 1 && s[0] == 48 {
            return false;
        }
        proof {
            assert(s@.subrange(0, s@.len() as int) =~= s@);
        }
        digits_fit(s, 0, 9223372036854775807)
    }
}

/// Decides whether the digits after a leading minus fit the magnitude of
/// the most negative signed 64-bit integer.
#[verifier::loop_isolation(false)]
fn digits_fit_from_one(s: &[u8]) -> (r: bool)
    requires
        s@.len() >= 2,
        forall|k: int| 1 <= k < s@.len() ==> 48 <= #[trigger] s@[k] <= 57,
    ensures
        r == (digits_value(s@.subrange(1, s@.len() as int)) <= 0x8000000000000000),
{
    let ghost t = s@.subrange(1, s@.len() as int);
    let n = s.len();
    let mut val: u64 = 0;
    let mut i: usize = 1;
    let bound: u64 = 9223372036854775808;
    proof {
        assert(t.subrange(0, 0) =~= Seq::<u8>::empty());
    }
    while i < n
        invariant
            1 <= i <= n,
            n == s@.len(),
            val == digits_value(t.subrange(0, i - 1)),
            val <= bound,
        decreases n - i,
    {
        let d = s[i] - 48;
        proof {
            assert(t.subrange(0, i as int).subrange(0, i - 1) =~= t.subrange(0, i - 1));
            assert(t.subrange(0, i as int).last() == t[i - 1]);
            assert(digits_value(t.subrange(0, i as int)) == 10 * (val as int) + (s@[i as int] - 48));
        }
        if val > bound / 10 || (val == bound / 10 && (d as u64) > bound % 10) {
            proof {
                assert(10 * (val as int) + (d as int) > bound) by (nonlinear_arith)
                    requires
                        val > bound / 10 || (val == bound / 10 && d > bound % 10),
                        bound == 10 * (bound / 10) + (bound % 10),
                        d >= 0,
                        val >= 0,
                ;
                lemma_digits_value_grows(t, i as int, t.len() as int);
                assert(t.subrange(0, t.len() as int) =~= t);
            }
            return false;
        }
        val = val * 10 + (d as u64);
        i += 1;
    }
    proof {
        assert(t.subrange(0, n - 1) =~= t);
    }
    true
}

} // verus!
