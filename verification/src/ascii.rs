//! Byte-level helpers for the ASCII text that SIP puts on the wire.

use vstd::prelude::*;
use vstd::string::StrSliceExecFns;

verus! {

/// The bytes of an ASCII character sequence, one byte per character.
pub open spec fn ascii_bytes(cs: Seq<char>) -> Seq<u8> {
    Seq::new(cs.len(), |i: int| cs[i] as u8)
}

/// Copies the bytes of an ASCII string slice.
pub fn str_bytes(s: &str) -> (r: Vec<u8>)
    requires
        s.is_ascii(),
    ensures
        r@ == ascii_bytes(s@),
{
    proof {
        broadcast use vstd::string::is_ascii_spec_bytes;
    }
    s.as_bytes_vec()
}

/// ASCII lower-casing of one byte.
pub open spec fn lower(b: u8) -> u8 {
    if 65 <= b && b <= 90 {
        (b + 32) as u8
    } else {
        b
    }
}

/// ASCII lower-casing of a byte string.
pub open spec fn lower_seq(s: Seq<u8>) -> Seq<u8> {
    s.map_values(|b: u8| lower(b))
}

fn lower_byte(b: u8) -> (r: u8)
    ensures
        r == lower(b),
{
    if 65 <= b && b <= 90 {
        b + 32
    } else {
        b
    }
}

/// Case-insensitive ASCII equality on byte strings.
pub fn eq_ignore_case(a: &[u8], b: &[u8]) -> (r: bool)
    ensures
        r == (lower_seq(a@) == lower_seq(b@)),
{
    if a.len() != b.len() {
        assert(lower_seq(a@).len() != lower_seq(b@).len());
        return false;
    }
    let n = a.len();
    let mut i: usize = 0;
    while i < n
        invariant
            n == a@.len() == b@.len(),
            0 <= i <= n,
            forall|j: int| 0 <= j < i ==> lower_seq(a@)[j] == lower_seq(b@)[j],
        decreases n - i,
    {
        if lower_byte(a[i]) != lower_byte(b[i]) {
            assert(lower_seq(a@)[i as int] != lower_seq(b@)[i as int]);
            return false;
        }
        i += 1;
    }
    assert(lower_seq(a@) =~= lower_seq(b@));
    true
}

/// Exact equality on byte strings.
pub fn bytes_eq(a: &[u8], b: &[u8]) -> (r: bool)
    ensures
        r == (a@ == b@),
{
    if a.len() != b.len() {
        assert(a@.len() != b@.len());
        return false;
    }
    let n = a.len();
    let mut i: usize = 0;
    while i < n
        invariant
            n == a@.len() == b@.len(),
            0 <= i <= n,
            forall|j: int| 0 <= j < i ==> a@[j] == b@[j],
        decreases n - i,
    {
        if a[i] != b[i] {
            return false;
        }
        i += 1;
    }
    assert(a@ =~= b@);
    true
}

/// Copies `s[from..to]` into a fresh vector.
pub fn subvec(s: &[u8], from: usize, to: usize) -> (r: Vec<u8>)
    requires
        from <= to <= s@.len(),
    ensures
        r@ == s@.subrange(from as int, to as int),
{
    vstd::slice::slice_to_vec(slice_range(s, from, to))
}

/// Borrows `s[from..to]`.
pub fn slice_range(s: &[u8], from: usize, to: usize) -> (r: &[u8])
    requires
        from <= to <= s@.len(),
    ensures
        r@ == s@.subrange(from as int, to as int),
{
    &s[from..to]
}

/// The decimal digit characters of `n`, most significant first.
pub open spec fn dec_digits(n: nat) -> Seq<u8>
    decreases n,
{
    if n < 10 {
        seq![(48 + n) as u8]
    } else {
        dec_digits(n / 10).push((48 + n % 10) as u8)
    }
}

/// Formats `n` in decimal.
pub fn u64_to_dec(n: u64) -> (r: Vec<u8>)
    ensures
        r@ == dec_digits(n as nat),
    decreases n,
{
    if n < 10 {
        let mut v: Vec<u8> = Vec::new();
        v.push(48 + n as u8);
        assert(v@ =~= dec_digits(n as nat));
        v
    } else {
        let mut v = u64_to_dec(n / 10);
        v.push(48 + (n % 10) as u8);
        assert(v@ =~= dec_digits(n as nat));
        v
    }
}

/// Whether `b` is a decimal digit character.
pub open spec fn is_digit(b: u8) -> bool {
    48 <= b && b <= 57
}

/// Whether every byte of `s` is a decimal digit character.
pub open spec fn all_digits(s: Seq<u8>) -> bool {
    forall|i: int| 0 <= i < s.len() ==> is_digit(#[trigger] s[i])
}

/// The numeric value of the digit string `s`.
pub open spec fn dec_val(s: Seq<u8>) -> int
    decreases s.len(),
{
    if s.len() == 0 {
        0
    } else {
        dec_val(s.drop_last()) * 10 + s.last() - 48
    }
}

pub proof fn lemma_dec_val_prefix_grows(s: Seq<u8>, n: int)
    requires
        0 <= n <= s.len(),
        all_digits(s),
    ensures
        dec_val(s) >= dec_val(s.subrange(0, n)),
        dec_val(s.subrange(0, n)) >= 0,
    decreases s.len() - n,
{
    if n == s.len() {
        assert(s.subrange(0, n) =~= s);
        lemma_dec_val_nonneg(s);
    } else {
        lemma_dec_val_prefix_grows(s, n + 1);
        let t = s.subrange(0, n + 1);
        assert(t.drop_last() =~= s.subrange(0, n));
        lemma_dec_val_nonneg(s.subrange(0, n));
    }
}

pub proof fn lemma_dec_val_nonneg(s: Seq<u8>)
    requires
        all_digits(s),
    ensures
        dec_val(s) >= 0,
    decreases s.len(),
{
    if s.len() > 0 {
        assert(all_digits(s.drop_last()));
        lemma_dec_val_nonneg(s.drop_last());
    }
}

/// A digit string with no leading zero prints back to itself: formatting
/// its numeric value reproduces the digits exactly.
pub proof fn lemma_dec_digits_canon(s: Seq<u8>)
    requires
        s.len() > 0,
        all_digits(s),
        s.len() > 1 ==> s[0] != 48,
    ensures
        dec_val(s) >= 0,
        dec_digits(dec_val(s) as nat) == s,
    decreases s.len(),
{
    lemma_dec_val_nonneg(s);
    assert(dec_val(Seq::<u8>::empty()) == 0);
    if s.len() == 1 {
        assert(s.drop_last() =~= Seq::<u8>::empty());
        assert(dec_val(s) == dec_val(s.drop_last()) * 10 + s.last() - 48);
        assert(dec_val(s) == s[0] - 48);
        assert(dec_digits(dec_val(s) as nat) =~= s);
    } else {
        let p = s.drop_last();
        assert(all_digits(p));
        lemma_dec_digits_canon(p);
        lemma_dec_val_prefix_grows(p, 1);
        assert(p.subrange(0, 1).drop_last() =~= Seq::<u8>::empty());
        assert(dec_val(p.subrange(0, 1)) == dec_val(p.subrange(0, 1).drop_last()) * 10
            + p.subrange(0, 1).last() - 48);
        assert(dec_val(p.subrange(0, 1)) == p[0] - 48);
        assert(p[0] != 48);
        assert(dec_val(p) >= 1);
        let v = dec_val(s);
        assert(v == dec_val(p) * 10 + (s.last() - 48));
        assert(v >= 10);
        assert(v / 10 == dec_val(p) && v % 10 == s.last() - 48) by (nonlinear_arith)
            requires
                v == dec_val(p) * 10 + (s.last() - 48),
                48 <= s.last() <= 57,
                dec_val(p) >= 0,
        ;
        assert(dec_digits(v as nat) == dec_digits((v / 10) as nat).push((48 + v % 10) as u8));
        assert(dec_digits(v as nat) =~= s);
    }
}

/// Parses a non-empty digit string whose value fits in a `u32`.
pub fn parse_dec(s: &[u8]) -> (r: Option<u32>)
    ensures
        r is Some <==> s@.len() > 0 && all_digits(s@) && dec_val(s@) <= u32::MAX,
        r is Some ==> r.unwrap() as int == dec_val(s@),
{
    let n = s.len();
    if n == 0 {
        return None;
    }
    let mut acc: u64 = 0;
    let mut i: usize = 0;
    while i < n
        invariant
            n == s@.len(),
            0 <= i <= n,
            all_digits(s@.subrange(0, i as int)),
            acc as int == dec_val(s@.subrange(0, i as int)),
            acc <= u32::MAX,
        decreases n - i,
    {
        let b = s[i];
        if b < 48 || b > 57 {
            assert(!is_digit(s@[i as int]));
            return None;
        }
        acc = acc * 10 + (b - 48) as u64;
        assert(s@.subrange(0, i + 1).drop_last() =~= s@.subrange(0, i as int));
        i += 1;
        if acc > u32::MAX as u64 {
            if i < n {
                // whatever follows, the full value can only be larger (or
                // a later byte is not a digit at all)
                proof {
                    if all_digits(s@) {
                        lemma_dec_val_prefix_grows(s@, i as int);
                    }
                }
            } else {
                assert(s@.subrange(0, i as int) =~= s@);
            }
            return None;
        }
    }
    assert(s@.subrange(0, n as int) =~= s@);
    Some(acc as u32)
}

/// Formatting a number yields plain digits whose value is the number.
pub proof fn lemma_dec_digits_value(n: nat)
    ensures
        dec_digits(n).len() >= 1,
        all_digits(dec_digits(n)),
        dec_val(dec_digits(n)) == n,
    decreases n,
{
    if n < 10 {
        let s = dec_digits(n);
        assert(s.drop_last() =~= Seq::<u8>::empty());
        assert(dec_val(s) == dec_val(s.drop_last()) * 10 + s.last() - 48);
    } else {
        lemma_dec_digits_value(n / 10);
        let s = dec_digits(n);
        assert(s.drop_last() =~= dec_digits(n / 10));
        assert(dec_val(s) == dec_val(dec_digits(n / 10)) * 10 + s.last() - 48);
        assert(n / 10 * 10 + n % 10 == n) by {
            vstd::arithmetic::div_mod::lemma_fundamental_div_mod(n as int, 10);
        }
    }
}

/// Whether bytes `i .. i+4` of `s` are the double CRLF that ends a SIP
/// header block.
pub open spec fn crlf2_at(s: Seq<u8>, i: int) -> bool {
    0 <= i && i + 4 <= s.len() && s[i] == 13 && s[i + 1] == 10 && s[i + 2] == 13 && s[i + 3] == 10
}

/// Finds the first double CRLF in `s`.
pub fn find_crlfcrlf(s: &[u8]) -> (r: Option<usize>)
    ensures
        match r {
            Some(i) => crlf2_at(s@, i as int) && forall|j: int| 0 <= j < i ==> !crlf2_at(s@, j),
            None => forall|j: int| !crlf2_at(s@, j),
        },
{
    let n = s.len();
    if n < 4 {
        return None;
    }
    let mut i: usize = 0;
    while i <= n - 4
        invariant
            n == s@.len(),
            4 <= n,
            0 <= i <= n - 3,
            forall|j: int| 0 <= j < i ==> !crlf2_at(s@, j),
        decreases n - i,
    {
        if s[i] == 13 && s[i + 1] == 10 && s[i + 2] == 13 && s[i + 3] == 10 {
            return Some(i);
        }
        i += 1;
    }
    None
}

/// Whether `p` is a prefix of `s`.
pub open spec fn starts_with(s: Seq<u8>, p: Seq<u8>) -> bool {
    p.len() <= s.len() && s.subrange(0, p.len() as int) == p
}

/// Tests whether `p` is a prefix of `s`.
pub fn has_prefix(s: &[u8], p: &[u8]) -> (r: bool)
    ensures
        r == starts_with(s@, p@),
{
    let n = s.len();
    let pn = p.len();
    if pn > n {
        return false;
    }
    bytes_eq(slice_range(s, 0, pn), p)
}

/// Finds the first occurrence of `b` in `s`.
pub fn find_byte(s: &[u8], b: u8) -> (r: Option<usize>)
    ensures
        match r {
            Some(i) => 0 <= i < s@.len() && s@[i as int] == b && forall|j: int|
                0 <= j < i ==> s@[j] != b,
            None => forall|j: int| 0 <= j < s@.len() ==> s@[j] != b,
        },
{
    let n = s.len();
    let mut i: usize = 0;
    while i < n
        invariant
            n == s@.len(),
            0 <= i <= n,
            forall|j: int| 0 <= j < i ==> s@[j] != b,
        decreases n - i,
    {
        if s[i] == b {
            return Some(i);
        }
        i += 1;
    }
    None
}

/// Whether bytes `i .. i+2` of `s` are a CRLF.
pub open spec fn crlf_at(s: Seq<u8>, i: int) -> bool {
    0 <= i && i + 2 <= s.len() && s[i] == 13 && s[i + 1] == 10
}

/// Finds the first CRLF at or after `from`.
pub fn find_crlf_from(s: &[u8], from: usize) -> (r: Option<usize>)
    requires
        from <= s@.len(),
    ensures
        match r {
            Some(i) => from <= i && crlf_at(s@, i as int) && forall|j: int|
                from <= j < i ==> !crlf_at(s@, j),
            None => forall|j: int| from <= j ==> !crlf_at(s@, j),
        },
{
    let n = s.len();
    if n < 2 {
        return None;
    }
    let mut i: usize = from;
    while i <= n - 2
        invariant
            n == s@.len(),
            2 <= n,
            from <= i,
            i <= n,
            forall|j: int| from <= j < i ==> !crlf_at(s@, j),
        decreases n - i,
    {
        if s[i] == 13 && s[i + 1] == 10 {
            return Some(i);
        }
        i += 1;
    }
    None
}

} // verus!
