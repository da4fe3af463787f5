//! Byte-level text utilities.
//!
//! Display text is kept as UTF-8 encoded bytes throughout the crate, so that
//! truncation budgets can be enforced in bytes while never splitting a
//! multi-byte character.  This module provides decimal rendering of integers,
//! UTF-8 encoding of single characters, character-boundary search, whitespace
//! search, and ASCII case folding.

use vstd::prelude::*;
use vstd::utf8::{encode_scalar, is_continuation_byte};

verus! {

/// Decimal digits of `n`, most significant first, as ASCII bytes.
pub open spec fn dec_digits(n: nat) -> Seq<u8>
    decreases n,
{
    if n < 10 {
        seq![(48 + n) as u8]
    } else {
        dec_digits(n / 10).push((48 + n % 10) as u8)
    }
}

/// Decimal rendering of a signed value: a leading `-` for negatives.
pub open spec fn dec_int(v: int) -> Seq<u8> {
    if v < 0 {
        seq![45u8] + dec_digits((-v) as nat)
    } else {
        dec_digits(v as nat)
    }
}

/// Renders an unsigned value in decimal.
pub fn u64_to_dec(n: u64) -> (r: Vec<u8>)
    ensures
        r@ == dec_digits(n as nat),
    decreases n,
{
    if n < 10 {
        let mut v: Vec<u8> = Vec::new();
        v.push(48 + n as u8);
        proof {
            assert(v@ =~= dec_digits(n as nat));
        }
        v
    } else {
        let mut v = u64_to_dec(n / 10);
        v.push(48 + (n % 10) as u8);
        v
    }
}

/// Renders a signed value in decimal.
pub fn i64_to_dec(n: i64) -> (r: Vec<u8>)
    ensures
        r@ == dec_int(n as int),
{
    if n >= 0 {
        u64_to_dec(n as u64)
    } else {
        let m: u64 = (-(n as i128)) as u64;
        let mut v: Vec<u8> = Vec::new();
        v.push(45);
        let mut d = u64_to_dec(m);
        v.append(&mut d);
        proof {
            assert(v@ =~= dec_int(n as int));
        }
        v
    }
}

/// The UTF-8 encoding of a single character.
pub fn char_utf8(c: char) -> (r: Vec<u8>)
    ensures
        r@ == encode_scalar(c as u32),
        1 <= r@.len() <= 4,
{
    proof {
        vstd::utf8::char_is_scalar(c);
    }
    let u = c as u32;
    let mut v: Vec<u8> = Vec::new();
    if u <= 0x7F {
        v.push((u & 0x7F) as u8);
    } else if u <= 0x7FF {
        v.push(0xC0 | ((u >> 6) & 0x1F) as u8);
        v.push(0x80 | (u & 0x3F) as u8);
    } else if u <= 0xFFFF {
        v.push(0xE0 | ((u >> 12) & 0x0F) as u8);
        v.push(0x80 | ((u >> 6) & 0x3F) as u8);
        v.push(0x80 | (u & 0x3F) as u8);
    } else {
        v.push(0xF0 | ((u >> 18) & 0x7) as u8);
        v.push(0x80 | ((u >> 12) & 0x3F) as u8);
        v.push(0x80 | ((u >> 6) & 0x3F) as u8);
        v.push(0x80 | (u & 0x3F) as u8);
    }
    proof {
        assert(v@ =~= encode_scalar(c as u32));
    }
    v
}

/// True when `i` is a position at which the byte string may be cut without
/// splitting a character: the start, the end, or any byte that is not a
/// UTF-8 continuation byte.
pub open spec fn is_cut_boundary(s: Seq<u8>, i: int) -> bool {
    0 <= i <= s.len() && (i == 0 || i == s.len() || !is_continuation_byte(s[i]))
}

/// True when position `i` may serve as a cut point of `s`.
pub fn boundary_at(s: &Vec<u8>, i: usize) -> (r: bool)
    requires
        i <= s@.len(),
    ensures
        r == is_cut_boundary(s@, i as int),
{
    i == 0 || i == s.len() || s[i] < 0x80 || s[i] > 0xBF
}

/// Finds the nearest cut point at or below `max_len`.  A `max_len` beyond
/// the end of the string is handed back unchanged, as a cut there has no
/// effect anyway.
pub fn get_char_boundary(s: &Vec<u8>, max_len: usize) -> (r: usize)
    ensures
        max_len > s@.len() ==> r == max_len,
        max_len <= s@.len() ==> {
            &&& r <= max_len
            &&& is_cut_boundary(s@, r as int)
            &&& forall|j: int| r < j <= max_len ==> !is_cut_boundary(s@, j)
        },
{
    if max_len > s.len() || boundary_at(s, max_len) {
        max_len
    } else {
        let mut idx = max_len;
        while !boundary_at(s, idx)
            invariant
                idx <= max_len <= s@.len(),
                forall|j: int| idx < j <= max_len ==> !is_cut_boundary(s@, j),
            decreases idx,
        {
            idx = idx - 1;
        }
        idx
    }
}

/// True when the bytes at position `i` start the UTF-8 encoding of a
/// whitespace character.  The cases are exactly the byte images of the
/// characters with the Unicode `White_Space` property: the ASCII whitespace
/// bytes, then U+0085 and U+00A0 (two bytes), then U+1680, U+2000..U+200A,
/// U+2028, U+2029, U+202F, U+205F and U+3000 (three bytes).
pub open spec fn is_ws_start(s: Seq<u8>, i: int) -> bool {
    ||| (0 <= i < s.len() && (s[i] == 9 || s[i] == 10 || s[i] == 11 || s[i] == 12 || s[i] == 13
        || s[i] == 32))
    ||| (0 <= i && i + 2 <= s.len() && s[i] == 0xC2 && (s[i + 1] == 0x85 || s[i + 1] == 0xA0))
    ||| (0 <= i && i + 3 <= s.len() && s[i] == 0xE1 && s[i + 1] == 0x9A && s[i + 2] == 0x80)
    ||| (0 <= i && i + 3 <= s.len() && s[i] == 0xE2 && s[i + 1] == 0x80 && (0x80 <= s[i + 2]
        <= 0x8A || s[i + 2] == 0xA8 || s[i + 2] == 0xA9 || s[i + 2] == 0xAF))
    ||| (0 <= i && i + 3 <= s.len() && s[i] == 0xE2 && s[i + 1] == 0x81 && s[i + 2] == 0x9F)
    ||| (0 <= i && i + 3 <= s.len() && s[i] == 0xE3 && s[i + 1] == 0x80 && s[i + 2] == 0x80)
}

/// True when a whitespace character's encoding starts at position `i`.
pub fn ws_at(s: &Vec<u8>, i: usize) -> (r: bool)
    requires
        i < s@.len(),
    ensures
        r == is_ws_start(s@, i as int),
{
    let b = s[i];
    if b == 9 || b == 10 || b == 11 || b == 12 || b == 13 || b == 32 {
        return true;
    }
    let rem = s.len() - i;
    if b == 0xC2 && rem >= 2 {
        let b1 = s[i + 1];
        return b1 == 0x85 || b1 == 0xA0;
    }
    if rem >= 3 {
        let b1 = s[i + 1];
        let b2 = s[i + 2];
        if b == 0xE1 {
            return b1 == 0x9A && b2 == 0x80;
        }
        if b == 0xE2 && b1 == 0x80 {
            return (0x80 <= b2 && b2 <= 0x8A) || b2 == 0xA8 || b2 == 0xA9 || b2 == 0xAF;
        }
        if b == 0xE2 {
            return b1 == 0x81 && b2 == 0x9F;
        }
        if b == 0xE3 {
            return b1 == 0x80 && b2 == 0x80;
        }
    }
    false
}

/// Finds the position at which the last whitespace character of the string
/// starts; when the string holds no whitespace, hands back `usize::MAX`.
pub fn fuzzy_cutoff(s: &Vec<u8>) -> (r: usize)
    ensures
        (exists|i: int| is_ws_start(s@, i)) ==> {
            &&& is_ws_start(s@, r as int)
            &&& forall|j: int| j > r ==> !is_ws_start(s@, j)
        },
        !(exists|i: int| is_ws_start(s@, i)) ==> r == usize::MAX,
{
    let mut i = s.len();
    while i > 0
        invariant
            i <= s@.len(),
            forall|j: int| j >= i ==> !is_ws_start(s@, j),
        decreases i,
    {
        i = i - 1;
        if ws_at(s, i) {
            return i;
        }
    }
    usize::MAX
}

/// The bytes of the metadata namespace marker `xesam:`.
pub open spec fn ns_prefix() -> Seq<u8> {
    seq![120u8, 101u8, 115u8, 97u8, 109u8, 58u8]
}

/// A field key with every leading `xesam:` namespace marker stripped.
pub open spec fn strip_ns_spec(k: Seq<u8>) -> Seq<u8>
    decreases k.len(),
{
    if k.len() >= 6 && k.subrange(0, 6) == ns_prefix() {
        strip_ns_spec(k.skip(6))
    } else {
        k
    }
}

/// True when the namespace marker `xesam:` stands at position `i`.
fn has_ns_at(k: &Vec<u8>, i: usize) -> (r: bool)
    requires
        i + 6 <= k@.len(),
    ensures
        r == (k@.subrange(i as int, i as int + 6) == ns_prefix()),
{
    let n = k.len();
    proof {
        assert(i + 6 <= n);
    }
    let r = k[i] == 120 && k[i + 1] == 101 && k[i + 2] == 115 && k[i + 3] == 97 && k[i + 4] == 109
        && k[i + 5] == 58;
    proof {
        if r {
            assert(k@.subrange(i as int, i as int + 6) =~= ns_prefix());
        } else {
            assert(k@.subrange(i as int, i as int + 6) != ns_prefix()) by {
                if k@.subrange(i as int, i as int + 6) == ns_prefix() {
                    assert(k@[i as int] == ns_prefix()[0]);
                    assert(k@[i as int + 1] == ns_prefix()[1]);
                    assert(k@[i as int + 2] == ns_prefix()[2]);
                    assert(k@[i as int + 3] == ns_prefix()[3]);
                    assert(k@[i as int + 4] == ns_prefix()[4]);
                    assert(k@[i as int + 5] == ns_prefix()[5]);
                }
            }
        }
    }
    r
}

/// Strips every leading `xesam:` namespace marker from a field key.
pub fn strip_ns(k: &Vec<u8>) -> (r: Vec<u8>)
    ensures
        r@ == strip_ns_spec(k@),
{
    let mut start: usize = 0;
    proof {
        assert(k@.skip(0) =~= k@);
    }
    while k.len() - start >= 6 && has_ns_at(k, start)
        invariant
            start <= k@.len(),
            strip_ns_spec(k@) == strip_ns_spec(k@.skip(start as int)),
        decreases k@.len() - start,
    {
        proof {
            assert(k@.skip(start as int).subrange(0, 6) =~= k@.subrange(
                start as int,
                start as int + 6,
            ));
            assert(k@.skip(start as int).skip(6) =~= k@.skip(start as int + 6));
        }
        start = start + 6;
    }
    proof {
        assert(k@.skip(start as int).len() < 6 || k@.skip(start as int).subrange(0, 6) =~= k@
            .subrange(start as int, start as int + 6));
        assert(strip_ns_spec(k@.skip(start as int)) == k@.skip(start as int));
    }
    let mut r: Vec<u8> = Vec::new();
    let mut i = start;
    while i < k.len()
        invariant
            start <= i <= k@.len(),
            r@ == k@.subrange(start as int, i as int),
        decreases k@.len() - i,
    {
        r.push(k[i]);
        proof {
            assert(r@ =~= k@.subrange(start as int, i as int + 1));
        }
        i = i + 1;
    }
    proof {
        assert(r@ =~= k@.skip(start as int));
    }
    r
}

/// ASCII lower-casing of one byte.
pub open spec fn lower_byte(b: u8) -> u8 {
    if 65 <= b <= 90 {
        (b + 32) as u8
    } else {
        b
    }
}

/// ASCII lower-casing of a byte string.
pub open spec fn lower_bytes(s: Seq<u8>) -> Seq<u8> {
    s.map_values(|b: u8| lower_byte(b))
}

/// Copies a byte string.
pub fn copy_bytes(b: &Vec<u8>) -> (r: Vec<u8>)
    ensures
        r@ == b@,
{
    let mut r: Vec<u8> = Vec::new();
    r.extend_from_slice(b.as_slice());
    proof {
        assert(r@ =~= b@);
    }
    r
}

/// Compares two byte strings for equality.
pub fn bytes_eq(a: &Vec<u8>, b: &Vec<u8>) -> (r: bool)
    ensures
        r == (a@ == b@),
{
    if a.len() != b.len() {
        return false;
    }
    let n = a.len();
    let mut i: usize = 0;
    while i < n
        invariant
            n == a@.len() == b@.len(),
            i <= n,
            forall|j: int| 0 <= j < i ==> a@[j] == b@[j],
        decreases n - i,
    {
        if a[i] != b[i] {
            return false;
        }
        i = i + 1;
    }
    proof {
        assert(a@ =~= b@);
    }
    true
}

/// Compares two byte strings for equality up to ASCII case.
pub fn bytes_eq_ci(a: &Vec<u8>, b: &Vec<u8>) -> (r: bool)
    ensures
        r == (lower_bytes(a@) == lower_bytes(b@)),
{
    if a.len() != b.len() {
        proof {
            assert(lower_bytes(a@).len() != lower_bytes(b@).len());
        }
        return false;
    }
    let n = a.len();
    let mut i: usize = 0;
    while i < n
        invariant
            n == a@.len() == b@.len(),
            i <= n,
            forall|j: int| 0 <= j < i ==> lower_bytes(a@)[j] == lower_bytes(b@)[j],
        decreases n - i,
    {
        let x = a[i];
        let y = b[i];
        let xl = if 65 <= x && x <= 90 { x + 32 } else { x };
        let yl = if 65 <= y && y <= 90 { y + 32 } else { y };
        if xl != yl {
            proof {
                assert(lower_bytes(a@)[i as int] != lower_bytes(b@)[i as int]);
            }
            return false;
        }
        i = i + 1;
    }
    proof {
        assert(lower_bytes(a@) =~= lower_bytes(b@));
    }
    true
}

} // verus!
