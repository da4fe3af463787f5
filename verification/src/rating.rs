//! The rating ladder: a normalized user rating, handed over as a rounded
//! number of tenths, selects one of eleven precomputed glyph rows.
//!
//! Row `i` shows `i/2` full tokens, then `i%2` half tokens, then empty
//! tokens up to five in all; each token is followed by a space.  The rows
//! are built once at startup and indexed by the clamped rating.

use vstd::prelude::*;
use vstd::utf8::encode_scalar;
use crate::meta::MetaValue;
use crate::text::{char_utf8, copy_bytes};

verus! {

/// The row of the rating table that a rating of `tenths` tenths selects:
/// the value clamped into `0 ..= 10`.
pub open spec fn rating_index_spec(tenths: int) -> int {
    if tenths < 0 {
        0
    } else if tenths > 10 {
        10
    } else {
        tenths
    }
}

/// Maps a rating, given as a rounded number of tenths of the normalized
/// value, to an index into the eleven-entry rating table.  Out-of-range
/// ratings are clamped, never rejected.
pub fn rating_to_index(tenths: i64) -> (idx: usize)
    ensures
        idx == rating_index_spec(tenths as int),
{
    if tenths < 0 {
        0
    } else if tenths > 10 {
        10
    } else {
        tenths as usize
    }
}

/// The three tokens that rating rows are built from.
pub struct Rating {
    /// The token for an empty slot.
    pub nil: char,
    /// The token for a half-filled slot.
    pub half: char,
    /// The token for a filled slot.
    pub full: char,
}

/// `n` repetitions of the token `c`, each followed by a space.
pub open spec fn rep_spec(c: char, n: nat) -> Seq<u8>
    decreases n,
{
    if n == 0 {
        Seq::empty()
    } else {
        rep_spec(c, (n - 1) as nat) + encode_scalar(c as u32) + seq![32u8]
    }
}

/// The bytes of rating row `i`: `i/2` full tokens, `i%2` half tokens, and
/// empty tokens up to five in all.
pub open spec fn rating_row(r: Rating, i: int) -> Seq<u8> {
    rep_spec(r.full, (i / 2) as nat) + rep_spec(r.half, (i % 2) as nat) + rep_spec(
        r.nil,
        (5 - i / 2 - i % 2) as nat,
    )
}

impl Rating {
    /// Repeats the token `c` `n` times, a space after each occurrence.
    pub fn repeat(c: char, n: usize) -> (r: Vec<u8>)
        ensures
            r@ == rep_spec(c, n as nat),
    {
        let enc = char_utf8(c);
        let mut out: Vec<u8> = Vec::new();
        let mut j: usize = 0;
        proof {
            assert(out@ =~= rep_spec(c, 0));
        }
        while j < n
            invariant
                j <= n,
                out@ == rep_spec(c, j as nat),
                enc@ == encode_scalar(c as u32),
            decreases n - j,
        {
            out.extend_from_slice(enc.as_slice());
            out.push(32);
            proof {
                assert(out@ =~= rep_spec(c, (j + 1) as nat));
            }
            j = j + 1;
        }
        out
    }

    /// Builds the full eleven-row table for these tokens.
    pub fn build_rating_strings(&self) -> (r: Vec<Vec<u8>>)
        ensures
            r@.len() == 11,
            forall|i: int| 0 <= i < 11 ==> r@[i]@ == rating_row(*self, i),
    {
        let mut out: Vec<Vec<u8>> = Vec::new();
        let mut i: usize = 0;
        while i < 11
            invariant
                i <= 11,
                out@.len() == i,
                forall|j: int| 0 <= j < i ==> out@[j]@ == rating_row(*self, j),
            decreases 11 - i,
        {
            let full_n = i / 2;
            let half_n = i % 2;
            let nil_n = 5 - full_n - half_n;
            let mut row = Self::repeat(self.full, full_n);
            let mut mid = Self::repeat(self.half, half_n);
            let mut tail = Self::repeat(self.nil, nil_n);
            row.append(&mut mid);
            row.append(&mut tail);
            proof {
                assert(row@ =~= rating_row(*self, i as int));
            }
            out.push(row);
            i = i + 1;
        }
        out
    }
}

/// The tokens used when the configuration names none: `-`, `/` and `+`.
impl Default for Rating {
    fn default() -> (r: Self)
        ensures
            r.nil == '-',
            r.half == '/',
            r.full == '+',
    {
        Rating { nil: '-', half: '/', full: '+' }
    }
}

/// The table row selected by a rating metadata value, when that value
/// carries a double; any other shape, or no value at all, selects nothing.
pub open spec fn rating_of(r: Option<&MetaValue>, ratings: Seq<Vec<u8>>) -> Option<Seq<u8>> {
    match r {
        Some(MetaValue::Double { text, tenths }) => Some(
            ratings[rating_index_spec(*tenths as int)]@,
        ),
        _ => None,
    }
}

/// Picks the precomputed rating row for a rating metadata value.
pub fn rating_to_string(r: Option<&MetaValue>, ratings: &Vec<Vec<u8>>) -> (out: Option<Vec<u8>>)
    requires
        ratings@.len() == 11,
    ensures
        match out {
            Some(b) => rating_of(r, ratings@) == Some(b@),
            None => rating_of(r, ratings@) is None,
        },
{
    match r {
        Some(m) => match m {
            MetaValue::Double { text: _, tenths } => {
                let idx = rating_to_index(*tenths);
                Some(copy_bytes(&ratings[idx]))
            },
            _ => None,
        },
        None => None,
    }
}

} // verus!
