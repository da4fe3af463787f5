//! Typed metadata values and their rendering into display text.
//!
//! A player reports each metadata entry as one of a fixed set of shapes:
//! text, integers of several widths, a double, a boolean, or an array of
//! further values.  Two shapes — a nested map and an unknown type — carry
//! no sensible display form; rendering them fails with an explicit error
//! rather than crashing, and the caller decides what stands in for them.

use vstd::prelude::*;
use vstd::utf8::{encode_scalar, encode_utf8};
use vstd::string::StrSliceExecFns;
use crate::text::{copy_bytes, char_utf8, dec_int, i64_to_dec, u64_to_dec};

verus! {

broadcast use vstd::std_specs::vec::axiom_vec_index_decreases;

/// One metadata value, as handed over by the player transport.
///
/// Text is carried as UTF-8 bytes.  A double carries the bytes of its
/// decimal rendering together with its value rounded to tenths, which is
/// all the rating ladder reads of it; both are computed where the floating
/// point value lives, outside this crate.
pub enum MetaValue {
    /// A text value, as UTF-8 bytes.
    Text(Vec<u8>),
    /// A signed 16-bit integer.
    I16(i16),
    /// A signed 32-bit integer.
    I32(i32),
    /// A signed 64-bit integer.
    I64(i64),
    /// An unsigned 8-bit integer.
    U8(u8),
    /// An unsigned 16-bit integer.
    U16(u16),
    /// An unsigned 32-bit integer.
    U32(u32),
    /// An unsigned 64-bit integer.
    U64(u64),
    /// A double: its decimal rendering, and its value rounded to tenths.
    Double { text: Vec<u8>, tenths: i64 },
    /// A boolean.
    Bool(bool),
    /// An array of further values.
    Array(Vec<MetaValue>),
    /// A nested map: carries no display form.
    NestedMap,
    /// A value of a kind the transport itself does not understand.
    Unknown,
}

/// Rendering failure: the value holds a shape with no display form.
#[derive(Debug, PartialEq, Eq, Structural)]
pub enum RenderError {
    Unrepresentable,
}

/// The display bytes of a value: scalars in their natural decimal or text
/// form, arrays as their elements' renderings joined by the separator.
/// `None` for the two unrepresentable shapes, anywhere in the value.
pub open spec fn render_spec(v: MetaValue, sep: char) -> Option<Seq<u8>>
    decreases v, 0int,
{
    match v {
        MetaValue::Text(b) => Some(b@),
        MetaValue::I16(x) => Some(dec_int(x as int)),
        MetaValue::I32(x) => Some(dec_int(x as int)),
        MetaValue::I64(x) => Some(dec_int(x as int)),
        MetaValue::U8(x) => Some(dec_int(x as int)),
        MetaValue::U16(x) => Some(dec_int(x as int)),
        MetaValue::U32(x) => Some(dec_int(x as int)),
        MetaValue::U64(x) => Some(dec_int(x as int)),
        MetaValue::Double { text, tenths } => Some(text@),
        MetaValue::Bool(b) => Some(
            if b {
                encode_utf8("true"@)
            } else {
                encode_utf8("false"@)
            },
        ),
        MetaValue::Array(elems) => render_arr_spec(elems, sep, elems@.len() as int),
        MetaValue::NestedMap => None,
        MetaValue::Unknown => None,
    }
}

/// The rendering of the first `i` elements of an array, joined by the
/// separator character.
pub open spec fn render_arr_spec(elems: Vec<MetaValue>, sep: char, i: int) -> Option<Seq<u8>>
    decreases elems, i,
    when i <= elems@.len()
{
    if i <= 0 {
        Some(Seq::empty())
    } else {
        match (render_arr_spec(elems, sep, i - 1), render_spec(elems@[i - 1], sep)) {
            (Some(b), Some(e)) => Some(
                if i == 1 {
                    e
                } else {
                    b + encode_scalar(sep as u32) + e
                },
            ),
            _ => None,
        }
    }
}

/// Once a prefix of the array fails to render, the whole array does.
proof fn lemma_arr_none(elems: Vec<MetaValue>, sep: char, i: int, n: int)
    requires
        0 <= i <= n <= elems@.len(),
        render_arr_spec(elems, sep, i) is None,
    ensures
        render_arr_spec(elems, sep, n) is None,
    decreases n - i,
{
    if i < n {
        lemma_arr_none(elems, sep, i + 1, n);
    }
}

/// Renders one metadata value into display bytes: scalars in their natural
/// form, arrays element-wise with the separator between elements.  The two
/// unrepresentable shapes — and any array containing one — give an error.
pub fn render(v: &MetaValue, sep: char) -> (r: Result<Vec<u8>, RenderError>)
    ensures
        match r {
            Ok(b) => render_spec(*v, sep) == Some(b@),
            Err(_) => render_spec(*v, sep) is None,
        },
    decreases *v,
{
    match v {
        MetaValue::Text(b) => Ok(copy_bytes(b)),
        MetaValue::I16(x) => Ok(i64_to_dec(*x as i64)),
        MetaValue::I32(x) => Ok(i64_to_dec(*x as i64)),
        MetaValue::I64(x) => Ok(i64_to_dec(*x)),
        MetaValue::U8(x) => Ok(u64_to_dec(*x as u64)),
        MetaValue::U16(x) => Ok(u64_to_dec(*x as u64)),
        MetaValue::U32(x) => Ok(u64_to_dec(*x as u64)),
        MetaValue::U64(x) => Ok(u64_to_dec(*x)),
        MetaValue::Double { text, .. } => Ok(copy_bytes(text)),
        MetaValue::Bool(b) => Ok(bool_bytes(*b)),
        MetaValue::Array(elems) => {
            let n = elems.len();
            let sep_b = char_utf8(sep);
            let mut out: Vec<u8> = Vec::new();
            let mut i: usize = 0;
            proof {
                assert(render_arr_spec(*elems, sep, 0) =~= Some(Seq::<u8>::empty()));
                assert(out@ =~= Seq::<u8>::empty());
            }
            while i < n
                invariant
                    *v == MetaValue::Array(*elems),
                    n == elems@.len(),
                    i <= n,
                    render_arr_spec(*elems, sep, i as int) == Some(out@),
                    sep_b@ == encode_scalar(sep as u32),
                decreases n - i,
            {
                proof {
                    assert(decreases_to!(*v => *elems));
                    assert(decreases_to!(*elems => elems@[i as int]));
                }
                match render(&elems[i], sep) {
                    Ok(mut e) => {
                        if i > 0 {
                            out.extend_from_slice(sep_b.as_slice());
                        }
                        out.append(&mut e);
                        proof {
                            assert(render_arr_spec(*elems, sep, i as int + 1) == Some(out@));
                        }
                    },
                    Err(err) => {
                        proof {
                            lemma_arr_none(*elems, sep, i as int + 1, n as int);
                            assert(render_spec(*v, sep) is None);
                        }
                        return Err(err);
                    },
                }
                i = i + 1;
            }
            Ok(out)
        },
        MetaValue::NestedMap => Err(RenderError::Unrepresentable),
        MetaValue::Unknown => Err(RenderError::Unrepresentable),
    }
}

/// The display bytes of a boolean.
fn bool_bytes(b: bool) -> (r: Vec<u8>)
    ensures
        r@ == (if b {
            encode_utf8("true"@)
        } else {
            encode_utf8("false"@)
        }),
{
    if b {
        "true".as_bytes_vec()
    } else {
        "false".as_bytes_vec()
    }
}

impl MetaValue {
    /// A text value built from a string.
    pub fn text(s: &str) -> (r: MetaValue)
        ensures
            r == MetaValue::Text(r->Text_0),
            r matches MetaValue::Text(b) && b@ == encode_utf8(s@),
    {
        MetaValue::Text(s.as_bytes_vec())
    }
}

} // verus!
