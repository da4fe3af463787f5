//! The line formatter: turns the run state into the single output line.
//!
//! Each configured field's text is truncated to its byte budget — never
//! splitting a UTF-8 character, optionally backing off to the last
//! whitespace, optionally marked with a break character — and the fields
//! are joined with the configured separator, after an optional prefix.
//! Under the suppression rules the line is empty.  The formatter reads
//! the state and writes nothing back, so formatting an unchanged state
//! twice gives byte-identical output.

use vstd::prelude::*;
use vstd::utf8::{encode_scalar, encode_utf8};
use vstd::string::StrSliceExecFns;
use crate::config::{Config, Field};
use crate::state::Data;
use crate::text::{
    char_utf8, copy_bytes, fuzzy_cutoff, get_char_boundary, is_cut_boundary, is_ws_start,
};

verus! {

/// The nearest cut point of `s` at or below `i`.
pub open spec fn cut_at(s: Seq<u8>, i: int) -> int
    decreases i,
{
    if i <= 0 {
        0
    } else if is_cut_boundary(s, i) {
        i
    } else {
        cut_at(s, i - 1)
    }
}

proof fn lemma_cut_at(s: Seq<u8>, m: int)
    requires
        0 <= m <= s.len(),
    ensures
        0 <= cut_at(s, m) <= m,
        is_cut_boundary(s, cut_at(s, m)),
        forall|j: int| cut_at(s, m) < j <= m ==> !is_cut_boundary(s, j),
    decreases m,
{
    if m <= 0 {
    } else if is_cut_boundary(s, m) {
    } else {
        lemma_cut_at(s, m - 1);
    }
}

/// Truncation never splits a character: on valid UTF-8 text the chosen
/// cut point is a character boundary of the encoding, and the bytes kept
/// are themselves valid UTF-8.
pub proof fn lemma_cut_keeps_utf8(s: Seq<u8>, max: int)
    requires
        vstd::utf8::valid_utf8(s),
        0 <= max <= s.len(),
    ensures
        vstd::utf8::is_char_boundary(s, cut_at(s, max)),
        vstd::utf8::valid_utf8(s.take(cut_at(s, max))),
{
    lemma_cut_at(s, max);
    let c = cut_at(s, max);
    vstd::utf8::is_char_boundary_start_end_of_seq(s);
    if c != 0 && c != s.len() {
        vstd::utf8::is_char_boundary_iff_not_is_continuation_byte(s, c);
    }
    vstd::utf8::valid_utf8_split(s, c);
    assert(s.take(c) =~= s.subrange(0, c));
}

/// The position of the last whitespace start strictly below `i`, or `-1`
/// when there is none.
pub open spec fn last_ws(s: Seq<u8>, i: int) -> int
    decreases i,
{
    if i <= 0 {
        -1
    } else if is_ws_start(s, i - 1) {
        i - 1
    } else {
        last_ws(s, i - 1)
    }
}

proof fn lemma_last_ws(s: Seq<u8>, i: int)
    requires
        0 <= i,
    ensures
        last_ws(s, i) == -1 ==> forall|j: int| 0 <= j < i ==> !is_ws_start(s, j),
        last_ws(s, i) != -1 ==> {
            &&& 0 <= last_ws(s, i) < i
            &&& is_ws_start(s, last_ws(s, i))
            &&& forall|j: int| last_ws(s, i) < j < i ==> !is_ws_start(s, j)
        },
    decreases i,
{
    if i <= 0 {
    } else if is_ws_start(s, i - 1) {
    } else {
        lemma_last_ws(s, i - 1);
    }
}

/// The length the fuzzy rule cuts a truncated text back to: the start of
/// its last whitespace character, or zero when it holds no whitespace.
pub open spec fn ws_cut(t: Seq<u8>) -> int {
    if last_ws(t, t.len() as int) < 0 {
        0
    } else {
        last_ws(t, t.len() as int)
    }
}

/// The truncation of field text `s` to `max` bytes: text under the budget
/// passes unchanged; text at or over it is cut at the nearest character
/// boundary not beyond `max`, cut further back to the last whitespace
/// when the fuzzy rule is on, and marked with the break character when
/// one is configured.
pub open spec fn trunc_spec(s: Seq<u8>, max: int, fuzzy: bool, brk: Option<char>) -> Seq<u8> {
    if s.len() >= max {
        let t1 = s.take(cut_at(s, max));
        let t2 = if fuzzy {
            t1.take(ws_cut(t1))
        } else {
            t1
        };
        match brk {
            Some(c) => t2 + encode_scalar(c as u32),
            None => t2,
        }
    } else {
        s
    }
}

/// Truncates one field text to its byte budget.
pub fn trunc_field(s: &Vec<u8>, max: u32, fuzzy: bool, brk: Option<char>) -> (r: Vec<u8>)
    ensures
        r@ == trunc_spec(s@, max as int, fuzzy, brk),
{
    if s.len() >= max as usize {
        let cut = get_char_boundary(s, max as usize);
        proof {
            lemma_cut_at(s@, max as int);
            assert(cut as int == cut_at(s@, max as int));
        }
        let mut t: Vec<u8> = Vec::new();
        let mut i: usize = 0;
        while i < cut
            invariant
                cut <= s@.len(),
                i <= cut,
                t@ == s@.subrange(0, i as int),
            decreases cut - i,
        {
            t.push(s[i]);
            proof {
                assert(t@ =~= s@.subrange(0, i as int + 1));
            }
            i = i + 1;
        }
        proof {
            assert(t@ =~= s@.take(cut_at(s@, max as int)));
        }
        if fuzzy {
            let fc = fuzzy_cutoff(&t);
            proof {
                lemma_last_ws(t@, t@.len() as int);
            }
            let newlen: usize = if fc == usize::MAX {
                proof {
                    if last_ws(t@, t@.len() as int) >= 0 {
                        assert(is_ws_start(t@, last_ws(t@, t@.len() as int)));
                    }
                }
                0
            } else {
                proof {
                    assert(is_ws_start(t@, fc as int));
                    assert(fc as int == last_ws(t@, t@.len() as int));
                }
                fc
            };
            proof {
                assert(newlen == ws_cut(t@));
                assert(newlen <= t@.len());
            }
            t.truncate(newlen);
            proof {
                assert(t@ =~= s@.take(cut_at(s@, max as int)).take(
                    ws_cut(s@.take(cut_at(s@, max as int))),
                ));
            }
        }
        match brk {
            Some(c) => {
                let mut cb = char_utf8(c);
                t.append(&mut cb);
                t
            },
            None => t,
        }
    } else {
        copy_bytes(s)
    }
}

/// The truncated texts of the first `i` configured fields whose key has
/// text in the field map, in field order.
pub open spec fn pieces_spec(
    fields: Seq<Field>,
    ft: Map<Seq<u8>, Seq<u8>>,
    fuzzy: bool,
    brk: Option<char>,
    i: int,
) -> Seq<Seq<u8>>
    decreases i,
{
    if i <= 0 {
        Seq::empty()
    } else {
        let rest = pieces_spec(fields, ft, fuzzy, brk, i - 1);
        let f = fields[i - 1];
        if ft.dom().contains(f.field@) {
            rest.push(trunc_spec(ft[f.field@], f.num_chars as int, fuzzy, brk))
        } else {
            rest
        }
    }
}

/// The given texts joined with the separator between consecutive ones.
pub open spec fn sep_join(pieces: Seq<Seq<u8>>, sep: Seq<u8>, j: int) -> Seq<u8>
    decreases j,
{
    if j <= 0 {
        Seq::empty()
    } else if j == 1 {
        pieces[0]
    } else {
        sep_join(pieces, sep, j - 1) + sep + pieces[j - 1]
    }
}

/// True when the formatter suppresses the line: output is hidden while no
/// player is active, or there is no field text, or no field is
/// configured.
pub open spec fn suppressed(cfg: Config, d: Data) -> bool {
    ||| (cfg.hide_output && d.current_player is None)
    ||| d.field_text.as_bmap().dom() == Set::<Seq<u8>>::empty()
    ||| cfg.metadata_fields@.len() == 0
}

/// The output line for a state: empty under the suppression rules, else
/// the optional prefix followed by two spaces, then the present fields'
/// truncated texts joined by the separator.
pub open spec fn format_spec(cfg: Config, d: Data) -> Seq<u8> {
    if suppressed(cfg, d) {
        Seq::empty()
    } else {
        let ps = pieces_spec(
            cfg.metadata_fields@,
            d.field_text.as_bmap(),
            cfg.fuzzy,
            cfg.break_character,
            cfg.metadata_fields@.len() as int,
        );
        let body = sep_join(ps, cfg.metadata_separator@, ps.len() as int);
        if cfg.render_prefix {
            d.prefix@ + encode_utf8("  "@) + body
        } else {
            body
        }
    }
}

/// Formats the output line for the given state.  The state is only read:
/// the same state always formats to the same bytes.
pub fn format_line(cfg: &Config, data: &Data) -> (r: Vec<u8>)
    requires
        data.field_text.wf(),
    ensures
        r@ == format_spec(*cfg, *data),
{
    if (cfg.hide_output && data.current_player.is_none()) || data.field_text.is_empty()
        || cfg.metadata_fields.len() == 0 {
        proof {
            assert(suppressed(*cfg, *data));
        }
        Vec::new()
    } else {
        let nf = cfg.metadata_fields.len();
        let mut pieces: Vec<Vec<u8>> = Vec::new();
        let mut fi: usize = 0;
        while fi < nf
            invariant
                data.field_text.wf(),
                nf == cfg.metadata_fields@.len(),
                fi <= nf,
                ({
                    let ps = pieces_spec(
                        cfg.metadata_fields@,
                        data.field_text.as_bmap(),
                        cfg.fuzzy,
                        cfg.break_character,
                        fi as int,
                    );
                    &&& pieces@.len() == ps.len()
                    &&& forall|x: int| 0 <= x < ps.len() ==> pieces@[x]@ == ps[x]
                }),
            decreases nf - fi,
        {
            let f = &cfg.metadata_fields[fi];
            match data.field_text.get(&f.field) {
                Some(text) => {
                    pieces.push(trunc_field(text, f.num_chars, cfg.fuzzy, cfg.break_character));
                },
                None => (),
            }
            fi = fi + 1;
        }
        let ghost ps = pieces_spec(
            cfg.metadata_fields@,
            data.field_text.as_bmap(),
            cfg.fuzzy,
            cfg.break_character,
            nf as int,
        );
        let mut out: Vec<u8> = if cfg.render_prefix {
            let mut o = copy_bytes(&data.prefix);
            let mut sp = "  ".as_bytes_vec();
            o.append(&mut sp);
            o
        } else {
            Vec::new()
        };
        let ghost head = out@;
        let np = pieces.len();
        let mut j: usize = 0;
        while j < np
            invariant
                np == pieces@.len(),
                np == ps.len(),
                j <= np,
                forall|x: int| 0 <= x < ps.len() ==> pieces@[x]@ == ps[x],
                out@ == head + sep_join(ps, cfg.metadata_separator@, j as int),
            decreases np - j,
        {
            if j > 0 {
                out.extend_from_slice(cfg.metadata_separator.as_slice());
            }
            out.extend_from_slice(pieces[j].as_slice());
            proof {
                assert(out@ =~= head + sep_join(ps, cfg.metadata_separator@, j as int + 1));
            }
            j = j + 1;
        }
        proof {
            assert(!suppressed(*cfg, *data));
            assert(out@ =~= format_spec(*cfg, *data));
        }
        out
    }
}

/// Formatting is a pure function of the configuration and the state: any
/// two outputs that meet the formatter's contract on the same unchanged
/// state are byte-identical.
pub proof fn lemma_format_deterministic(cfg: Config, d: Data, r1: Seq<u8>, r2: Seq<u8>)
    requires
        r1 == format_spec(cfg, d),
        r2 == format_spec(cfg, d),
    ensures
        r1 == r2,
{
}

} // verus!
