//! The run configuration: which metadata fields are shown and how wide
//! they may be, which players are acceptable and in what order of
//! preference, which prefix glyph each player gets, and the rendering
//! options of the line formatter.  All of it is read-only once loaded.

use vstd::prelude::*;
use vstd::pervasive::unreached;
use vstd::utf8::encode_utf8;
use vstd::string::StrSliceExecFns;
use crate::rating::{rating_row, Rating};
use crate::table::Dict;
use crate::text::copy_bytes;

verus! {

/// One metadata field to render: its key, the byte budget of its output,
/// and an optional format template (carried along, applied by no rule
/// here).
pub struct Field {
    /// The key of the metadata field.
    pub field: Vec<u8>,
    /// The maximum length of the field's output, in bytes.
    pub num_chars: u32,
    /// A format template; `{}` stands for the field's text.
    pub format: Vec<u8>,
}

impl Field {
    /// A new field from its parts.
    pub fn new(field: Vec<u8>, num_chars: u32, format: Vec<u8>) -> (r: Self)
        ensures
            r.field == field,
            r.num_chars == num_chars,
            r.format == format,
    {
        Field { field, num_chars, format }
    }

    /// A new field from a key and budget; a missing format means the
    /// plain template `{}`.
    pub fn constructor(field: &str, num_chars: u32, format: Option<String>) -> (r: Self)
        ensures
            r.field@ == encode_utf8(field@),
            r.num_chars == num_chars,
            (match format {
                Some(f) => r.format@ == encode_utf8(f@),
                None => r.format@ == encode_utf8("{}"@),
            }),
    {
        match format {
            Some(f) => Self::new(field.as_bytes_vec(), num_chars, f.as_str().as_bytes_vec()),
            None => Self::new(field.as_bytes_vec(), num_chars, "{}".as_bytes_vec()),
        }
    }
}

/// The key under which the fallback prefix glyph is stored.
pub open spec fn default_key() -> Seq<u8> {
    encode_utf8("default"@)
}

/// The priority table used when a configuration names none.
pub open spec fn default_priorities_map() -> Map<Seq<u8>, u8> {
    map![
        encode_utf8("Clementine"@) => 1u8,
        encode_utf8("Spotify"@) => 2u8,
        encode_utf8("mpv"@) => 3u8,
        encode_utf8("VLC Media Player"@) => 4u8,
        encode_utf8("Firefox"@) => 5u8,
        encode_utf8("Chromium"@) => 6u8,
    ]
}

/// The prefix table used when a configuration names none.
pub open spec fn default_prefixes_map() -> Map<Seq<u8>, Seq<u8>> {
    map![
        encode_utf8("chromium"@) => encode_utf8("g"@),
        encode_utf8("Clementine"@) => encode_utf8("c"@),
        encode_utf8("default"@) => encode_utf8(">"@),
        encode_utf8("Firefox"@) => encode_utf8("f"@),
        encode_utf8("mpv"@) => encode_utf8("m"@),
        encode_utf8("Spotify"@) => encode_utf8("s"@),
        encode_utf8("VLC Media Player"@) => encode_utf8("v"@),
    ]
}

/// The field list used when a configuration names none: the title at 40
/// bytes, the artist at 20.
pub open spec fn default_fields_ok(s: Seq<Field>) -> bool {
    &&& s.len() == 2
    &&& s[0].field@ == encode_utf8("xesam:title"@)
    &&& s[0].num_chars == 40
    &&& s[0].format@ == encode_utf8("{}"@)
    &&& s[1].field@ == encode_utf8("xesam:artist"@)
    &&& s[1].num_chars == 20
    &&& s[1].format@ == encode_utf8("{}"@)
}

/// All configuration of one run.
pub struct Config {
    /// Whether to print an empty line while no acceptable player is active.
    pub hide_output: bool,
    /// Whether truncation backs off to the last whitespace boundary.
    pub fuzzy: bool,
    /// Whether the prefix glyph is rendered at all.
    pub render_prefix: bool,
    /// Milliseconds to wait between ticks.
    pub update_delay: u64,
    /// Bytes inserted between two metadata fields.
    pub metadata_separator: Vec<u8>,
    /// Character inserted between the elements of an array value.
    pub array_separator: char,
    /// Character appended after a truncated field, if any.
    pub break_character: Option<char>,
    /// Player identities considered acceptable, each with its rank; a
    /// lower rank wins.
    pub player_priorities: Dict<u8>,
    /// Tokens of the rating ladder; missing means `-`, `/`, `+`.
    pub rating_icons: Option<Rating>,
    /// The metadata fields to show, in output order.
    pub metadata_fields: Vec<Field>,
    /// Prefix glyph per player identity, looked up without regard to
    /// ASCII case; the `default` entry stands in for unlisted players.
    pub player_prefixes: Dict<Vec<u8>>,
    /// Whether special characters are escaped (carried along, applied by
    /// no rule here).
    pub escape_chars: bool,
}

/// The rating tokens a configuration effectively uses.
pub open spec fn effective_rating(c: Config) -> Rating {
    match c.rating_icons {
        Some(r) => r,
        None => Rating { nil: '-', half: '/', full: '+' },
    }
}

impl Config {
    /// Well-formed: the lookup tables hold no duplicate key, and a
    /// `default` prefix entry exists.
    pub open spec fn wf(self) -> bool {
        &&& self.player_priorities.wf()
        &&& self.player_prefixes.wf()
        &&& self.player_prefixes.contains_spec(default_key())
    }

    /// The rank of a player identity: its entry in the priority table, or
    /// the largest rank — least preferred, but still acceptable — when
    /// the identity is not listed.
    pub open spec fn priority_spec(self, name: Seq<u8>) -> u8 {
        if self.player_priorities.as_map().contains_key(name) {
            self.player_priorities.as_map()[name]
        } else {
            255u8
        }
    }

    /// Looks a player identity up in the priority table.
    pub fn find_player_priorities_idx(&self, name: &Vec<u8>) -> (r: u8)
        requires
            self.player_priorities.wf(),
        ensures
            r == self.priority_spec(name@),
    {
        match self.player_priorities.get(name) {
            Some(v) => *v,
            None => u8::MAX,
        }
    }

    /// The prefix glyph of a player identity: its prefix-table entry up
    /// to ASCII case, or the `default` entry.
    pub open spec fn prefix_spec(self, name: Seq<u8>) -> Seq<u8> {
        match self.player_prefixes.ci_bytes(name) {
            Some(p) => p,
            None => self.player_prefixes.as_bmap()[default_key()],
        }
    }

    /// Resolves the prefix glyph of a player identity.
    pub fn lookup_prefix(&self, name: &Vec<u8>) -> (r: Vec<u8>)
        requires
            self.wf(),
        ensures
            r@ == self.prefix_spec(name@),
    {
        match self.player_prefixes.get_ci(name) {
            Some(p) => copy_bytes(p),
            None => match self.player_prefixes.get(&"default".as_bytes_vec()) {
                Some(p) => copy_bytes(p),
                None => unreached(),
            },
        }
    }

    /// Puts the fallback prefix glyph `>` in place when the prefix table
    /// has no `default` entry; an existing entry is left alone.
    pub fn ensure_default_prefix(&mut self)
        requires
            old(self).player_prefixes.wf(),
        ensures
            final(self).player_prefixes.wf(),
            final(self).player_prefixes.contains_spec(default_key()),
            old(self).player_prefixes.contains_spec(default_key()) ==> *final(self) == *old(self),
            !old(self).player_prefixes.contains_spec(default_key()) ==> {
                &&& final(self).player_prefixes.as_bmap() == old(
                    self,
                ).player_prefixes.as_bmap().insert(default_key(), encode_utf8(">"@))
                &&& final(self).hide_output == old(self).hide_output
                &&& final(self).fuzzy == old(self).fuzzy
                &&& final(self).render_prefix == old(self).render_prefix
                &&& final(self).update_delay == old(self).update_delay
                &&& final(self).metadata_separator == old(self).metadata_separator
                &&& final(self).array_separator == old(self).array_separator
                &&& final(self).break_character == old(self).break_character
                &&& final(self).player_priorities == old(self).player_priorities
                &&& final(self).rating_icons == old(self).rating_icons
                &&& final(self).metadata_fields == old(self).metadata_fields
                &&& final(self).escape_chars == old(self).escape_chars
            },
    {
        let key = "default".as_bytes_vec();
        match self.player_prefixes.get(&key) {
            Some(_) => {
                proof {
                    assert(self.player_prefixes.as_map().dom().contains(default_key()));
                    assert(self.player_prefixes.contains_spec(default_key()));
                }
            },
            None => {
                let ghost pre = self.player_prefixes;
                let val = ">".as_bytes_vec();
                let ghost v0 = val;
                self.player_prefixes.insert(key, val);
                proof {
                    Dict::lemma_bmap_insert(pre, self.player_prefixes, default_key(), v0);
                    assert(self.player_prefixes.as_map().dom().contains(default_key()));
                    assert(self.player_prefixes.contains_spec(default_key()));
                }
            },
        }
    }

    /// The rating table built from the configured tokens, or from the
    /// stock tokens when none are configured.
    pub fn build_rating_strings(&self) -> (r: Vec<Vec<u8>>)
        ensures
            r@.len() == 11,
            forall|i: int| 0 <= i < 11 ==> r@[i]@ == rating_row(effective_rating(*self), i),
    {
        match &self.rating_icons {
            Some(ric) => ric.build_rating_strings(),
            None => {
                let d = Rating { nil: '-', half: '/', full: '+' };
                d.build_rating_strings()
            },
        }
    }

    /// The priority table used when a configuration names none.
    pub fn default_player_priorities() -> (d: Dict<u8>)
        ensures
            d.wf(),
            d.as_map() == default_priorities_map(),
    {
        let mut d: Dict<u8> = Dict::new();
        d.insert("Clementine".as_bytes_vec(), 1);
        d.insert("Spotify".as_bytes_vec(), 2);
        d.insert("mpv".as_bytes_vec(), 3);
        d.insert("VLC Media Player".as_bytes_vec(), 4);
        d.insert("Firefox".as_bytes_vec(), 5);
        d.insert("Chromium".as_bytes_vec(), 6);
        proof {
            assert(d.as_map() =~= default_priorities_map());
        }
        d
    }

    /// The field list used when a configuration names none.
    pub fn default_metadata_fields() -> (r: Vec<Field>)
        ensures
            default_fields_ok(r@),
    {
        let mut r: Vec<Field> = Vec::new();
        r.push(Field::constructor("xesam:title", 40, None));
        r.push(Field::constructor("xesam:artist", 20, None));
        r
    }

    /// The prefix table used when a configuration names none.
    pub fn default_player_prefixes() -> (d: Dict<Vec<u8>>)
        ensures
            d.wf(),
            d.as_bmap() == default_prefixes_map(),
    {
        let mut d: Dict<Vec<u8>> = Dict::new();
        proof {
            assert(d.as_bmap() =~= Map::<Seq<u8>, Seq<u8>>::empty());
        }
        let ghost d0 = d;
        let v1 = "g".as_bytes_vec();
        let ghost g1 = v1;
        d.insert("chromium".as_bytes_vec(), v1);
        proof {
            Dict::lemma_bmap_insert(d0, d, encode_utf8("chromium"@), g1);
        }
        let ghost d1 = d;
        let v2 = "c".as_bytes_vec();
        let ghost g2 = v2;
        d.insert("Clementine".as_bytes_vec(), v2);
        proof {
            Dict::lemma_bmap_insert(d1, d, encode_utf8("Clementine"@), g2);
        }
        let ghost d2 = d;
        let v3 = ">".as_bytes_vec();
        let ghost g3 = v3;
        d.insert("default".as_bytes_vec(), v3);
        proof {
            Dict::lemma_bmap_insert(d2, d, encode_utf8("default"@), g3);
        }
        let ghost d3 = d;
        let v4 = "f".as_bytes_vec();
        let ghost g4 = v4;
        d.insert("Firefox".as_bytes_vec(), v4);
        proof {
            Dict::lemma_bmap_insert(d3, d, encode_utf8("Firefox"@), g4);
        }
        let ghost d4 = d;
        let v5 = "m".as_bytes_vec();
        let ghost g5 = v5;
        d.insert("mpv".as_bytes_vec(), v5);
        proof {
            Dict::lemma_bmap_insert(d4, d, encode_utf8("mpv"@), g5);
        }
        let ghost d5 = d;
        let v6 = "s".as_bytes_vec();
        let ghost g6 = v6;
        d.insert("Spotify".as_bytes_vec(), v6);
        proof {
            Dict::lemma_bmap_insert(d5, d, encode_utf8("Spotify"@), g6);
        }
        let ghost d6 = d;
        let v7 = "v".as_bytes_vec();
        let ghost g7 = v7;
        d.insert("VLC Media Player".as_bytes_vec(), v7);
        proof {
            Dict::lemma_bmap_insert(d6, d, encode_utf8("VLC Media Player"@), g7);
            assert(d.as_bmap() =~= default_prefixes_map());
        }
        d
    }
}

/// The configuration used when none can be loaded.
impl Default for Config {
    fn default() -> (r: Self)
        ensures
            r.hide_output == true,
            r.fuzzy == false,
            r.render_prefix == true,
            r.update_delay == 300,
            r.metadata_separator@ == encode_utf8(" | "@),
            r.array_separator == '+',
            r.break_character == Some('-'),
            r.player_priorities.as_map() == default_priorities_map(),
            (r.rating_icons == Some(Rating { nil: '-', half: '/', full: '+' })),
            default_fields_ok(r.metadata_fields@),
            r.player_prefixes.as_bmap() == default_prefixes_map(),
            r.escape_chars == false,
            r.wf(),
    {
        let r = Config {
            hide_output: true,
            fuzzy: false,
            render_prefix: true,
            update_delay: 300,
            metadata_separator: " | ".as_bytes_vec(),
            array_separator: '+',
            break_character: Some('-'),
            player_priorities: Config::default_player_priorities(),
            rating_icons: Some(Rating { nil: '-', half: '/', full: '+' }),
            metadata_fields: Config::default_metadata_fields(),
            player_prefixes: Config::default_player_prefixes(),
            escape_chars: false,
        };
        proof {
            assert(r.player_prefixes.as_bmap().dom().contains(default_key()));
        }
        r
    }
}

} // verus!
