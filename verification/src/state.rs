//! The runtime state of one run, and the two updates a tick applies to
//! it: picking the active player, then refreshing the field texts from
//! that player's metadata.

use vstd::prelude::*;
use vstd::utf8::encode_utf8;
use vstd::string::StrSliceExecFns;
use crate::config::{Config, Field};
use crate::meta::{render, render_spec, MetaValue};
use crate::player::{is_selection, select_player, PlayerEntry};
use crate::rating::{rating_index_spec, rating_to_string};
use crate::table::Dict;
use crate::text::{bytes_eq, copy_bytes, strip_ns, strip_ns_spec};

verus! {

/// The mutable state of one run.
pub struct Data {
    /// The identity of the player marked active; `None` while no
    /// acceptable player is available.
    pub current_player: Option<Vec<u8>>,
    /// The rendered text of each configured field, by field key.
    pub field_text: Dict<Vec<u8>>,
    /// The prefix glyph of the active player.
    pub prefix: Vec<u8>,
}

/// The state a run starts in: no player, no field text, a blank prefix.
impl Default for Data {
    fn default() -> (r: Self)
        ensures
            r.current_player is None,
            r.field_text.wf(),
            r.field_text.as_bmap() == Map::<Seq<u8>, Seq<u8>>::empty(),
            r.prefix@ == encode_utf8(" "@),
    {
        let r = Data {
            current_player: None,
            field_text: Dict::new(),
            prefix: " ".as_bytes_vec(),
        };
        proof {
            assert(r.field_text.as_bmap() =~= Map::<Seq<u8>, Seq<u8>>::empty());
        }
        r
    }
}

/// The key of the rating field, which is rendered through the rating
/// ladder instead of the plain renderer.
pub open spec fn rating_key() -> Seq<u8> {
    encode_utf8("xesam:userRating"@)
}

/// True when some configured field has key `k`.
pub open spec fn configured(fields: Seq<Field>, k: Seq<u8>) -> bool {
    exists|i: int| 0 <= i < fields.len() && fields[i].field@ == k
}

/// True when one of the first `upto` configured fields has key `k`.
pub open spec fn in_prefix(fields: Seq<Field>, upto: int, k: Seq<u8>) -> bool {
    exists|i: int| 0 <= i < upto && i < fields.len() && fields[i].field@ == k
}

/// The text that stands in for a field that cannot be read: `No ` and the
/// field key with its namespace marker stripped.
pub open spec fn placeholder_spec(k: Seq<u8>) -> Seq<u8> {
    encode_utf8("No "@) + strip_ns_spec(k)
}

/// Builds the stand-in text for an unreadable field.
pub fn placeholder_of(k: &Vec<u8>) -> (r: Vec<u8>)
    ensures
        r@ == placeholder_spec(k@),
{
    let mut r = "No ".as_bytes_vec();
    let mut tail = strip_ns(k);
    r.append(&mut tail);
    r
}

/// What an update stores for the configured field `k`, given the active
/// player's metadata: the rating field maps through the rating ladder and
/// is dropped when absent or non-numeric (`None` here); every other field
/// maps through the renderer, with the placeholder standing in for a
/// missing or unrepresentable value.
pub open spec fn field_value_spec(
    cfg: Config,
    meta: Dict<MetaValue>,
    ratings: Seq<Vec<u8>>,
    k: Seq<u8>,
) -> Option<Seq<u8>> {
    if k == rating_key() {
        if meta.as_map().contains_key(k) {
            match meta.as_map()[k] {
                MetaValue::Double { text, tenths } => Some(
                    ratings[rating_index_spec(tenths as int)]@,
                ),
                _ => None,
            }
        } else {
            None
        }
    } else {
        if meta.as_map().contains_key(k) {
            match render_spec(meta.as_map()[k], cfg.array_separator) {
                Some(b) => Some(b),
                None => Some(placeholder_spec(k)),
            }
        } else {
            Some(placeholder_spec(k))
        }
    }
}

/// The field map is unchanged at key `k`.
pub open spec fn untouched_at(
    pre: Map<Seq<u8>, Seq<u8>>,
    cur: Map<Seq<u8>, Seq<u8>>,
    k: Seq<u8>,
) -> bool {
    &&& cur.dom().contains(k) <==> pre.dom().contains(k)
    &&& pre.dom().contains(k) ==> cur[k] == pre[k]
}

/// The field map holds exactly what the update owes for key `k`.
pub open spec fn rule_at(
    cfg: Config,
    meta: Dict<MetaValue>,
    ratings: Seq<Vec<u8>>,
    cur: Map<Seq<u8>, Seq<u8>>,
    k: Seq<u8>,
) -> bool {
    match field_value_spec(cfg, meta, ratings, k) {
        Some(b) => cur.dom().contains(k) && cur[k] == b,
        None => !cur.dom().contains(k),
    }
}

/// Field-text keys stay within the configured field keys: when every key
/// held before an update was configured, every key held after it is
/// configured too — a missing field gets a placeholder under its own
/// configured key, never a stray one.
pub proof fn lemma_field_keys_configured(
    fields: Seq<Field>,
    pre: Map<Seq<u8>, Seq<u8>>,
    post: Map<Seq<u8>, Seq<u8>>,
)
    requires
        forall|k: Seq<u8>| pre.dom().contains(k) ==> configured(fields, k),
        forall|k: Seq<u8>| !configured(fields, k) ==> untouched_at(pre, post, k),
    ensures
        forall|k: Seq<u8>| post.dom().contains(k) ==> configured(fields, k),
{
    assert forall|k: Seq<u8>| post.dom().contains(k) implies configured(fields, k) by {
        if !configured(fields, k) {
            assert(untouched_at(pre, post, k));
        }
    }
}

/// Runs the selector over the available players and folds the outcome
/// into the state: no player clears the state, a selected player becomes
/// current and has its prefix glyph resolved.  The index of the selected
/// player is handed back so that the caller can address that player.
pub fn update_players(cfg: &Config, data: &mut Data, players: &Vec<PlayerEntry>) -> (r: Option<
    usize,
>)
    requires
        cfg.wf(),
        old(data).field_text.wf(),
    ensures
        is_selection(*cfg, players@, r),
        r is None <==> players@.len() == 0,
        final(data).field_text.wf(),
        (match r {
            None => {
                &&& final(data).current_player is None
                &&& final(data).field_text.as_bmap() == Map::<Seq<u8>, Seq<u8>>::empty()
                &&& final(data).prefix == old(data).prefix
            },
            Some(i) => {
                &&& final(data).current_player matches Some(id) && id@ == players@[
                    i as int
                ].identity@
                &&& final(data).field_text == old(data).field_text
                &&& final(data).prefix@ == cfg.prefix_spec(players@[i as int].identity@)
            },
        }),
{
    match select_player(cfg, players) {
        None => {
            data.current_player = None;
            data.field_text.clear();
            proof {
                assert(data.field_text.as_bmap() =~= Map::<Seq<u8>, Seq<u8>>::empty());
            }
            None
        },
        Some(i) => {
            let id = copy_bytes(&players[i].identity);
            data.prefix = cfg.lookup_prefix(&id);
            data.current_player = Some(id);
            Some(i)
        },
    }
}

/// Refreshes the field texts from the active player's metadata: every
/// configured field gets the text that `field_value_spec` owes it, and
/// nothing else in the map is touched.  Without an active player the
/// state is left alone; the caller likewise skips the call when the
/// metadata query itself failed, so a transient failure keeps the last
/// texts.
pub fn update_message(
    cfg: &Config,
    data: &mut Data,
    meta: &Dict<MetaValue>,
    ratings: &Vec<Vec<u8>>,
)
    requires
        old(data).field_text.wf(),
        meta.wf(),
        ratings@.len() == 11,
    ensures
        final(data).current_player == old(data).current_player,
        final(data).prefix == old(data).prefix,
        final(data).field_text.wf(),
        old(data).current_player is None ==> final(data).field_text == old(data).field_text,
        old(data).current_player is Some ==> {
            &&& forall|k: Seq<u8>|
                !configured(cfg.metadata_fields@, k) ==> untouched_at(
                    old(data).field_text.as_bmap(),
                    final(data).field_text.as_bmap(),
                    k,
                )
            &&& forall|k: Seq<u8>|
                configured(cfg.metadata_fields@, k) ==> rule_at(
                    *cfg,
                    *meta,
                    ratings@,
                    final(data).field_text.as_bmap(),
                    k,
                )
        },
{
    if data.current_player.is_none() {
        return ;
    }
    let ratkey = "xesam:userRating".as_bytes_vec();
    let n = cfg.metadata_fields.len();
    let mut fi: usize = 0;
    while fi < n
        invariant
            n == cfg.metadata_fields@.len(),
            fi <= n,
            ratkey@ == rating_key(),
            meta.wf(),
            ratings@.len() == 11,
            data.field_text.wf(),
            data.current_player == old(data).current_player,
            data.prefix == old(data).prefix,
            forall|k: Seq<u8>|
                !in_prefix(cfg.metadata_fields@, fi as int, k) ==> untouched_at(
                    old(data).field_text.as_bmap(),
                    data.field_text.as_bmap(),
                    k,
                ),
            forall|k: Seq<u8>|
                in_prefix(cfg.metadata_fields@, fi as int, k) ==> rule_at(
                    *cfg,
                    *meta,
                    ratings@,
                    data.field_text.as_bmap(),
                    k,
                ),
        decreases n - fi,
    {
        let ghost key = cfg.metadata_fields@[fi as int].field@;
        let ghost pre_tbl = data.field_text;
        if bytes_eq(&cfg.metadata_fields[fi].field, &ratkey) {
            match rating_to_string(meta.get(&cfg.metadata_fields[fi].field), ratings) {
                Some(s) => {
                    let ghost sv = s;
                    data.field_text.insert(copy_bytes(&cfg.metadata_fields[fi].field), s);
                    proof {
                        Dict::lemma_bmap_insert(pre_tbl, data.field_text, key, sv);
                    }
                },
                None => {
                    data.field_text.remove(&cfg.metadata_fields[fi].field);
                    proof {
                        Dict::lemma_bmap_remove(pre_tbl, data.field_text, key);
                    }
                },
            }
        } else {
            let text: Vec<u8> = match meta.get(&cfg.metadata_fields[fi].field) {
                Some(value) => match render(value, cfg.array_separator) {
                    Ok(b) => b,
                    Err(_) => placeholder_of(&cfg.metadata_fields[fi].field),
                },
                None => placeholder_of(&cfg.metadata_fields[fi].field),
            };
            let ghost tv = text;
            data.field_text.insert(copy_bytes(&cfg.metadata_fields[fi].field), text);
            proof {
                Dict::lemma_bmap_insert(pre_tbl, data.field_text, key, tv);
            }
        }
        proof {
            assert forall|k: Seq<u8>|
                in_prefix(cfg.metadata_fields@, fi as int + 1, k) implies rule_at(
                *cfg,
                *meta,
                ratings@,
                data.field_text.as_bmap(),
                k,
            ) by {
                if k != key {
                    assert(in_prefix(cfg.metadata_fields@, fi as int, k));
                }
            }
            assert forall|k: Seq<u8>|
                !in_prefix(cfg.metadata_fields@, fi as int + 1, k) implies untouched_at(
                old(data).field_text.as_bmap(),
                data.field_text.as_bmap(),
                k,
            ) by {
                assert(!in_prefix(cfg.metadata_fields@, fi as int, k));
                assert(k != key);
            }
        }
        fi = fi + 1;
    }
    proof {
        assert forall|k: Seq<u8>| configured(cfg.metadata_fields@, k) implies in_prefix(
            cfg.metadata_fields@,
            n as int,
            k,
        ) by {
            let i = choose|i: int|
                0 <= i < cfg.metadata_fields@.len() && cfg.metadata_fields@[i].field@ == k;
            assert(0 <= i < n as int && i < cfg.metadata_fields@.len()
                && cfg.metadata_fields@[i].field@ == k);
        }
        assert forall|k: Seq<u8>| !configured(cfg.metadata_fields@, k) implies !in_prefix(
            cfg.metadata_fields@,
            n as int,
            k,
        ) by {
            if in_prefix(cfg.metadata_fields@, n as int, k) {
                let i = choose|i: int|
                    0 <= i < n as int && i < cfg.metadata_fields@.len()
                        && cfg.metadata_fields@[i].field@ == k;
                assert(0 <= i < cfg.metadata_fields@.len() && cfg.metadata_fields@[i].field@ == k);
            }
        }
    }
}

} // verus!
