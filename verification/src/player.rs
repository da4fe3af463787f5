//! The player selector: among the currently available players, at most one
//! is picked as active.
//!
//! Players are bucketed into two tiers by playback state — an engaged
//! player, paused or not, outranks a merely open but stopped one — and
//! within a tier the lower configured rank wins.  Ties on rank fall to the
//! later player in enumeration order, so the choice is stable across ticks
//! while the player set is unchanged.

use vstd::prelude::*;
use vstd::string::StrSliceExecFns;
use vstd::utf8::encode_utf8;
use crate::config::Config;

verus! {

/// The playback state a player reports.
#[derive(Clone, Copy, PartialEq, Eq, Structural, Debug)]
pub enum PlaybackStatus {
    Playing,
    Paused,
    Stopped,
}

/// One available player: its identity and its playback state.
pub struct PlayerEntry {
    /// The player's self-reported display name.
    pub identity: Vec<u8>,
    /// The player's playback state.
    pub status: PlaybackStatus,
}

/// The selection tier of a playback state: engaged players first.
pub open spec fn tier_spec(s: PlaybackStatus) -> int {
    match s {
        PlaybackStatus::Playing => 0,
        PlaybackStatus::Paused => 0,
        PlaybackStatus::Stopped => 1,
    }
}

/// The selection key of a player: its tier weighted above its rank, so
/// that any tier-0 player beats any tier-1 player regardless of rank.
pub open spec fn sel_key(c: Config, p: PlayerEntry) -> int {
    tier_spec(p.status) * 256 + c.priority_spec(p.identity@)
}

/// The selection key of one player.
fn player_key(cfg: &Config, p: &PlayerEntry) -> (k: u16)
    requires
        cfg.player_priorities.wf(),
    ensures
        k == sel_key(*cfg, *p),
{
    let t: u16 = match p.status {
        PlaybackStatus::Playing => 0,
        PlaybackStatus::Paused => 0,
        PlaybackStatus::Stopped => 1,
    };
    t * 256 + cfg.find_player_priorities_idx(&p.identity) as u16
}

/// What the selector owes: nothing exactly when no player is available,
/// else the index of a player whose selection key is minimal and which,
/// among the key's holders, comes last in enumeration order.
pub open spec fn is_selection(c: Config, players: Seq<PlayerEntry>, r: Option<usize>) -> bool {
    match r {
        None => players.len() == 0,
        Some(i) => {
            &&& 0 <= i < players.len()
            &&& forall|j: int|
                0 <= j < players.len() ==> sel_key(c, players[j]) >= sel_key(c, players[i as int])
            &&& forall|j: int|
                i < j < players.len() ==> sel_key(c, players[j]) > sel_key(c, players[i as int])
        },
    }
}

/// The selection is a function of the inputs: any two results that meet
/// the selector's contract on the same players and configuration are the
/// same.  With an unchanged player set, the choice cannot alternate
/// between ticks.
pub proof fn lemma_selection_stable(
    c: Config,
    players: Seq<PlayerEntry>,
    r1: Option<usize>,
    r2: Option<usize>,
)
    requires
        is_selection(c, players, r1),
        is_selection(c, players, r2),
    ensures
        r1 == r2,
{
    match (r1, r2) {
        (Some(i1), Some(i2)) => {
            if i1 < i2 {
                assert(sel_key(c, players[i2 as int]) > sel_key(c, players[i1 as int]));
                assert(sel_key(c, players[i1 as int]) >= sel_key(c, players[i2 as int]));
            } else if i2 < i1 {
                assert(sel_key(c, players[i1 as int]) > sel_key(c, players[i2 as int]));
                assert(sel_key(c, players[i2 as int]) >= sel_key(c, players[i1 as int]));
            }
        },
        _ => {},
    }
}

/// Picks the active player: the index of a player whose selection key is
/// minimal, and among equal keys the last in enumeration order.  Only an
/// empty player list selects nothing.
pub fn select_player(cfg: &Config, players: &Vec<PlayerEntry>) -> (r: Option<usize>)
    requires
        cfg.player_priorities.wf(),
    ensures
        is_selection(*cfg, players@, r),
{
    let n = players.len();
    if n == 0 {
        return None;
    }
    let mut best: usize = 0;
    let mut best_key: u16 = player_key(cfg, &players[0]);
    let mut j: usize = 1;
    while j < n
        invariant
            cfg.player_priorities.wf(),
            n == players@.len(),
            best < j <= n,
            best_key == sel_key(*cfg, players@[best as int]),
            forall|l: int| 0 <= l < j ==> sel_key(*cfg, players@[l]) >= best_key,
            forall|l: int| best < l < j ==> sel_key(*cfg, players@[l]) > best_key,
        decreases n - j,
    {
        let k = player_key(cfg, &players[j]);
        if k <= best_key {
            best = j;
            best_key = k;
        }
        j = j + 1;
    }
    Some(best)
}

/// The first `i` identities, each on a line of its own.
pub open spec fn listing_spec(ids: Seq<Vec<u8>>, i: int) -> Seq<u8>
    decreases i,
{
    if i <= 0 {
        Seq::empty()
    } else {
        listing_spec(ids, i - 1) + ids[i - 1]@ + seq![10u8]
    }
}

/// The text of the listing mode: every available player's identity on a
/// line of its own, or a notice line when none is available.
pub fn players_listing(ids: &Vec<Vec<u8>>) -> (r: Vec<u8>)
    ensures
        ids@.len() == 0 ==> r@ == encode_utf8("No players found!"@) + seq![10u8],
        ids@.len() > 0 ==> r@ == listing_spec(ids@, ids@.len() as int),
{
    if ids.len() == 0 {
        let mut r = "No players found!".as_bytes_vec();
        r.push(10);
        proof {
            assert(r@ =~= encode_utf8("No players found!"@) + seq![10u8]);
        }
        r
    } else {
        let n = ids.len();
        let mut r: Vec<u8> = Vec::new();
        let mut i: usize = 0;
        proof {
            assert(r@ =~= listing_spec(ids@, 0));
        }
        while i < n
            invariant
                n == ids@.len(),
                i <= n,
                r@ == listing_spec(ids@, i as int),
            decreases n - i,
        {
            r.extend_from_slice(ids[i].as_slice());
            r.push(10);
            proof {
                assert(r@ =~= listing_spec(ids@, i as int + 1));
            }
            i = i + 1;
        }
        r
    }
}

} // verus!
