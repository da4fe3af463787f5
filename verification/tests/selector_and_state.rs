//! Tests of the player selector and the display-state updater.

use polybar_now_playing::config::{Config, Field};
use polybar_now_playing::meta::MetaValue;
use polybar_now_playing::player::{players_listing, select_player, PlaybackStatus, PlayerEntry};
use polybar_now_playing::state::{update_message, update_players, Data};
use polybar_now_playing::table::Dict;
use polybar_now_playing::cli::LogLevel;

fn bytes(s: &str) -> Vec<u8> {
    s.as_bytes().to_vec()
}

fn test_config() -> Config {
    let mut priorities: Dict<u8> = Dict::new();
    priorities.insert(bytes("A"), 2);
    priorities.insert(bytes("B"), 1);
    let mut prefixes: Dict<Vec<u8>> = Dict::new();
    prefixes.insert(bytes("default"), bytes(">"));
    prefixes.insert(bytes("Spotify"), bytes("s"));
    Config {
        hide_output: true,
        fuzzy: false,
        render_prefix: false,
        update_delay: 300,
        metadata_separator: bytes(" | "),
        array_separator: '+',
        break_character: None,
        player_priorities: priorities,
        rating_icons: None,
        metadata_fields: vec![
            Field::new(bytes("title"), 5, bytes("{}")),
            Field::new(bytes("artist"), 3, bytes("{}")),
        ],
        player_prefixes: prefixes,
        escape_chars: false,
    }
}

fn entry(identity: &str, status: PlaybackStatus) -> PlayerEntry {
    PlayerEntry { identity: bytes(identity), status }
}

#[test]
fn selector_prefers_engaged_tier() {
    let cfg = test_config();
    let players = vec![
        entry("A", PlaybackStatus::Playing),
        entry("B", PlaybackStatus::Stopped),
    ];
    assert_eq!(select_player(&cfg, &players), Some(0));
}

#[test]
fn selector_prefers_lower_rank_within_tier() {
    let cfg = test_config();
    let players = vec![
        entry("A", PlaybackStatus::Playing),
        entry("B", PlaybackStatus::Playing),
    ];
    assert_eq!(select_player(&cfg, &players), Some(1));
}

#[test]
fn selector_treats_paused_as_engaged() {
    let cfg = test_config();
    let players = vec![
        entry("A", PlaybackStatus::Paused),
        entry("B", PlaybackStatus::Stopped),
    ];
    assert_eq!(select_player(&cfg, &players), Some(0));
}

#[test]
fn selector_accepts_unlisted_players() {
    let cfg = test_config();
    let players = vec![entry("Nobody", PlaybackStatus::Playing)];
    assert_eq!(select_player(&cfg, &players), Some(0));
}

#[test]
fn selector_none_without_players() {
    let cfg = test_config();
    let players: Vec<PlayerEntry> = vec![];
    assert_eq!(select_player(&cfg, &players), None);
}

#[test]
fn selector_is_stable_across_calls() {
    let cfg = test_config();
    let players = vec![
        entry("X", PlaybackStatus::Playing),
        entry("Y", PlaybackStatus::Playing),
    ];
    let first = select_player(&cfg, &players);
    let second = select_player(&cfg, &players);
    assert_eq!(first, second);
    assert_eq!(first, Some(1));
}

#[test]
fn update_clears_state_without_players() {
    let cfg = test_config();
    let mut data = Data::default();
    data.field_text.insert(bytes("title"), bytes("stale"));
    let r = update_players(&cfg, &mut data, &vec![]);
    assert_eq!(r, None);
    assert!(data.current_player.is_none());
    assert_eq!(data.field_text.len(), 0);
}

#[test]
fn update_sets_player_and_prefix() {
    let cfg = test_config();
    let mut data = Data::default();
    let players = vec![entry("Spotify", PlaybackStatus::Playing)];
    let r = update_players(&cfg, &mut data, &players);
    assert_eq!(r, Some(0));
    assert_eq!(data.current_player, Some(bytes("Spotify")));
    assert_eq!(data.prefix, bytes("s"));
}

#[test]
fn prefix_lookup_ignores_ascii_case() {
    let cfg = test_config();
    let mut data = Data::default();
    let players = vec![entry("sPoTiFy", PlaybackStatus::Playing)];
    update_players(&cfg, &mut data, &players);
    assert_eq!(data.prefix, bytes("s"));
}

#[test]
fn prefix_falls_back_to_default() {
    let cfg = test_config();
    let mut data = Data::default();
    let players = vec![entry("Nobody", PlaybackStatus::Playing)];
    update_players(&cfg, &mut data, &players);
    assert_eq!(data.prefix, bytes(">"));
}

fn activate(cfg: &Config, data: &mut Data, identity: &str) {
    let players = vec![entry(identity, PlaybackStatus::Playing)];
    update_players(cfg, data, &players);
}

#[test]
fn message_renders_present_fields() {
    let cfg = test_config();
    let ratings = cfg.build_rating_strings();
    let mut data = Data::default();
    activate(&cfg, &mut data, "A");
    let mut meta: Dict<MetaValue> = Dict::new();
    meta.insert(bytes("title"), MetaValue::Text(bytes("Bohemian Rhapsody")));
    meta.insert(bytes("artist"), MetaValue::Text(bytes("Queen")));
    update_message(&cfg, &mut data, &meta, &ratings);
    assert_eq!(data.field_text.get(&bytes("title")), Some(&bytes("Bohemian Rhapsody")));
    assert_eq!(data.field_text.get(&bytes("artist")), Some(&bytes("Queen")));
}

#[test]
fn message_substitutes_placeholder() {
    let mut cfg = test_config();
    cfg.metadata_fields = vec![Field::new(bytes("xesam:album"), 10, bytes("{}"))];
    let ratings = cfg.build_rating_strings();
    let mut data = Data::default();
    activate(&cfg, &mut data, "A");
    let meta: Dict<MetaValue> = Dict::new();
    update_message(&cfg, &mut data, &meta, &ratings);
    assert_eq!(data.field_text.get(&bytes("xesam:album")), Some(&bytes("No album")));
}

#[test]
fn placeholder_strips_repeated_namespace() {
    let mut cfg = test_config();
    cfg.metadata_fields = vec![Field::new(bytes("xesam:xesam:title"), 10, bytes("{}"))];
    let ratings = cfg.build_rating_strings();
    let mut data = Data::default();
    activate(&cfg, &mut data, "A");
    let meta: Dict<MetaValue> = Dict::new();
    update_message(&cfg, &mut data, &meta, &ratings);
    assert_eq!(data.field_text.get(&bytes("xesam:xesam:title")), Some(&bytes("No title")));
}

#[test]
fn message_substitutes_placeholder_for_unrepresentable() {
    let mut cfg = test_config();
    cfg.metadata_fields = vec![Field::new(bytes("title"), 10, bytes("{}"))];
    let ratings = cfg.build_rating_strings();
    let mut data = Data::default();
    activate(&cfg, &mut data, "A");
    let mut meta: Dict<MetaValue> = Dict::new();
    meta.insert(bytes("title"), MetaValue::NestedMap);
    update_message(&cfg, &mut data, &meta, &ratings);
    assert_eq!(data.field_text.get(&bytes("title")), Some(&bytes("No title")));
}

#[test]
fn message_stores_rating_row() {
    let mut cfg = test_config();
    cfg.metadata_fields = vec![Field::new(bytes("xesam:userRating"), 40, bytes("{}"))];
    let ratings = cfg.build_rating_strings();
    let mut data = Data::default();
    activate(&cfg, &mut data, "A");
    let mut meta: Dict<MetaValue> = Dict::new();
    let tenths = (0.5f64 * 10.0).round() as i64;
    meta.insert(
        bytes("xesam:userRating"),
        MetaValue::Double { text: bytes("0.5"), tenths },
    );
    update_message(&cfg, &mut data, &meta, &ratings);
    assert_eq!(data.field_text.get(&bytes("xesam:userRating")), Some(&bytes("+ + / - - ")));
}

#[test]
fn message_drops_stale_rating() {
    let mut cfg = test_config();
    cfg.metadata_fields = vec![Field::new(bytes("xesam:userRating"), 40, bytes("{}"))];
    let ratings = cfg.build_rating_strings();
    let mut data = Data::default();
    activate(&cfg, &mut data, "A");
    let mut meta: Dict<MetaValue> = Dict::new();
    meta.insert(
        bytes("xesam:userRating"),
        MetaValue::Double { text: bytes("1"), tenths: 10 },
    );
    update_message(&cfg, &mut data, &meta, &ratings);
    assert!(data.field_text.get(&bytes("xesam:userRating")).is_some());
    let empty: Dict<MetaValue> = Dict::new();
    update_message(&cfg, &mut data, &empty, &ratings);
    assert_eq!(data.field_text.get(&bytes("xesam:userRating")), None);
}

#[test]
fn message_without_player_changes_nothing() {
    let cfg = test_config();
    let ratings = cfg.build_rating_strings();
    let mut data = Data::default();
    let mut meta: Dict<MetaValue> = Dict::new();
    meta.insert(bytes("title"), MetaValue::Text(bytes("ignored")));
    update_message(&cfg, &mut data, &meta, &ratings);
    assert_eq!(data.field_text.len(), 0);
}

#[test]
fn default_config_matches_documented_defaults() {
    let cfg = Config::default();
    assert!(cfg.hide_output);
    assert!(!cfg.fuzzy);
    assert!(cfg.render_prefix);
    assert_eq!(cfg.update_delay, 300);
    assert_eq!(cfg.metadata_separator, bytes(" | "));
    assert_eq!(cfg.array_separator, '+');
    assert_eq!(cfg.break_character, Some('-'));
    assert!(!cfg.escape_chars);
    assert_eq!(cfg.metadata_fields.len(), 2);
    assert_eq!(cfg.metadata_fields[0].field, bytes("xesam:title"));
    assert_eq!(cfg.metadata_fields[0].num_chars, 40);
    assert_eq!(cfg.metadata_fields[1].field, bytes("xesam:artist"));
    assert_eq!(cfg.metadata_fields[1].num_chars, 20);
    assert_eq!(cfg.find_player_priorities_idx(&bytes("Clementine")), 1);
    assert_eq!(cfg.find_player_priorities_idx(&bytes("Chromium")), 6);
    assert_eq!(cfg.find_player_priorities_idx(&bytes("Nobody")), u8::MAX);
    assert_eq!(cfg.player_prefixes.get(&bytes("default")), Some(&bytes(">")));
    assert_eq!(cfg.player_prefixes.get(&bytes("mpv")), Some(&bytes("m")));
}

#[test]
fn default_rating_table_built_from_stock_tokens() {
    let cfg = test_config();
    let ratings = cfg.build_rating_strings();
    assert_eq!(ratings.len(), 11);
    assert_eq!(ratings[0], bytes("- - - - - "));
    assert_eq!(ratings[10], bytes("+ + + + + "));
}

#[test]
fn ensure_default_prefix_fills_gap() {
    let mut cfg = test_config();
    cfg.player_prefixes = Dict::new();
    cfg.ensure_default_prefix();
    assert_eq!(cfg.player_prefixes.get(&bytes("default")), Some(&bytes(">")));
}

#[test]
fn ensure_default_prefix_keeps_existing() {
    let mut cfg = test_config();
    cfg.player_prefixes = Dict::new();
    cfg.player_prefixes.insert(bytes("default"), bytes("#"));
    cfg.ensure_default_prefix();
    assert_eq!(cfg.player_prefixes.get(&bytes("default")), Some(&bytes("#")));
}

#[test]
fn field_constructor_defaults_format() {
    let f = Field::constructor("xesam:title", 40, None);
    assert_eq!(f.field, bytes("xesam:title"));
    assert_eq!(f.num_chars, 40);
    assert_eq!(f.format, bytes("{}"));
    let g = Field::constructor("artist", 7, Some(String::from("<{}>")));
    assert_eq!(g.format, bytes("<{}>"));
}

#[test]
fn listing_names_every_player() {
    let ids = vec![bytes("A"), bytes("B")];
    assert_eq!(players_listing(&ids), bytes("A\nB\n"));
}

#[test]
fn listing_reports_no_players() {
    let ids: Vec<Vec<u8>> = vec![];
    assert_eq!(players_listing(&ids), bytes("No players found!\n"));
}

#[test]
fn log_level_env_values() {
    assert_eq!(LogLevel::TRACE.env_value(), "trace");
    assert_eq!(LogLevel::DEBUG.env_value(), "debug");
    assert_eq!(LogLevel::INFO.env_value(), "info");
    assert_eq!(LogLevel::WARN.env_value(), "warn");
    assert_eq!(LogLevel::ERROR.env_value(), "error");
}

#[test]
fn dict_insert_get_remove() {
    let mut d: Dict<u8> = Dict::new();
    assert!(d.is_empty());
    d.insert(bytes("a"), 1);
    d.insert(bytes("b"), 2);
    d.insert(bytes("a"), 3);
    assert_eq!(d.len(), 2);
    assert_eq!(d.get(&bytes("a")), Some(&3));
    assert_eq!(d.get(&bytes("b")), Some(&2));
    assert_eq!(d.get(&bytes("c")), None);
    d.remove(&bytes("a"));
    assert_eq!(d.get(&bytes("a")), None);
    assert_eq!(d.len(), 1);
    d.clear();
    assert!(d.is_empty());
}
