//! Tests of truncation and the line formatter.

use polybar_now_playing::config::{Config, Field};
use polybar_now_playing::format::{format_line, trunc_field};
use polybar_now_playing::meta::MetaValue;
use polybar_now_playing::player::{PlaybackStatus, PlayerEntry};
use polybar_now_playing::state::{update_message, update_players, Data};
use polybar_now_playing::table::Dict;
use polybar_now_playing::text::{fuzzy_cutoff, get_char_boundary, strip_ns};

fn bytes(s: &str) -> Vec<u8> {
    s.as_bytes().to_vec()
}

fn test_config() -> Config {
    let mut prefixes: Dict<Vec<u8>> = Dict::new();
    prefixes.insert(bytes("default"), bytes(">"));
    prefixes.insert(bytes("Spotify"), bytes("s"));
    Config {
        hide_output: true,
        fuzzy: false,
        render_prefix: false,
        update_delay: 300,
        metadata_separator: bytes(" | "),
        array_separator: '+',
        break_character: None,
        player_priorities: Dict::new(),
        rating_icons: None,
        metadata_fields: vec![
            Field::new(bytes("title"), 5, bytes("{}")),
            Field::new(bytes("artist"), 3, bytes("{}")),
        ],
        player_prefixes: prefixes,
        escape_chars: false,
    }
}

fn activate(cfg: &Config, data: &mut Data, identity: &str) {
    let players = vec![PlayerEntry { identity: bytes(identity), status: PlaybackStatus::Playing }];
    update_players(cfg, data, &players);
}

#[test]
fn truncation_cuts_to_exact_budget() {
    let s = bytes("abcdefghijkl");
    assert_eq!(trunc_field(&s, 10, false, None), bytes("abcdefghij"));
}

#[test]
fn truncation_appends_break_character() {
    let s = bytes("abcdefghijkl");
    assert_eq!(trunc_field(&s, 10, false, Some('-')), bytes("abcdefghij-"));
}

#[test]
fn truncation_respects_character_boundaries() {
    let s = "éééééé".as_bytes().to_vec();
    assert_eq!(s.len(), 12);
    assert_eq!(trunc_field(&s, 9, false, None), "éééé".as_bytes().to_vec());
}

#[test]
fn truncation_applies_at_equal_length() {
    let s = bytes("abcde");
    assert_eq!(trunc_field(&s, 5, false, Some('-')), bytes("abcde-"));
}

#[test]
fn truncation_passes_short_text_through() {
    let s = bytes("abc");
    assert_eq!(trunc_field(&s, 5, false, Some('-')), bytes("abc"));
}

#[test]
fn fuzzy_truncation_backs_off_to_whitespace() {
    let s = bytes("hello world foo");
    assert_eq!(trunc_field(&s, 10, true, None), bytes("hello"));
    assert_eq!(trunc_field(&s, 10, true, Some('-')), bytes("hello-"));
}

#[test]
fn fuzzy_truncation_empties_text_without_whitespace() {
    let s = bytes("abcdefghijkl");
    assert_eq!(trunc_field(&s, 10, true, None), bytes(""));
}

#[test]
fn boundary_helpers_work_on_raw_bytes() {
    let s = "éé".as_bytes().to_vec();
    assert_eq!(get_char_boundary(&s, 1), 0);
    assert_eq!(get_char_boundary(&s, 2), 2);
    assert_eq!(get_char_boundary(&s, 3), 2);
    let t = bytes("ab cd");
    assert_eq!(fuzzy_cutoff(&t), 2);
    let u = bytes("abcd");
    assert_eq!(fuzzy_cutoff(&u), usize::MAX);
}

#[test]
fn namespace_stripping() {
    assert_eq!(strip_ns(&bytes("xesam:title")), bytes("title"));
    assert_eq!(strip_ns(&bytes("xesam:xesam:title")), bytes("title"));
    assert_eq!(strip_ns(&bytes("title")), bytes("title"));
}

#[test]
fn end_to_end_line() {
    let cfg = test_config();
    let ratings = cfg.build_rating_strings();
    let mut data = Data::default();
    activate(&cfg, &mut data, "Spotify");
    let mut meta: Dict<MetaValue> = Dict::new();
    meta.insert(bytes("title"), MetaValue::Text(bytes("Bohemian Rhapsody")));
    meta.insert(bytes("artist"), MetaValue::Text(bytes("Queen")));
    update_message(&cfg, &mut data, &meta, &ratings);
    assert_eq!(format_line(&cfg, &data), bytes("Bohem | Que"));
}

#[test]
fn end_to_end_line_with_break_character() {
    let mut cfg = test_config();
    cfg.break_character = Some('-');
    let ratings = cfg.build_rating_strings();
    let mut data = Data::default();
    activate(&cfg, &mut data, "Spotify");
    let mut meta: Dict<MetaValue> = Dict::new();
    meta.insert(bytes("title"), MetaValue::Text(bytes("Bohemian Rhapsody")));
    meta.insert(bytes("artist"), MetaValue::Text(bytes("Queen")));
    update_message(&cfg, &mut data, &meta, &ratings);
    assert_eq!(format_line(&cfg, &data), bytes("Bohem- | Que-"));
}

#[test]
fn prefix_precedes_fields_when_rendered() {
    let mut cfg = test_config();
    cfg.render_prefix = true;
    let ratings = cfg.build_rating_strings();
    let mut data = Data::default();
    activate(&cfg, &mut data, "Spotify");
    let mut meta: Dict<MetaValue> = Dict::new();
    meta.insert(bytes("title"), MetaValue::Text(bytes("Bohemian Rhapsody")));
    meta.insert(bytes("artist"), MetaValue::Text(bytes("Queen")));
    update_message(&cfg, &mut data, &meta, &ratings);
    assert_eq!(format_line(&cfg, &data), bytes("s  Bohem | Que"));
}

#[test]
fn formatting_is_idempotent() {
    let cfg = test_config();
    let ratings = cfg.build_rating_strings();
    let mut data = Data::default();
    activate(&cfg, &mut data, "Spotify");
    let mut meta: Dict<MetaValue> = Dict::new();
    meta.insert(bytes("title"), MetaValue::Text(bytes("Bohemian Rhapsody")));
    meta.insert(bytes("artist"), MetaValue::Text(bytes("Queen")));
    update_message(&cfg, &mut data, &meta, &ratings);
    let first = format_line(&cfg, &data);
    let second = format_line(&cfg, &data);
    assert_eq!(first, second);
}

#[test]
fn hidden_output_gives_empty_line() {
    let cfg = test_config();
    let mut data = Data::default();
    update_players(&cfg, &mut data, &vec![]);
    assert_eq!(format_line(&cfg, &data), bytes(""));
}

#[test]
fn empty_field_list_gives_empty_line() {
    let mut cfg = test_config();
    cfg.metadata_fields = vec![];
    let mut data = Data::default();
    activate(&cfg, &mut data, "Spotify");
    data.field_text.insert(bytes("title"), bytes("text"));
    assert_eq!(format_line(&cfg, &data), bytes(""));
}

#[test]
fn empty_field_text_gives_empty_line() {
    let mut cfg = test_config();
    cfg.hide_output = false;
    let mut data = Data::default();
    activate(&cfg, &mut data, "Spotify");
    assert_eq!(format_line(&cfg, &data), bytes(""));
}

#[test]
fn missing_field_text_is_skipped_in_join() {
    let cfg = test_config();
    let mut data = Data::default();
    activate(&cfg, &mut data, "Spotify");
    data.field_text.insert(bytes("artist"), bytes("Que"));
    assert_eq!(format_line(&cfg, &data), bytes("Que"));
}
