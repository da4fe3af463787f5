//! Tests of the rating ladder and the metadata renderer.

use polybar_now_playing::meta::{render, MetaValue, RenderError};
use polybar_now_playing::rating::{rating_to_index, rating_to_string, Rating};

fn bytes(s: &str) -> Vec<u8> {
    s.as_bytes().to_vec()
}

#[test]
fn rating_index_covers_all_ranks() {
    for rank in 0..=10i64 {
        let value = rank as f64 / 10.0;
        let tenths = (value * 10.0).round() as i64;
        assert_eq!(rating_to_index(tenths), rank as usize);
    }
}

#[test]
fn rating_index_clamps_low() {
    let tenths = (-1.0f64 * 10.0).round() as i64;
    assert_eq!(rating_to_index(tenths), 0);
}

#[test]
fn rating_index_clamps_high() {
    let tenths = (2.0f64 * 10.0).round() as i64;
    assert_eq!(rating_to_index(tenths), 10);
}

#[test]
fn rating_table_is_stable() {
    let r = Rating { nil: '-', half: '/', full: '+' };
    let table = r.build_rating_strings();
    assert_eq!(table.len(), 11);
    assert_eq!(table[0], bytes("- - - - - "));
    assert_eq!(table[10], bytes("+ + + + + "));
    assert_eq!(table[5], bytes("+ + / - - "));
}

#[test]
fn rating_table_interpolates() {
    let r = Rating { nil: '-', half: '/', full: '+' };
    let table = r.build_rating_strings();
    assert_eq!(table[1], bytes("/ - - - - "));
    assert_eq!(table[2], bytes("+ - - - - "));
    assert_eq!(table[3], bytes("+ / - - - "));
    assert_eq!(table[9], bytes("+ + + + / "));
}

#[test]
fn rating_repeat_spaces_tokens() {
    assert_eq!(Rating::repeat('x', 3), bytes("x x x "));
    assert_eq!(Rating::repeat('x', 0), bytes(""));
}

#[test]
fn rating_string_picks_row() {
    let r = Rating { nil: '-', half: '/', full: '+' };
    let table = r.build_rating_strings();
    let v = MetaValue::Double { text: bytes("0.5"), tenths: 5 };
    assert_eq!(rating_to_string(Some(&v), &table), Some(bytes("+ + / - - ")));
}

#[test]
fn rating_string_rejects_other_shapes() {
    let r = Rating { nil: '-', half: '/', full: '+' };
    let table = r.build_rating_strings();
    let v = MetaValue::Text(bytes("0.5"));
    assert_eq!(rating_to_string(Some(&v), &table), None);
    assert_eq!(rating_to_string(None, &table), None);
}

#[test]
fn render_joins_arrays() {
    let v = MetaValue::Array(vec![MetaValue::Text(bytes("a")), MetaValue::Text(bytes("b"))]);
    assert_eq!(render(&v, ',').unwrap(), bytes("a,b"));
}

#[test]
fn render_empty_array_is_empty() {
    let v = MetaValue::Array(vec![]);
    assert_eq!(render(&v, ',').unwrap(), bytes(""));
}

#[test]
fn render_scalars_naturally() {
    assert_eq!(render(&MetaValue::Text(bytes("hi")), '+').unwrap(), bytes("hi"));
    assert_eq!(render(&MetaValue::I16(-7), '+').unwrap(), bytes("-7"));
    assert_eq!(render(&MetaValue::I32(0), '+').unwrap(), bytes("0"));
    assert_eq!(render(&MetaValue::I64(i64::MIN), '+').unwrap(), bytes("-9223372036854775808"));
    assert_eq!(render(&MetaValue::U8(255), '+').unwrap(), bytes("255"));
    assert_eq!(render(&MetaValue::U16(1000), '+').unwrap(), bytes("1000"));
    assert_eq!(render(&MetaValue::U32(42), '+').unwrap(), bytes("42"));
    assert_eq!(
        render(&MetaValue::U64(u64::MAX), '+').unwrap(),
        bytes("18446744073709551615")
    );
    assert_eq!(render(&MetaValue::Bool(true), '+').unwrap(), bytes("true"));
    assert_eq!(render(&MetaValue::Bool(false), '+').unwrap(), bytes("false"));
    let d = MetaValue::Double { text: bytes("0.75"), tenths: 8 };
    assert_eq!(render(&d, '+').unwrap(), bytes("0.75"));
}

#[test]
fn render_nested_arrays() {
    let inner = MetaValue::Array(vec![MetaValue::Text(bytes("x")), MetaValue::Text(bytes("y"))]);
    let v = MetaValue::Array(vec![inner, MetaValue::Text(bytes("z"))]);
    assert_eq!(render(&v, '+').unwrap(), bytes("x+y+z"));
}

#[test]
fn render_rejects_nested_map() {
    assert_eq!(render(&MetaValue::NestedMap, '+'), Err(RenderError::Unrepresentable));
}

#[test]
fn render_rejects_unknown() {
    assert_eq!(render(&MetaValue::Unknown, '+'), Err(RenderError::Unrepresentable));
}

#[test]
fn render_rejects_array_with_bad_element() {
    let v = MetaValue::Array(vec![MetaValue::Text(bytes("a")), MetaValue::NestedMap]);
    assert_eq!(render(&v, '+'), Err(RenderError::Unrepresentable));
}

#[test]
fn meta_text_carries_utf8() {
    let v = MetaValue::text("héllo");
    assert_eq!(render(&v, '+').unwrap(), "héllo".as_bytes().to_vec());
}
