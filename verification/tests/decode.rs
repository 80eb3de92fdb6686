use footbar::render::{workspace_labels, Color};
use footbar::wire::decode_workspaces;

fn decode(payload: &[u8]) -> Vec<footbar::workspace::Workspace> {
    decode_workspaces(&payload.to_vec())
}

#[test]
fn initial_paint_single_focused() {
    let payload = br#"[{"id":1,"name":"1","rect":{"x":0,"y":0,"width":1920,"height":1080},"layout":"splith","urgent":false,"fullscreen_mode":0,"output":"HDMI-A-1","focused":true,"visible":true}]"#;
    let ws = decode(payload);
    assert_eq!(ws.len(), 1);
    assert_eq!(ws[0].id, 1);
    assert_eq!(ws[0].name, b"1".to_vec());
    assert_eq!(ws[0].rect.width, 1920);
    assert_eq!(ws[0].rect.height, 1080);
    assert_eq!(ws[0].layout, b"splith".to_vec());
    assert!(!ws[0].urgent);
    assert_eq!(ws[0].fullscreen_mode, 0);
    assert_eq!(ws[0].output, b"HDMI-A-1".to_vec());
    assert!(ws[0].focused);
    assert!(ws[0].visible);
    let labels = workspace_labels(&ws);
    assert_eq!(labels.len(), 1);
    assert_eq!(labels[0].text, b"1".to_vec());
    assert_eq!(labels[0].color, Color::Gray);
}

#[test]
fn empty_array_gives_no_records() {
    assert_eq!(decode(b"[]").len(), 0);
    assert_eq!(decode(b"  [ ]  ").len(), 0);
}

#[test]
fn malformed_payload_gives_no_records() {
    assert_eq!(decode(b"").len(), 0);
    assert_eq!(decode(b"not json").len(), 0);
    assert_eq!(decode(b"[").len(), 0);
    assert_eq!(decode(b"{}").len(), 0);
    assert_eq!(decode(b"[{]").len(), 0);
    assert_eq!(decode(b"[1]").len(), 0);
    assert_eq!(decode(b"null").len(), 0);
}

#[test]
fn missing_member_gives_no_records() {
    // no "visible" member
    let payload = br#"[{"id":1,"name":"1","rect":{"x":0,"y":0,"width":1,"height":1},"layout":"splith","urgent":false,"fullscreen_mode":0,"output":"eDP-1","focused":true}]"#;
    assert_eq!(decode(payload).len(), 0);
}

#[test]
fn duplicate_member_gives_no_records() {
    let payload = br#"[{"id":1,"id":2,"name":"1","rect":{"x":0,"y":0,"width":1,"height":1},"layout":"splith","urgent":false,"fullscreen_mode":0,"output":"eDP-1","focused":true,"visible":true}]"#;
    assert_eq!(decode(payload).len(), 0);
}

#[test]
fn wrong_member_type_gives_no_records() {
    let payload = br#"[{"id":"1","name":"1","rect":{"x":0,"y":0,"width":1,"height":1},"layout":"splith","urgent":false,"fullscreen_mode":0,"output":"eDP-1","focused":true,"visible":true}]"#;
    assert_eq!(decode(payload).len(), 0);
}

#[test]
fn fractional_number_gives_no_records() {
    let payload = br#"[{"id":1.5,"name":"1","rect":{"x":0,"y":0,"width":1,"height":1},"layout":"splith","urgent":false,"fullscreen_mode":0,"output":"eDP-1","focused":true,"visible":true}]"#;
    assert_eq!(decode(payload).len(), 0);
}

#[test]
fn wide_integers_decode() {
    // the schema's integer fields carry the full range the WM may emit
    let payload = br#"[{"id":3000000000,"name":"1","rect":{"x":0,"y":0,"width":40000,"height":1},"layout":"splith","urgent":false,"fullscreen_mode":2,"output":"eDP-1","focused":true,"visible":true}]"#;
    let ws = decode(payload);
    assert_eq!(ws.len(), 1);
    assert_eq!(ws[0].id, 3000000000);
    assert_eq!(ws[0].rect.width, 40000);
}

#[test]
fn integer_beyond_machine_range_gives_no_records() {
    // one past the largest 64-bit value
    let payload = br#"[{"id":9223372036854775808,"name":"1","rect":{"x":0,"y":0,"width":1,"height":1},"layout":"splith","urgent":false,"fullscreen_mode":0,"output":"eDP-1","focused":true,"visible":true}]"#;
    assert_eq!(decode(payload).len(), 0);
    // the largest 64-bit value itself decodes
    let payload = br#"[{"id":9223372036854775807,"name":"1","rect":{"x":0,"y":0,"width":1,"height":1},"layout":"splith","urgent":false,"fullscreen_mode":0,"output":"eDP-1","focused":true,"visible":true}]"#;
    let ws = decode(payload);
    assert_eq!(ws.len(), 1);
    assert_eq!(ws[0].id, i64::MAX);
}

#[test]
fn trailing_junk_gives_no_records() {
    assert_eq!(decode(b"[] extra").len(), 0);
    assert_eq!(decode(b"[]]").len(), 0);
}

#[test]
fn leading_zero_gives_no_records() {
    let payload = br#"[{"id":01,"name":"1","rect":{"x":0,"y":0,"width":1,"height":1},"layout":"splith","urgent":false,"fullscreen_mode":0,"output":"eDP-1","focused":true,"visible":true}]"#;
    assert_eq!(decode(payload).len(), 0);
}

#[test]
fn unknown_members_are_skipped() {
    let payload = br#"[{"id":1,"name":"1","extra":{"deep":[1,2.5,{"a":null},true,"s"]},"rect":{"x":0,"y":0,"width":1,"height":1,"spare":7},"layout":"splith","urgent":false,"fullscreen_mode":0,"output":"eDP-1","focused":false,"visible":true}]"#;
    let ws = decode(payload);
    assert_eq!(ws.len(), 1);
    assert_eq!(ws[0].name, b"1".to_vec());
    assert!(!ws[0].focused);
}

#[test]
fn negative_numbers_decode() {
    let payload = br#"[{"id":-7,"name":"n","rect":{"x":-1,"y":-2,"width":3,"height":4},"layout":"splith","urgent":false,"fullscreen_mode":-1,"output":"o","focused":false,"visible":false}]"#;
    let ws = decode(payload);
    assert_eq!(ws.len(), 1);
    assert_eq!(ws[0].id, -7);
    assert_eq!(ws[0].rect.x, -1);
    assert_eq!(ws[0].rect.y, -2);
    assert_eq!(ws[0].fullscreen_mode, -1);
}

#[test]
fn string_escapes_decode() {
    let payload = br#"[{"id":1,"name":"a\"b\\c\/d\n\tA","rect":{"x":0,"y":0,"width":1,"height":1},"layout":"splith","urgent":false,"fullscreen_mode":0,"output":"eDP-1","focused":true,"visible":true}]"#;
    let ws = decode(payload);
    assert_eq!(ws.len(), 1);
    assert_eq!(ws[0].name, b"a\"b\\c/d\n\tA".to_vec());
}

#[test]
fn unicode_escape_encodes_utf8() {
    let payload = br#"[{"id":1,"name":"\u00e9\u20ac","rect":{"x":0,"y":0,"width":1,"height":1},"layout":"splith","urgent":false,"fullscreen_mode":0,"output":"eDP-1","focused":true,"visible":true}]"#;
    let ws = decode(payload);
    assert_eq!(ws.len(), 1);
    assert_eq!(ws[0].name, "\u{e9}\u{20ac}".as_bytes().to_vec());
}

#[test]
fn surrogate_pair_escape_encodes_utf8() {
    let payload = br#"[{"id":1,"name":"\ud83c\udf10","rect":{"x":0,"y":0,"width":1,"height":1},"layout":"splith","urgent":false,"fullscreen_mode":0,"output":"eDP-1","focused":true,"visible":true}]"#;
    let ws = decode(payload);
    assert_eq!(ws.len(), 1);
    assert_eq!(ws[0].name, "\u{1f310}".as_bytes().to_vec());
}

#[test]
fn lone_surrogate_escape_gives_no_records() {
    let payload = br#"[{"id":1,"name":"\ud83c","rect":{"x":0,"y":0,"width":1,"height":1},"layout":"splith","urgent":false,"fullscreen_mode":0,"output":"eDP-1","focused":true,"visible":true}]"#;
    assert_eq!(decode(payload).len(), 0);
    let payload = br#"[{"id":1,"name":"\udf10","rect":{"x":0,"y":0,"width":1,"height":1},"layout":"splith","urgent":false,"fullscreen_mode":0,"output":"eDP-1","focused":true,"visible":true}]"#;
    assert_eq!(decode(payload).len(), 0);
}

#[test]
fn invalid_utf8_in_string_gives_no_records() {
    let head = br#"[{"id":1,"name":""#.to_vec();
    let tail = br#"","rect":{"x":0,"y":0,"width":1,"height":1},"layout":"splith","urgent":false,"fullscreen_mode":0,"output":"eDP-1","focused":true,"visible":true}]"#;
    // a byte no UTF-8 text contains
    let mut p = head.clone();
    p.push(0xff);
    p.extend_from_slice(tail);
    assert_eq!(footbar::wire::decode_workspaces(&p).len(), 0);
    // a lone continuation byte
    let mut p = head.clone();
    p.push(0x80);
    p.extend_from_slice(tail);
    assert_eq!(footbar::wire::decode_workspaces(&p).len(), 0);
    // an overlong two-byte encoding of '/'
    let mut p = head.clone();
    p.push(0xc0);
    p.push(0xaf);
    p.extend_from_slice(tail);
    assert_eq!(footbar::wire::decode_workspaces(&p).len(), 0);
    // a raw surrogate encoding
    let mut p = head.clone();
    p.push(0xed);
    p.push(0xa0);
    p.push(0x80);
    p.extend_from_slice(tail);
    assert_eq!(footbar::wire::decode_workspaces(&p).len(), 0);
    // a truncated sequence at the closing quote
    let mut p = head.clone();
    p.push(0xc3);
    p.extend_from_slice(tail);
    assert_eq!(footbar::wire::decode_workspaces(&p).len(), 0);
}

#[test]
fn raw_utf8_passes_through() {
    let payload = "[{\"id\":1,\"name\":\"wörk\",\"rect\":{\"x\":0,\"y\":0,\"width\":1,\"height\":1},\"layout\":\"splith\",\"urgent\":false,\"fullscreen_mode\":0,\"output\":\"eDP-1\",\"focused\":true,\"visible\":true}]".as_bytes();
    let ws = decode(payload);
    assert_eq!(ws.len(), 1);
    assert_eq!(ws[0].name, "wörk".as_bytes().to_vec());
}

#[test]
fn order_and_duplicate_names_are_kept() {
    let payload = br#"[
        {"id":1,"name":"dev","rect":{"x":0,"y":0,"width":1,"height":1},"layout":"splith","urgent":false,"fullscreen_mode":0,"output":"A","focused":false,"visible":true},
        {"id":2,"name":"dev","rect":{"x":0,"y":0,"width":1,"height":1},"layout":"splith","urgent":false,"fullscreen_mode":0,"output":"B","focused":true,"visible":true},
        {"id":3,"name":"web","rect":{"x":0,"y":0,"width":1,"height":1},"layout":"splith","urgent":false,"fullscreen_mode":0,"output":"A","focused":false,"visible":false}
    ]"#;
    let ws = decode(payload);
    assert_eq!(ws.len(), 3);
    assert_eq!(ws[0].name, b"dev".to_vec());
    assert_eq!(ws[1].name, b"dev".to_vec());
    assert_eq!(ws[2].name, b"web".to_vec());
    let labels = workspace_labels(&ws);
    assert_eq!(labels.len(), 3);
    assert_eq!(labels[0].color, Color::DarkGray);
    assert_eq!(labels[1].color, Color::Gray);
    assert_eq!(labels[2].color, Color::DarkGray);
}

#[test]
fn gray_count_matches_focused_count() {
    let payload = br#"[
        {"id":1,"name":"1","rect":{"x":0,"y":0,"width":1,"height":1},"layout":"splith","urgent":false,"fullscreen_mode":0,"output":"A","focused":false,"visible":true},
        {"id":2,"name":"2","rect":{"x":0,"y":0,"width":1,"height":1},"layout":"splith","urgent":false,"fullscreen_mode":0,"output":"A","focused":true,"visible":true}
    ]"#;
    let ws = decode(payload);
    let labels = workspace_labels(&ws);
    let grays = labels.iter().filter(|l| l.color == Color::Gray).count();
    let focused = ws.iter().filter(|w| w.focused).count();
    assert_eq!(grays, focused);
    assert!(labels.iter().all(|l| l.color == Color::Gray || l.color == Color::DarkGray));
}
