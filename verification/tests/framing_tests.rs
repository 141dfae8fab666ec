use sidecar_bridge::event::Origin;
use sidecar_bridge::framing::{frame_message, LINE_FEED};

#[test]
fn line_feed_is_ten() {
    assert_eq!(LINE_FEED, b'\n');
}

#[test]
fn frame_appends_one_line_feed() {
    assert_eq!(frame_message("ping"), b"ping\n".to_vec());
}

#[test]
fn frame_of_empty_message_is_a_bare_line_feed() {
    assert_eq!(frame_message(""), vec![10u8]);
}

#[test]
fn frame_keeps_multibyte_text_as_utf8() {
    let framed = frame_message("h\u{e9}\u{4e16}");
    assert_eq!(framed, vec![0x68, 0xc3, 0xa9, 0xe4, 0xb8, 0x96, 0x0a]);
}

#[test]
fn frame_does_not_escape_an_embedded_line_feed() {
    assert_eq!(frame_message("a\nb"), b"a\nb\n".to_vec());
}

#[test]
fn frame_keeps_a_json_message_on_one_line() {
    let framed = frame_message("{\"job\":1}");
    assert_eq!(framed.iter().filter(|b| **b == LINE_FEED).count(), 1);
    assert_eq!(framed.last(), Some(&LINE_FEED));
}

#[test]
fn channels_are_named_by_origin() {
    assert_eq!(Origin::Diagnostic.channel(), "sidecar-log");
    assert_eq!(Origin::Payload.channel(), "sidecar-message");
}
