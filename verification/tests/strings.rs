use py_spy::layout::{StringHeader, Version};
use py_spy::strings::{decode_text, text_plan, unknown_text, TextPlan};
use py_spy::tables::layout_for;

fn state(kind: u64, compact: bool, ascii: bool) -> u64 {
    3 | (kind << 2) | ((compact as u64) << 5) | ((ascii as u64) << 6) | (1 << 7)
}

#[test]
fn state_word_selects_the_layout_of_the_text() {
    let l = layout_for(&Version { major: 3, minor: 6, patch: 0 }).unwrap().string;
    let plan = |s: u64| text_plan(&l, &StringHeader { length: 4, state: s });
    assert_eq!(plan(state(1, true, true)), Some(TextPlan { offset: 48, width: 1 }));
    assert_eq!(plan(state(1, true, false)), Some(TextPlan { offset: 72, width: 1 }));
    assert_eq!(plan(state(2, true, false)), Some(TextPlan { offset: 72, width: 2 }));
    assert_eq!(plan(state(4, true, false)), Some(TextPlan { offset: 72, width: 4 }));
    for kind in [0, 3, 5, 6, 7] {
        assert_eq!(plan(state(kind, true, false)), None, "kind {}", kind);
    }
    for kind in 0..8 {
        assert_eq!(plan(state(kind, false, true)), None, "not compact, kind {}", kind);
    }
}

#[test]
fn layout_without_a_state_word_keeps_bytes_after_the_header() {
    let l = layout_for(&Version { major: 2, minor: 7, patch: 0 }).unwrap().string;
    assert_eq!(text_plan(&l, &StringHeader { length: 4, state: 0 }), Some(TextPlan { offset: 36, width: 1 }));
    assert_eq!(text_plan(&l, &StringHeader { length: 4, state: 0xffff }), Some(TextPlan { offset: 36, width: 1 }));
}

#[test]
fn bytes_become_characters() {
    let text = |bytes: &[u8], width: usize| -> String { decode_text(bytes, width).into_iter().collect() };
    assert_eq!(text(b"time.sleep", 1), "time.sleep");
    assert_eq!(text(&[0x63, 0x61, 0x66, 0xe9], 1), "caf\u{e9}");
    assert_eq!(text(&[0x3c, 0x04, 0x38, 0x04, 0x40, 0x04], 2), "\u{43c}\u{438}\u{440}");
    assert_eq!(text(&[0x00, 0xf6, 0x01, 0x00], 4), "\u{1f600}");
    assert_eq!(text(&[], 1), "");
    assert_eq!(text(&[], 4), "");
    // bytes left over are not looked at
    assert_eq!(text(&[0x41, 0x00, 0x42], 2), "A");
    assert_eq!(text(&[0x41, 0x00, 0x00], 4), "");
    // codes that are no characters are replaced
    assert_eq!(text(&[0x00, 0xd8, 0xff, 0xdf, 0x00, 0xe0], 2), "\u{fffd}\u{fffd}\u{e000}");
    assert_eq!(text(&[0x00, 0x00, 0x11, 0x00, 0xff, 0xff, 0x10, 0x00], 4), "\u{fffd}\u{10ffff}");
    assert_eq!(text(&[0xff, 0xff, 0xff, 0xff], 4), "\u{fffd}");
    // any width up to eight bytes is read; none and more give nothing
    assert_eq!(text(&[0x41, 0, 0, 0x42, 0, 0], 3), "AB");
    assert_eq!(text(&[0x41, 0, 0, 0, 0, 0, 0, 0], 8), "A");
    assert_eq!(text(&[0x41, 0, 0, 0, 0, 0, 0, 1], 8), "\u{fffd}");
    assert_eq!(text(b"abc", 0), "");
    assert_eq!(text(&[0x41; 18], 9), "");
}

#[test]
fn text_that_cannot_be_decoded_has_a_name() {
    assert_eq!(unknown_text().into_iter().collect::<String>(), "<unknown>");
}
