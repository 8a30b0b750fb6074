use program_volume::basic::{announces_load, DLL_PROCESS_ATTACH, DLL_PROCESS_DETACH};
use program_volume::narrow::{concat_text, gbk_char_count};
use program_volume::point::{create_point, squared_distance};
use program_volume::wide::{concat_wide, decode_wide, wide_char_count};

fn wide(s: &str) -> Vec<u16> {
    s.encode_utf16().collect()
}

#[test]
fn add_sums() {
    assert_eq!(program_volume::basic::add(2, 3), 5);
    assert_eq!(program_volume::basic::add(-7, 7), 0);
    assert_eq!(program_volume::basic::add(i32::MAX, 0), i32::MAX);
}

#[test]
fn concat_text_joins() {
    assert_eq!(concat_text("foo", "bar"), "foobar");
    assert_eq!(concat_text("", ""), "");
    assert_eq!(concat_text("中", "文"), "中文");
}

#[test]
fn gbk_count_decodes_double_bytes() {
    assert_eq!(gbk_char_count(&[0xD6, 0xD0, 0xCE, 0xC4]), 2);
    assert_eq!(gbk_char_count(b"abc"), 3);
    assert_eq!(gbk_char_count(&[]), 0);
}

#[test]
fn wide_count_joins_surrogate_pairs() {
    assert_eq!(wide_char_count(&wide("a😀b")), 3);
    assert_eq!(wide_char_count(&[]), 0);
    assert_eq!(wide_char_count(&[0xD800, 0x0041]), 2);
}

#[test]
fn decode_wide_replaces_lone_surrogates() {
    assert_eq!(decode_wide(&wide("héllo")), "héllo");
    assert_eq!(decode_wide(&[0x0041, 0xDC00]), "A\u{FFFD}");
}

#[test]
fn concat_wide_joins() {
    assert_eq!(concat_wide(&wide("foo"), &wide("😀")), wide("foo😀"));
    assert_eq!(concat_wide(&[0xD800], &wide("x")), wide("\u{FFFD}x"));
}

#[test]
fn points() {
    let p = create_point(3, 4);
    assert_eq!((p.x, p.y), (3, 4));
    assert_eq!(squared_distance(&create_point(0, 0), &p), 25);
    let far = squared_distance(&create_point(i32::MIN, i32::MIN), &create_point(i32::MAX, i32::MAX));
    assert_eq!(far, 2 * (u32::MAX as u128) * (u32::MAX as u128));
}

#[test]
fn load_notice_only_on_attach() {
    assert!(announces_load(DLL_PROCESS_ATTACH));
    assert!(!announces_load(DLL_PROCESS_DETACH));
    assert!(!announces_load(7));
}
