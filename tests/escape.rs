use hephaestus::{clear_escape_codes, clear_escape_codes_from_str};

#[test]
fn removes_colour_sequences() {
    assert_eq!(clear_escape_codes_from_str("\x1b[1;31mERROR\x1b[0m done"), "ERROR done");
    assert_eq!(clear_escape_codes(b"\x1b[32mok\x1b[0m"), b"ok".to_vec());
}

#[test]
fn plain_text_is_unchanged() {
    assert_eq!(clear_escape_codes_from_str("The message"), "The message");
    assert_eq!(clear_escape_codes_from_str(""), "");
    assert_eq!(clear_escape_codes(b""), Vec::<u8>::new());
}

#[test]
fn unterminated_sequence_drops_the_rest() {
    assert_eq!(clear_escape_codes_from_str("abc\x1b[31"), "abc");
    assert_eq!(clear_escape_codes(b"ab\x1bcd"), b"ab".to_vec());
}

#[test]
fn sequence_ends_at_the_first_m() {
    assert_eq!(clear_escape_codes_from_str("\x1bxmmore"), "more");
    assert_eq!(clear_escape_codes_from_str("\x1b\x1bm!"), "!");
}

#[test]
fn stripping_twice_is_stripping_once() {
    for text in ["\x1b[31mred\x1b[0m", "a\x1bbmc", "plain", "x\x1b", "é\x1b[1mü\x1b[0mß"] {
        let once: String = clear_escape_codes_from_str(text);
        assert_eq!(clear_escape_codes_from_str(&once), once);
    }
    let bytes: Vec<u8> = clear_escape_codes(&[0xff, 27, b'[', b'm', 0xfe, b'm']);
    assert_eq!(bytes, vec![0xff, 0xfe, b'm']);
    assert_eq!(clear_escape_codes(&bytes), bytes);
}

#[test]
fn multibyte_text_survives() {
    assert_eq!(clear_escape_codes_from_str("\x1b[35mΔ → ok\x1b[0m"), "Δ → ok");
}
