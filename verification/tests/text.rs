use paste_bridge::text::{
    chars_of, string_from_chars, str_trim, str_is_blank, split_whitespace_words, split_line_pieces,
    text_from_utf8_lossy, utf8_len_of, str_eq,
};

#[test]
fn whitespace_words_and_trimming_follow_std() {
    for s in ["", "  a  b\t\nc ", "x", "\u{3000}全角\u{3000}空格", "\u{85}n\u{a0}b"] {
        let want: Vec<String> = s.split_whitespace().map(|w| w.to_string()).collect();
        assert_eq!(split_whitespace_words(s), want);
        assert_eq!(str_trim(s), s.trim());
        assert_eq!(str_is_blank(s), s.trim().is_empty());
    }
}

#[test]
fn line_pieces_split_on_line_feeds() {
    let pieces: Vec<String> = split_line_pieces("a\nb\n").into_iter().map(|p| p.into_iter().collect()).collect();
    assert_eq!(pieces, vec!["a".to_string(), "b".to_string(), String::new()]);
}

#[test]
fn lossy_decoding_replaces_bad_bytes() {
    assert_eq!(text_from_utf8_lossy("ok é".as_bytes()), "ok é");
    assert_eq!(text_from_utf8_lossy(&[0xe2, 0x82]), "\u{fffd}");
    assert_eq!(text_from_utf8_lossy(&[0x41, 0x80, 0x42]), "A\u{fffd}B");
}

#[test]
fn characters_round_trip() {
    let cs = chars_of("héllo😀");
    assert_eq!(cs.len(), 6);
    assert_eq!(string_from_chars(&cs), "héllo😀");
    assert_eq!(utf8_len_of(&cs), Some("héllo😀".len()));
    assert!(str_eq("a", "a"));
    assert!(!str_eq("a", "b"));
}
