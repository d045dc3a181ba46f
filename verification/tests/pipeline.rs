use ncm_lyric::lyric::{LyricLine, LyricWord};
use ncm_lyric::pipeline::{
    document_outcome, is_allowed_extension, lyric_url, outcome_for, push_decimal, LyricOutcome,
    LYRIC_EXTENSION, MAX_IN_FLIGHT, QUEUE_CAPACITY,
};
use ncm_lyric::text::{same_text, strip_bytes_prefix, strip_prefix};
use ncm_lyric::ttml::{stringify_ttml, SerializationError, TTMLLyric};

#[test]
fn audio_extensions_are_allowed() {
    assert!(is_allowed_extension("mp3"));
    assert!(is_allowed_extension("flac"));
    assert!(is_allowed_extension("wav"));
    assert!(is_allowed_extension("ogg"));
}

#[test]
fn other_extensions_are_not_allowed() {
    assert!(!is_allowed_extension(""));
    assert!(!is_allowed_extension("MP3"));
    assert!(!is_allowed_extension("mp"));
    assert!(!is_allowed_extension("mp33"));
    assert!(!is_allowed_extension("ttml"));
    assert!(!is_allowed_extension(".ogg"));
    assert!(!is_allowed_extension("ogé"));
}

#[test]
fn limits_of_the_pipeline() {
    assert_eq!(MAX_IN_FLIGHT, 64);
    assert_eq!(QUEUE_CAPACITY, 64);
    assert_eq!(LYRIC_EXTENSION, "ttml");
}

#[test]
fn address_ends_with_the_identifier() {
    assert_eq!(
        lyric_url(402073643),
        "https://music.163.com/api/song/lyric/v1?tv=0&lv=0&rv=0&kv=0&yv=0&ytv=0&yrv=0&cp=false&id=402073643"
    );
    assert!(lyric_url(0).ends_with("&id=0"));
    assert!(lyric_url(u128::MAX).ends_with("&id=340282366920938463463374607431768211455"));
}

#[test]
fn decimal_numerals() {
    let mut out = String::from("n=");
    push_decimal(&mut out, 7);
    assert_eq!(out, "n=7");
    push_decimal(&mut out, 10);
    assert_eq!(out, "n=710");
    push_decimal(&mut out, 9876543210);
    assert_eq!(out, "n=7109876543210");
}

#[test]
fn text_prefix_is_removed() {
    assert_eq!(strip_prefix("music:abc", "music:"), Some("abc"));
    assert_eq!(strip_prefix("music:", "music:"), Some(""));
    assert_eq!(strip_prefix("musi", "music:"), None);
    assert_eq!(strip_prefix("Music:abc", "music:"), None);
    assert_eq!(strip_prefix("abc", ""), Some("abc"));
    assert_eq!(strip_prefix("歌词:好", "歌词:"), Some("好"));
}

#[test]
fn byte_prefix_is_removed() {
    assert_eq!(strip_bytes_prefix(b"music:abc", b"music:"), Some(b"abc".to_vec()));
    assert_eq!(strip_bytes_prefix(b"music:", b"music:"), Some(Vec::new()));
    assert_eq!(strip_bytes_prefix(b"mus", b"music:"), None);
    assert_eq!(strip_bytes_prefix(b"muzic:abc", b"music:"), None);
}

#[test]
fn texts_are_compared_by_characters() {
    assert!(same_text("", ""));
    assert!(same_text("ogg", "ogg"));
    assert!(!same_text("ogg", "og"));
    assert!(!same_text("ogg", "ogh"));
    assert!(same_text("歌", "歌"));
}

fn one_line(text: &str) -> TTMLLyric {
    TTMLLyric {
        lines: vec![LyricLine {
            words: vec![LyricWord { start_time: 1000, end_time: 2000, word: text.to_string() }],
            translated_lyric: String::new(),
            roman_lyric: String::new(),
            is_bg: false,
            is_duet: false,
            start_time: 1000,
            end_time: 2000,
        }],
        metadata: vec![("ncmMusicId".to_string(), vec!["402073643".to_string()])],
    }
}

#[test]
fn document_is_serialized_with_its_words_and_metadata() {
    let text = stringify_ttml(&one_line("hello")).unwrap();
    assert!(text.starts_with("<tt "));
    assert!(text.ends_with("</tt>"));
    assert!(text.contains("<span begin=\"1.000\" end=\"2.000\">hello</span>"));
    assert!(text.contains("<amll:meta key=\"ncmMusicId\" value=\"402073643\"/>"));
}

#[test]
fn document_with_lines_is_written() {
    let document = one_line("hello");
    let text = stringify_ttml(&document).unwrap();
    assert_eq!(document_outcome(&document), LyricOutcome::Document(text));
}

#[test]
fn document_without_lines_is_not_written() {
    let document = TTMLLyric { lines: Vec::new(), metadata: Vec::new() };
    assert_eq!(document_outcome(&document), LyricOutcome::NoLyrics);
}

#[test]
fn failed_serialization_is_reported_and_nothing_is_written() {
    let document = one_line("hello");
    let failure = SerializationError { message: "broken".to_string() };
    assert_eq!(
        outcome_for(&document, Err(failure.clone())),
        LyricOutcome::SerializationFailed("broken".to_string())
    );
    assert_eq!(
        outcome_for(&document, Ok("<tt/>".to_string())),
        LyricOutcome::Document("<tt/>".to_string())
    );
    let empty = TTMLLyric { lines: Vec::new(), metadata: Vec::new() };
    assert_eq!(outcome_for(&empty, Err(failure)), LyricOutcome::NoLyrics);
    assert_eq!(outcome_for(&empty, Ok("<tt/>".to_string())), LyricOutcome::NoLyrics);
}
