use ncm_lyric::lyric::{
    abs_diff, align_tracks, find_pair_target, pair_lyrics, pair_track, repair_end_time,
    transform_lyric_to_ttml, LyricLine, LyricWord, PairType,
};
use ncm_lyric::ncm::EAPILyrics;

fn word(start: u64, end: u64, text: &str) -> LyricWord {
    LyricWord { start_time: start, end_time: end, word: text.to_string() }
}

fn line(start: u64, words: Vec<LyricWord>) -> LyricLine {
    LyricLine {
        words,
        translated_lyric: String::new(),
        roman_lyric: String::new(),
        is_bg: false,
        is_duet: false,
        start_time: start,
        end_time: 0,
    }
}

fn sung(start: u64, text: &str) -> LyricLine {
    line(start, vec![word(start, start + 500, text)])
}

#[test]
fn exact_start_time_sets_the_text_of_that_line_only() {
    let mut primary = vec![sung(1000, "a"), sung(2000, "b"), sung(3000, "c")];
    let before = primary.clone();
    pair_lyrics(&sung(2000, "bee"), &mut primary, PairType::Translated);
    assert_eq!(primary[1].translated_lyric, "bee");
    assert_eq!(primary[1].roman_lyric, "");
    assert_eq!(primary[0], before[0]);
    assert_eq!(primary[2], before[2]);
    pair_lyrics(&sung(2000, "bi"), &mut primary, PairType::Roman);
    assert_eq!(primary[1].translated_lyric, "bee");
    assert_eq!(primary[1].roman_lyric, "bi");
}

#[test]
fn first_of_two_lines_with_the_same_start_wins() {
    let mut primary = vec![sung(1000, "a"), sung(2000, "b"), sung(2000, "c")];
    assert_eq!(find_pair_target(&primary, 2000), Some(1));
    pair_lyrics(&sung(2000, "x"), &mut primary, PairType::Translated);
    assert_eq!(primary[1].translated_lyric, "x");
    assert_eq!(primary[2].translated_lyric, "");
}

#[test]
fn nearest_line_is_chosen_without_exact_match() {
    let primary = vec![sung(1000, "a"), sung(2000, "b"), sung(3000, "c")];
    assert_eq!(find_pair_target(&primary, 2400), Some(1));
    assert_eq!(find_pair_target(&primary, 2600), Some(2));
    assert_eq!(find_pair_target(&primary, 0), Some(0));
    assert_eq!(find_pair_target(&primary, u64::MAX), Some(2));
}

#[test]
fn equally_near_lines_resolve_to_the_earlier_one() {
    let primary = vec![sung(1000, "a"), sung(3000, "b")];
    assert_eq!(find_pair_target(&primary, 2000), Some(0));
    let reversed = vec![sung(3000, "b"), sung(1000, "a")];
    assert_eq!(find_pair_target(&reversed, 2000), Some(0));
}

#[test]
fn exact_match_after_a_near_line_still_wins() {
    let primary = vec![sung(1990, "a"), sung(2000, "b")];
    assert_eq!(find_pair_target(&primary, 2000), Some(1));
}

#[test]
fn lines_without_words_are_never_a_target() {
    let primary = vec![line(2000, vec![]), sung(9000, "b")];
    assert_eq!(find_pair_target(&primary, 2000), Some(1));
    let silent = vec![line(2000, vec![]), line(3000, vec![])];
    assert_eq!(find_pair_target(&silent, 2000), None);
    assert_eq!(find_pair_target(&Vec::new(), 2000), None);
}

#[test]
fn line_without_words_changes_nothing() {
    let mut primary = vec![sung(1000, "a"), sung(2000, "b")];
    primary[0].translated_lyric = "kept".to_string();
    let before = primary.clone();
    let mut silent = line(1000, vec![]);
    silent.translated_lyric = "ignored".to_string();
    pair_lyrics(&silent, &mut primary, PairType::Translated);
    pair_lyrics(&silent, &mut primary, PairType::Roman);
    assert_eq!(primary, before);
}

#[test]
fn line_is_dropped_when_no_primary_line_has_words() {
    let mut primary = vec![line(1000, vec![]), line(2000, vec![])];
    let before = primary.clone();
    pair_lyrics(&sung(1000, "x"), &mut primary, PairType::Translated);
    assert_eq!(primary, before);
    let mut none: Vec<LyricLine> = Vec::new();
    pair_lyrics(&sung(1000, "x"), &mut none, PairType::Translated);
    assert!(none.is_empty());
}

#[test]
fn attached_text_is_the_words_joined_by_spaces() {
    let mut primary = vec![sung(1000, "a")];
    let secondary = line(1000, vec![word(1000, 1100, "one"), word(1100, 1200, "two"), word(1200, 1300, "three")]);
    pair_lyrics(&secondary, &mut primary, PairType::Translated);
    assert_eq!(primary[0].translated_lyric, "one two three");
    let single = line(1000, vec![word(1000, 1100, " lone ")]);
    pair_lyrics(&single, &mut primary, PairType::Roman);
    assert_eq!(primary[0].roman_lyric, " lone ");
}

#[test]
fn later_secondary_line_overwrites_an_earlier_one() {
    let mut primary = vec![sung(1000, "a")];
    let track = vec![sung(900, "first"), sung(1100, "second")];
    pair_track(&track, &mut primary, PairType::Translated);
    assert_eq!(primary[0].translated_lyric, "second");
}

#[test]
fn end_time_of_last_line_is_that_of_its_last_word() {
    let mut lines = vec![sung(1000, "a"), line(2000, vec![word(2000, 2500, "b"), word(2500, 4321, "c")])];
    repair_end_time(&mut lines);
    assert_eq!(lines[1].end_time, 4321);
    assert_eq!(lines[0].end_time, 0);
}

#[test]
fn end_time_of_last_line_without_words_is_the_largest() {
    let mut lines = vec![sung(1000, "a"), line(2000, vec![])];
    repair_end_time(&mut lines);
    assert_eq!(lines[1].end_time, u64::MAX);
    let mut none: Vec<LyricLine> = Vec::new();
    repair_end_time(&mut none);
    assert!(none.is_empty());
}

#[test]
fn aligned_tracks_carry_both_texts_and_a_repaired_end() {
    let primary = vec![sung(1000, "a"), sung(2000, "b")];
    let translation = vec![sung(1000, "ta"), sung(2100, "tb")];
    let romanization = vec![sung(1900, "rb")];
    let document = align_tracks(primary, &translation, &romanization);
    assert_eq!(document.lines.len(), 2);
    assert_eq!(document.lines[0].translated_lyric, "ta");
    assert_eq!(document.lines[0].roman_lyric, "");
    assert_eq!(document.lines[1].translated_lyric, "tb");
    assert_eq!(document.lines[1].roman_lyric, "rb");
    assert_eq!(document.lines[1].end_time, 2500);
    assert!(document.metadata.is_empty());
}

#[test]
fn word_synced_track_is_primary_where_it_has_lines() {
    let lyrics = EAPILyrics {
        lrc: Some(vec![sung(1000, "line")]),
        tlyric: Some(vec![sung(1000, "line translation")]),
        romalrc: None,
        yrc: Some(vec![sung(1000, "word")]),
        ytlrc: Some(vec![sung(1000, "word translation")]),
        yromalrc: Some(vec![sung(1000, "word roman")]),
    };
    let document = transform_lyric_to_ttml(lyrics);
    assert_eq!(document.lines.len(), 1);
    assert_eq!(document.lines[0].words[0].word, "word");
    assert_eq!(document.lines[0].translated_lyric, "word translation");
    assert_eq!(document.lines[0].roman_lyric, "word roman");
}

#[test]
fn line_synced_track_is_primary_otherwise() {
    let lyrics = EAPILyrics {
        lrc: Some(vec![sung(1000, "line")]),
        tlyric: Some(vec![sung(1000, "line translation")]),
        romalrc: Some(vec![sung(1000, "line roman")]),
        yrc: None,
        ytlrc: Some(vec![sung(1000, "word translation")]),
        yromalrc: None,
    };
    let document = transform_lyric_to_ttml(lyrics);
    assert_eq!(document.lines[0].words[0].word, "line");
    assert_eq!(document.lines[0].translated_lyric, "line translation");
    assert_eq!(document.lines[0].roman_lyric, "line roman");

    let lyrics = EAPILyrics {
        lrc: Some(vec![sung(1000, "line")]),
        tlyric: None,
        romalrc: None,
        yrc: Some(Vec::new()),
        ytlrc: Some(vec![sung(1000, "word translation")]),
        yromalrc: None,
    };
    let document = transform_lyric_to_ttml(lyrics);
    assert_eq!(document.lines.len(), 1);
    assert_eq!(document.lines[0].words[0].word, "line");
    assert_eq!(document.lines[0].translated_lyric, "");
}

#[test]
fn no_tracks_give_an_empty_document() {
    let document = transform_lyric_to_ttml(EAPILyrics::default());
    assert!(document.is_empty());
    let lyrics = EAPILyrics {
        tlyric: Some(vec![sung(1000, "orphan")]),
        ..EAPILyrics::default()
    };
    assert!(transform_lyric_to_ttml(lyrics).is_empty());
}

#[test]
fn distance_of_times_is_symmetric() {
    assert_eq!(abs_diff(3, 10), 7);
    assert_eq!(abs_diff(10, 3), 7);
    assert_eq!(abs_diff(5, 5), 0);
    assert_eq!(abs_diff(0, u64::MAX), u64::MAX);
}
