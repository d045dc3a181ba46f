//! Timed lyric lines and the alignment of secondary tracks onto a primary one.
//!
//! A secondary track (a translation or a romanization) is merged into the
//! primary track line by line: each secondary line that has words is attached
//! to the primary line whose start time is nearest to its own.

use crate::ncm::{EAPILyrics, EAPILyricsView};
use crate::ttml::TTMLLyric;
use vstd::prelude::*;

verus! {

/// One timed word of a lyric line. Times are in milliseconds.
#[derive(Debug, Clone, PartialEq, Eq)]
pub struct LyricWord {
    pub start_time: u64,
    pub end_time: u64,
    pub word: String,
}

/// Mathematical value of a [`LyricWord`].
pub ghost struct LyricWordView {
    pub start_time: u64,
    pub end_time: u64,
    pub word: Seq<char>,
}

impl View for LyricWord {
    type V = LyricWordView;

    open spec fn view(&self) -> LyricWordView {
        LyricWordView { start_time: self.start_time, end_time: self.end_time, word: self.word@ }
    }
}

impl DeepView for LyricWord {
    type V = LyricWordView;

    open spec fn deep_view(&self) -> LyricWordView {
        self@
    }
}

/// One timed lyric line with the texts that alignment attaches to it.
#[derive(Debug, Clone, PartialEq, Eq)]
pub struct LyricLine {
    pub words: Vec<LyricWord>,
    pub translated_lyric: String,
    pub roman_lyric: String,
    pub is_bg: bool,
    pub is_duet: bool,
    pub start_time: u64,
    pub end_time: u64,
}

/// Mathematical value of a [`LyricLine`].
pub ghost struct LyricLineView {
    pub words: Seq<LyricWordView>,
    pub translated_lyric: Seq<char>,
    pub roman_lyric: Seq<char>,
    pub is_bg: bool,
    pub is_duet: bool,
    pub start_time: u64,
    pub end_time: u64,
}

impl LyricLineView {
    /// A line is empty when it has no words. Empty lines take part in no
    /// pairing, neither as the line that is attached nor as its target.
    pub open spec fn is_empty(self) -> bool {
        self.words.len() == 0
    }
}

impl View for LyricLine {
    type V = LyricLineView;

    open spec fn view(&self) -> LyricLineView {
        LyricLineView {
            words: self.words.deep_view(),
            translated_lyric: self.translated_lyric@,
            roman_lyric: self.roman_lyric@,
            is_bg: self.is_bg,
            is_duet: self.is_duet,
            start_time: self.start_time,
            end_time: self.end_time,
        }
    }
}

impl DeepView for LyricLine {
    type V = LyricLineView;

    open spec fn deep_view(&self) -> LyricLineView {
        self@
    }
}

impl LyricLine {
    /// Whether the line has no words.
    pub fn is_empty(&self) -> (empty: bool)
        ensures
            empty == self@.is_empty(),
    {
        self.words.len() == 0
    }
}

/// Which text of a primary line a secondary track fills.
#[derive(Debug, Clone, Copy, PartialEq, Eq)]
pub enum PairType {
    Translated,
    Roman,
}

/// Absolute difference of two times.
pub open spec fn time_distance(a: u64, b: u64) -> nat {
    if a <= b {
        (b - a) as nat
    } else {
        (a - b) as nat
    }
}

/// `i` is the line of `lines` that a secondary line starting at `start` is
/// attached to: it has words, no line with words is nearer to `start`, and
/// every line with words before it is strictly farther away.
pub open spec fn is_pair_target(lines: Seq<LyricLineView>, start: u64, i: int) -> bool {
    &&& 0 <= i < lines.len()
    &&& !lines[i].is_empty()
    &&& forall|j: int|
        0 <= j < lines.len() && !(#[trigger] lines[j]).is_empty() ==> time_distance(
            lines[i].start_time,
            start,
        ) <= time_distance(lines[j].start_time, start)
    &&& forall|j: int|
        0 <= j < i && !(#[trigger] lines[j]).is_empty() ==> time_distance(
            lines[i].start_time,
            start,
        ) < time_distance(lines[j].start_time, start)
}

/// Some line of `lines` has words.
pub open spec fn has_candidate(lines: Seq<LyricLineView>) -> bool {
    exists|j: int| 0 <= j < lines.len() && !(#[trigger] lines[j]).is_empty()
}

/// The index that [`is_pair_target`] singles out, where `lines` has a line
/// with words.
pub open spec fn pair_target(lines: Seq<LyricLineView>, start: u64) -> int {
    choose|i: int| is_pair_target(lines, start, i)
}

/// At most one index is the pair target of a start time.
pub proof fn lemma_pair_target_unique(lines: Seq<LyricLineView>, start: u64, i: int, k: int)
    requires
        is_pair_target(lines, start, i),
        is_pair_target(lines, start, k),
    ensures
        i == k,
{
    if i < k {
        assert(!lines[i].is_empty());
    } else if k < i {
        assert(!lines[k].is_empty());
    }
}

/// Finds the primary line that a secondary line starting at `start` is
/// attached to, scanning `lines` once from the front.
///
/// The first line with words that starts exactly at `start` ends the scan;
/// otherwise the candidate is replaced only by a strictly nearer line.
pub fn find_pair_target(lines: &Vec<LyricLine>, start: u64) -> (found: Option<usize>)
    ensures
        match found {
            Some(i) => is_pair_target(lines.deep_view(), start, i as int),
            None => !has_candidate(lines.deep_view()),
        },
{
    let ghost view = lines.deep_view();
    let mut nearest: Option<usize> = None;
    let mut i: usize = 0;
    while i < lines.len()
        invariant
            view == lines.deep_view(),
            i <= lines.len(),
            forall|j: int| 0 <= j < i && !(#[trigger] view[j]).is_empty() ==> view[j].start_time != start,
            match nearest {
                Some(c) => {
                    &&& c < i
                    &&& !view[c as int].is_empty()
                    &&& forall|j: int|
                        0 <= j < i && !(#[trigger] view[j]).is_empty() ==> time_distance(
                            view[c as int].start_time,
                            start,
                        ) <= time_distance(view[j].start_time, start)
                    &&& forall|j: int|
                        0 <= j < c && !(#[trigger] view[j]).is_empty() ==> time_distance(
                            view[c as int].start_time,
                            start,
                        ) < time_distance(view[j].start_time, start)
                },
                None => forall|j: int| 0 <= j < i ==> (#[trigger] view[j]).is_empty(),
            },
        decreases lines.len() - i,
    {
        assert(view[i as int] == lines@[i as int]@);
        if !lines[i].is_empty() {
            let here: u64 = lines[i].start_time;
            if here == start {
                return Some(i);
            }
            match nearest {
                Some(c) => {
                    assert(view[c as int] == lines@[c as int]@);
                    if abs_diff(lines[c].start_time, start) > abs_diff(here, start) {
                        nearest = Some(i);
                    }
                },
                None => {
                    nearest = Some(i);
                },
            }
        }
        i += 1;
    }
    nearest
}

/// Absolute difference of two times.
pub fn abs_diff(a: u64, b: u64) -> (d: u64)
    ensures
        d == time_distance(a, b),
{
    if a <= b {
        b - a
    } else {
        a - b
    }
}

/// The words' texts in order, with one space between neighbours.
pub open spec fn joined_words(words: Seq<LyricWordView>) -> Seq<char>
    decreases words.len(),
{
    if words.len() == 0 {
        Seq::empty()
    } else if words.len() == 1 {
        words[0].word
    } else {
        joined_words(words.drop_last()) + seq![' '] + words.last().word
    }
}

/// The text of a line as one string.
///
/// Trusted: the body calls `amll_lyric::LyricLineOwned::to_line` on a copy of
/// the line. The contract says what that method's source shows: the words'
/// texts are collected in order and joined with a single space.
#[verifier::external_body]
fn line_text(line: &LyricLine) -> (text: String)
    ensures
        text@ == joined_words(line@.words),
{
    let words = line.words.iter().map(|w| amll_lyric::LyricWordOwned {
        start_time: w.start_time,
        end_time: w.end_time,
        word: w.word.clone(),
    }).collect();
    let owned = amll_lyric::LyricLineOwned {
        words,
        translated_lyric: line.translated_lyric.clone(),
        roman_lyric: line.roman_lyric.clone(),
        is_bg: line.is_bg,
        is_duet: line.is_duet,
        start_time: line.start_time,
        end_time: line.end_time,
    };
    owned.to_line()
}

/// `line` with the text of the given kind replaced by `text`.
pub open spec fn with_text(line: LyricLineView, kind: PairType, text: Seq<char>) -> LyricLineView {
    match kind {
        PairType::Translated => LyricLineView { translated_lyric: text, ..line },
        PairType::Roman => LyricLineView { roman_lyric: text, ..line },
    }
}

/// The primary track after the secondary line `line` has been attached.
///
/// A line without words, or a primary track without a line that has words,
/// changes nothing. Otherwise the pair target gets the joined words of `line`
/// as its text of the given kind, in place of what it held.
pub open spec fn paired(lines: Seq<LyricLineView>, line: LyricLineView, kind: PairType) -> Seq<
    LyricLineView,
> {
    if line.is_empty() || !has_candidate(lines) {
        lines
    } else {
        let i = pair_target(lines, line.start_time);
        lines.update(i, with_text(lines[i], kind, joined_words(line.words)))
    }
}

/// Attaches one secondary line to the primary track `lines`.
pub fn pair_lyrics(line: &LyricLine, lines: &mut Vec<LyricLine>, pair_type: PairType)
    ensures
        final(lines).deep_view() == paired(old(lines).deep_view(), line@, pair_type),
{
    if line.is_empty() {
        return ;
    }
    let ghost before = lines.deep_view();
    match find_pair_target(lines, line.start_time) {
        Some(i) => {
            proof {
                assert(!before[i as int].is_empty());
                lemma_pair_target_unique(
                    before,
                    line.start_time,
                    i as int,
                    pair_target(before, line.start_time),
                );
            }
            let joined = line_text(line);
            match pair_type {
                PairType::Translated => {
                    lines[i].translated_lyric = joined;
                },
                PairType::Roman => {
                    lines[i].roman_lyric = joined;
                },
            }
            assert(lines.deep_view() =~= before.update(
                i as int,
                with_text(before[i as int], pair_type, joined_words(line@.words)),
            ));
        },
        None => {},
    }
}

/// The primary track after every line of `secondary` has been attached, in
/// the order of `secondary`.
pub open spec fn paired_all(
    lines: Seq<LyricLineView>,
    secondary: Seq<LyricLineView>,
    kind: PairType,
) -> Seq<LyricLineView>
    decreases secondary.len(),
{
    if secondary.len() == 0 {
        lines
    } else {
        paired(paired_all(lines, secondary.drop_last(), kind), secondary.last(), kind)
    }
}

/// Attaches every line of a secondary track to the primary track `lines`.
pub fn pair_track(secondary: &Vec<LyricLine>, lines: &mut Vec<LyricLine>, pair_type: PairType)
    ensures
        final(lines).deep_view() == paired_all(
            old(lines).deep_view(),
            secondary.deep_view(),
            pair_type,
        ),
{
    let ghost before = lines.deep_view();
    let ghost track = secondary.deep_view();
    let mut k: usize = 0;
    while k < secondary.len()
        invariant
            k <= secondary.len(),
            track == secondary.deep_view(),
            lines.deep_view() == paired_all(before, track.take(k as int), pair_type),
        decreases secondary.len() - k,
    {
        proof {
            let next = track.take(k + 1);
            assert(next.drop_last() =~= track.take(k as int));
            assert(next.last() == secondary@[k as int]@);
        }
        pair_lyrics(&secondary[k], lines, pair_type);
        k += 1;
    }
    assert(track.take(k as int) =~= track);
}

/// The track with the end time of its last line set from that line's last
/// word, or to the largest time where the line has no words.
pub open spec fn end_repaired(lines: Seq<LyricLineView>) -> Seq<LyricLineView> {
    if lines.len() == 0 {
        lines
    } else {
        let last = lines.last();
        let end = if last.words.len() == 0 {
            u64::MAX
        } else {
            last.words.last().end_time
        };
        lines.update(lines.len() - 1, LyricLineView { end_time: end, ..last })
    }
}

/// Sets the end time of the last line, which some formats leave open.
pub fn repair_end_time(lines: &mut Vec<LyricLine>)
    ensures
        final(lines).deep_view() == end_repaired(old(lines).deep_view()),
{
    let n = lines.len();
    if n > 0 {
        let ghost before = lines.deep_view();
        let words = lines[n - 1].words.len();
        let end: u64 = if words == 0 {
            u64::MAX
        } else {
            lines[n - 1].words[words - 1].end_time
        };
        lines[n - 1].end_time = end;
        assert(lines.deep_view() =~= end_repaired(before));
    }
}

/// The lines of a track, none where the track is absent.
pub open spec fn track_lines(track: Option<Seq<LyricLineView>>) -> Seq<LyricLineView> {
    match track {
        Some(lines) => lines,
        None => Seq::empty(),
    }
}

/// The word-synced lyrics are present and have at least one line.
pub open spec fn is_word_synced(lyrics: EAPILyricsView) -> bool {
    lyrics.yrc is Some && lyrics.yrc->0.len() > 0
}

/// The primary track: the word-synced lyrics where they have lines, else the
/// line-synced lyrics.
pub open spec fn primary_track(lyrics: EAPILyricsView) -> Seq<LyricLineView> {
    if is_word_synced(lyrics) {
        track_lines(lyrics.yrc)
    } else {
        track_lines(lyrics.lrc)
    }
}

/// The translation that belongs to the primary track.
pub open spec fn translation_track(lyrics: EAPILyricsView) -> Seq<LyricLineView> {
    if is_word_synced(lyrics) {
        track_lines(lyrics.ytlrc)
    } else {
        track_lines(lyrics.tlyric)
    }
}

/// The romanization that belongs to the primary track.
pub open spec fn romanization_track(lyrics: EAPILyricsView) -> Seq<LyricLineView> {
    if is_word_synced(lyrics) {
        track_lines(lyrics.yromalrc)
    } else {
        track_lines(lyrics.romalrc)
    }
}

/// The primary track with the translation attached, then the romanization,
/// then the last line's end time repaired.
pub open spec fn aligned(
    primary: Seq<LyricLineView>,
    translation: Seq<LyricLineView>,
    romanization: Seq<LyricLineView>,
) -> Seq<LyricLineView> {
    end_repaired(
        paired_all(
            paired_all(primary, translation, PairType::Translated),
            romanization,
            PairType::Roman,
        ),
    )
}

/// The lines of the document that a song's tracks are merged into.
pub open spec fn aligned_lines(lyrics: EAPILyricsView) -> Seq<LyricLineView> {
    aligned(primary_track(lyrics), translation_track(lyrics), romanization_track(lyrics))
}

fn lines_or_empty(track: Option<Vec<LyricLine>>) -> (lines: Vec<LyricLine>)
    ensures
        lines.deep_view() == track_lines(track.deep_view()),
{
    match track {
        Some(lines) => lines,
        None => {
            let lines: Vec<LyricLine> = Vec::new();
            assert(lines.deep_view() =~= Seq::<LyricLineView>::empty());
            lines
        },
    }
}

/// Merges the translation and the romanization into the primary track and
/// returns the result as a document without metadata.
pub fn align_tracks(
    primary: Vec<LyricLine>,
    translation: &Vec<LyricLine>,
    romanization: &Vec<LyricLine>,
) -> (document: TTMLLyric)
    ensures
        document@.lines == aligned(
            primary.deep_view(),
            translation.deep_view(),
            romanization.deep_view(),
        ),
        document@.metadata.len() == 0,
{
    let mut lines = primary;
    pair_track(translation, &mut lines, PairType::Translated);
    pair_track(romanization, &mut lines, PairType::Roman);
    repair_end_time(&mut lines);
    TTMLLyric { lines, metadata: Vec::new() }
}

/// Merges the tracks of a song into one document.
///
/// The word-synced lyrics are the primary track where they have lines, with the
/// translation and romanization made for them; otherwise the line-synced
/// lyrics are, with their own. An absent track counts as one without lines.
pub fn transform_lyric_to_ttml(lyric: EAPILyrics) -> (document: TTMLLyric)
    ensures
        document@.lines == aligned_lines(lyric@),
        document@.metadata.len() == 0,
{
    let ghost view = lyric@;
    let EAPILyrics { lrc, tlyric, romalrc, yrc, ytlrc, yromalrc } = lyric;
    let word_synced = match &yrc {
        Some(lines) => lines.len() > 0,
        None => false,
    };
    assert(word_synced == is_word_synced(view));
    if word_synced {
        let primary = lines_or_empty(yrc);
        let translation = lines_or_empty(ytlrc);
        let romanization = lines_or_empty(yromalrc);
        align_tracks(primary, &translation, &romanization)
    } else {
        let primary = lines_or_empty(lrc);
        let translation = lines_or_empty(tlyric);
        let romanization = lines_or_empty(romalrc);
        align_tracks(primary, &translation, &romanization)
    }
}

/// `c` is the pair target among the first `n` lines only.
spec fn is_prefix_target(lines: Seq<LyricLineView>, start: u64, n: int, c: int) -> bool {
    is_pair_target(lines.take(n), start, c)
}

proof fn lemma_prefix_target(lines: Seq<LyricLineView>, start: u64, n: int) -> (c: int)
    requires
        0 <= n <= lines.len(),
        has_candidate(lines.take(n)),
    ensures
        is_prefix_target(lines, start, n, c),
    decreases n,
{
    let prefix = lines.take(n);
    let shorter = lines.take(n - 1);
    let w = choose|j: int| 0 <= j < prefix.len() && !(#[trigger] prefix[j]).is_empty();
    assert(forall|j: int| 0 <= j < n - 1 ==> shorter[j] == prefix[j]);
    if exists|j: int| 0 <= j < shorter.len() && !(#[trigger] shorter[j]).is_empty() {
        let b = lemma_prefix_target(lines, start, n - 1);
        assert(is_pair_target(shorter, start, b));
        let last = prefix[n - 1];
        if !last.is_empty() && time_distance(last.start_time, start) < time_distance(
            shorter[b].start_time,
            start,
        ) {
            assert forall|j: int| 0 <= j < n - 1 && !(#[trigger] prefix[j]).is_empty() implies time_distance(
                last.start_time,
                start,
            ) < time_distance(prefix[j].start_time, start) by {
                assert(!shorter[j].is_empty());
            }
            n - 1
        } else {
            assert forall|j: int| 0 <= j < n && !(#[trigger] prefix[j]).is_empty() implies time_distance(
                prefix[b].start_time,
                start,
            ) <= time_distance(prefix[j].start_time, start) by {
                if j < n - 1 {
                    assert(!shorter[j].is_empty());
                }
            }
            assert forall|j: int| 0 <= j < b && !(#[trigger] prefix[j]).is_empty() implies time_distance(
                prefix[b].start_time,
                start,
            ) < time_distance(prefix[j].start_time, start) by {
                assert(!shorter[j].is_empty());
            }
            b
        }
    } else {
        assert(w == n - 1) by {
            if w < n - 1 {
                assert(!shorter[w].is_empty());
            }
        }
        assert forall|j: int| 0 <= j < n - 1 implies (#[trigger] prefix[j]).is_empty() by {
            assert(shorter[j].is_empty());
        }
        n - 1
    }
}

/// Where some line has words, the pair target exists: it is a line with
/// words, inside the track.
pub proof fn lemma_pair_target_exists(lines: Seq<LyricLineView>, start: u64)
    requires
        has_candidate(lines),
    ensures
        is_pair_target(lines, start, pair_target(lines, start)),
{
    assert(lines.take(lines.len() as int) =~= lines);
    let c = lemma_prefix_target(lines, start, lines.len() as int);
    assert(is_pair_target(lines, start, c));
}

/// A secondary line that has words and starts exactly when a primary line
/// with words starts is attached to that line, the first such line where
/// there are several, and no other line changes.
pub proof fn law_exact_match(
    lines: Seq<LyricLineView>,
    i: int,
    line: LyricLineView,
    kind: PairType,
)
    requires
        0 <= i < lines.len(),
        !line.is_empty(),
        !lines[i].is_empty(),
        lines[i].start_time == line.start_time,
        forall|j: int|
            0 <= j < i && !(#[trigger] lines[j]).is_empty() ==> lines[j].start_time
                != line.start_time,
    ensures
        paired(lines, line, kind) == lines.update(
            i,
            with_text(lines[i], kind, joined_words(line.words)),
        ),
{
    assert(is_pair_target(lines, line.start_time, i));
    lemma_pair_target_unique(lines, line.start_time, i, pair_target(lines, line.start_time));
}

/// A secondary line that has words is attached to the primary line with
/// words whose start time is nearest to its own, the earliest such line where
/// several are equally near, and no other line changes.
pub proof fn law_nearest_match(
    lines: Seq<LyricLineView>,
    i: int,
    line: LyricLineView,
    kind: PairType,
)
    requires
        0 <= i < lines.len(),
        !line.is_empty(),
        !lines[i].is_empty(),
        forall|j: int|
            0 <= j < lines.len() && !(#[trigger] lines[j]).is_empty() ==> time_distance(
                lines[i].start_time,
                line.start_time,
            ) <= time_distance(lines[j].start_time, line.start_time),
        forall|j: int|
            0 <= j < i && !(#[trigger] lines[j]).is_empty() ==> time_distance(
                lines[i].start_time,
                line.start_time,
            ) != time_distance(lines[j].start_time, line.start_time),
    ensures
        paired(lines, line, kind) == lines.update(
            i,
            with_text(lines[i], kind, joined_words(line.words)),
        ),
{
    assert(is_pair_target(lines, line.start_time, i));
    lemma_pair_target_unique(lines, line.start_time, i, pair_target(lines, line.start_time));
}

/// Attaching a secondary line without words changes nothing.
pub proof fn law_empty_line_changes_nothing(
    lines: Seq<LyricLineView>,
    line: LyricLineView,
    kind: PairType,
)
    requires
        line.is_empty(),
    ensures
        paired(lines, line, kind) == lines,
{
}

/// `after` has the lines of `before` with at most their attached texts
/// replaced: the words, the times and the flags of every line are kept.
pub open spec fn same_but_texts(before: Seq<LyricLineView>, after: Seq<LyricLineView>) -> bool {
    &&& after.len() == before.len()
    &&& forall|j: int|
        0 <= j < before.len() ==> (#[trigger] after[j]) == (LyricLineView {
            translated_lyric: after[j].translated_lyric,
            roman_lyric: after[j].roman_lyric,
            ..before[j]
        })
}

/// Attaching a line replaces nothing but attached texts.
pub proof fn lemma_paired_keeps_lines(
    lines: Seq<LyricLineView>,
    line: LyricLineView,
    kind: PairType,
)
    ensures
        same_but_texts(lines, paired(lines, line, kind)),
{
    if !line.is_empty() && has_candidate(lines) {
        lemma_pair_target_exists(lines, line.start_time);
    }
}

/// Attaching a track replaces nothing but attached texts.
pub proof fn lemma_paired_all_keeps_lines(
    lines: Seq<LyricLineView>,
    secondary: Seq<LyricLineView>,
    kind: PairType,
)
    ensures
        same_but_texts(lines, paired_all(lines, secondary, kind)),
    decreases secondary.len(),
{
    if secondary.len() > 0 {
        let inner = paired_all(lines, secondary.drop_last(), kind);
        lemma_paired_all_keeps_lines(lines, secondary.drop_last(), kind);
        lemma_paired_keeps_lines(inner, secondary.last(), kind);
        let outer = paired(inner, secondary.last(), kind);
        assert forall|j: int| 0 <= j < lines.len() implies (#[trigger] outer[j]) == (LyricLineView {
            translated_lyric: outer[j].translated_lyric,
            roman_lyric: outer[j].roman_lyric,
            ..lines[j]
        }) by {
            assert(inner[j] == (LyricLineView {
                translated_lyric: inner[j].translated_lyric,
                roman_lyric: inner[j].roman_lyric,
                ..lines[j]
            }));
        }
    }
}

/// After alignment of a primary track that has lines, the last line ends
/// when its last word ends, or at the largest time where it has no words.
/// The track keeps its length, and every line its words and start time.
pub proof fn law_end_time_repaired(
    primary: Seq<LyricLineView>,
    translation: Seq<LyricLineView>,
    romanization: Seq<LyricLineView>,
)
    requires
        primary.len() > 0,
    ensures
        ({
            let merged = aligned(primary, translation, romanization);
            let last = merged.last();
            &&& merged.len() == primary.len()
            &&& last.words == primary.last().words
            &&& last.words.len() > 0 ==> last.end_time == last.words.last().end_time
            &&& last.words.len() == 0 ==> last.end_time == u64::MAX
            &&& forall|j: int|
                0 <= j < primary.len() ==> (#[trigger] merged[j]).words == primary[j].words
                    && merged[j].start_time == primary[j].start_time
            &&& forall|j: int|
                0 <= j < primary.len() - 1 ==> (#[trigger] merged[j]).end_time
                    == primary[j].end_time
        }),
{
    let first = paired_all(primary, translation, PairType::Translated);
    let second = paired_all(first, romanization, PairType::Roman);
    lemma_paired_all_keeps_lines(primary, translation, PairType::Translated);
    lemma_paired_all_keeps_lines(first, romanization, PairType::Roman);
    let merged = end_repaired(second);
    assert forall|j: int| 0 <= j < primary.len() implies (#[trigger] merged[j]).words
        == primary[j].words && merged[j].start_time == primary[j].start_time by {
        assert(second[j].words == first[j].words);
        assert(first[j].words == primary[j].words);
    }
    assert forall|j: int| 0 <= j < primary.len() - 1 implies (#[trigger] merged[j]).end_time
        == primary[j].end_time by {
        assert(second[j].end_time == first[j].end_time);
        assert(first[j].end_time == primary[j].end_time);
    }
}

/// A primary track without lines yields a document without lines.
pub proof fn law_empty_primary_stays_empty(
    translation: Seq<LyricLineView>,
    romanization: Seq<LyricLineView>,
)
    ensures
        aligned(Seq::empty(), translation, romanization).len() == 0,
{
    let primary = Seq::<LyricLineView>::empty();
    let first = paired_all(primary, translation, PairType::Translated);
    lemma_paired_all_keeps_lines(primary, translation, PairType::Translated);
    lemma_paired_all_keeps_lines(first, romanization, PairType::Roman);
}

} // verus!
