//! The decisions of the download pipeline: which files are scanned, where a
//! song's lyrics are asked for, and what is written for a song.
//!
//! The pipeline itself, which scans directories, reads files, talks to the
//! service and writes documents, is the caller's. It asks this module at each
//! step and acts on the answer.

use crate::lyric::{aligned_lines, transform_lyric_to_ttml};
use crate::ncm::{EAPILyrics, EAPILyricsView};
use crate::text::same_text;
use crate::ttml::{stringify_ttml, ttml_text, SerializationError, TTMLLyric, TTMLLyricView};
use vstd::prelude::*;
use vstd::string::StringExecFns;

verus! {

/// How many songs are fetched, merged and written at the same time at most.
pub const MAX_IN_FLIGHT: usize = 64;

/// How many items wait between two stages at most.
pub const QUEUE_CAPACITY: usize = 64;

/// The extension of the file that a document is written to, beside the audio
/// file and under its name.
pub const LYRIC_EXTENSION: &'static str = "ttml";

/// The extension is one of the audio files that are scanned: `mp3`, `flac`,
/// `wav` or `ogg`, in lower case.
pub open spec fn is_audio_extension(extension: Seq<char>) -> bool {
    extension == "mp3"@ || extension == "flac"@ || extension == "wav"@ || extension == "ogg"@
}

/// Whether a file with this extension is scanned.
pub fn is_allowed_extension(extension: &str) -> (allowed: bool)
    ensures
        allowed == is_audio_extension(extension@),
{
    same_text(extension, "mp3") || same_text(extension, "flac") || same_text(extension, "wav")
        || same_text(extension, "ogg")
}

/// The address that the lyrics of a song are asked from, without the
/// identifier that ends it.
pub const LYRIC_ENDPOINT: &'static str =
    "https://music.163.com/api/song/lyric/v1?tv=0&lv=0&rv=0&kv=0&yv=0&ytv=0&yrv=0&cp=false&id=";

/// The character of a decimal digit.
pub open spec fn digit_char(digit: nat) -> char {
    if digit == 0 {
        '0'
    } else if digit == 1 {
        '1'
    } else if digit == 2 {
        '2'
    } else if digit == 3 {
        '3'
    } else if digit == 4 {
        '4'
    } else if digit == 5 {
        '5'
    } else if digit == 6 {
        '6'
    } else if digit == 7 {
        '7'
    } else if digit == 8 {
        '8'
    } else {
        '9'
    }
}

/// The decimal numeral of `n`, without leading zeros.
pub open spec fn decimal(n: nat) -> Seq<char>
    decreases n,
{
    if n < 10 {
        seq![digit_char(n)]
    } else {
        decimal(n / 10).push(digit_char(n % 10))
    }
}

fn digit_text(digit: u128) -> (text: &'static str)
    requires
        digit < 10,
    ensures
        text@ == seq![digit_char(digit as nat)],
{
    proof {
        reveal_strlit("0");
        reveal_strlit("1");
        reveal_strlit("2");
        reveal_strlit("3");
        reveal_strlit("4");
        reveal_strlit("5");
        reveal_strlit("6");
        reveal_strlit("7");
        reveal_strlit("8");
        reveal_strlit("9");
    }
    let text = if digit == 0 {
        "0"
    } else if digit == 1 {
        "1"
    } else if digit == 2 {
        "2"
    } else if digit == 3 {
        "3"
    } else if digit == 4 {
        "4"
    } else if digit == 5 {
        "5"
    } else if digit == 6 {
        "6"
    } else if digit == 7 {
        "7"
    } else if digit == 8 {
        "8"
    } else {
        "9"
    };
    assert(text@ =~= seq![digit_char(digit as nat)]);
    text
}

/// Appends the decimal numeral of `n` to `out`.
pub fn push_decimal(out: &mut String, n: u128)
    ensures
        final(out)@ == old(out)@ + decimal(n as nat),
    decreases n,
{
    if n >= 10 {
        push_decimal(out, n / 10);
    }
    out.append(digit_text(n % 10));
    assert(out@ =~= old(out)@ + decimal(n as nat));
}

/// The address that the lyrics of the song `music_id` are asked from.
pub fn lyric_url(music_id: u128) -> (url: String)
    ensures
        url@ == LYRIC_ENDPOINT@ + decimal(music_id as nat),
{
    let mut url = String::from_str(LYRIC_ENDPOINT);
    push_decimal(&mut url, music_id);
    url
}

/// What is done for a song once its tracks are there.
#[derive(Debug, Clone, PartialEq, Eq)]
pub enum LyricOutcome {
    /// The merged document has no line: nothing is written.
    NoLyrics,
    /// The text of the document, to be written beside the audio file.
    Document(String),
    /// The document could not be serialized: nothing is written.
    SerializationFailed(String),
}

/// Mathematical value of a [`LyricOutcome`].
pub ghost enum LyricOutcomeView {
    NoLyrics,
    Document(Seq<char>),
    SerializationFailed(Seq<char>),
}

impl View for LyricOutcome {
    type V = LyricOutcomeView;

    open spec fn view(&self) -> LyricOutcomeView {
        match self {
            LyricOutcome::NoLyrics => LyricOutcomeView::NoLyrics,
            LyricOutcome::Document(text) => LyricOutcomeView::Document(text@),
            LyricOutcome::SerializationFailed(message) => LyricOutcomeView::SerializationFailed(
                message@,
            ),
        }
    }
}

/// The outcome for a document, given what serializing it yields: a document
/// without lines is never written, whatever its serialization.
pub open spec fn outcome_of(
    document: TTMLLyricView,
    text: Result<Seq<char>, Seq<char>>,
) -> LyricOutcomeView {
    if document.lines.len() == 0 {
        LyricOutcomeView::NoLyrics
    } else {
        match text {
            Ok(t) => LyricOutcomeView::Document(t),
            Err(message) => LyricOutcomeView::SerializationFailed(message),
        }
    }
}

/// The serialization of a document, as a plain value.
pub open spec fn serialized(text: Result<String, SerializationError>) -> Result<
    Seq<char>,
    Seq<char>,
> {
    match text {
        Ok(t) => Ok(t@),
        Err(error) => Err(error.message@),
    }
}

/// Decides what is done with a document, given whether it has lines and
/// what serializing it yielded.
pub fn outcome_for(document: &TTMLLyric, text: Result<String, SerializationError>) -> (outcome:
    LyricOutcome)
    ensures
        outcome@ == outcome_of(document@, serialized(text)),
{
    if document.is_empty() {
        return LyricOutcome::NoLyrics;
    }
    match text {
        Ok(t) => LyricOutcome::Document(t),
        Err(error) => LyricOutcome::SerializationFailed(error.message),
    }
}

/// Decides what is done with a merged document.
pub fn document_outcome(document: &TTMLLyric) -> (outcome: LyricOutcome)
    ensures
        outcome@ == outcome_of(document@, ttml_text(document@)),
{
    if document.is_empty() {
        return LyricOutcome::NoLyrics;
    }
    outcome_for(document, stringify_ttml(document))
}

/// The document that the tracks of a song are merged into: its lines are
/// the aligned lines, and it has no metadata.
pub open spec fn merged_document(lyrics: EAPILyricsView) -> TTMLLyricView {
    TTMLLyricView { lines: aligned_lines(lyrics), metadata: Seq::empty() }
}

/// Merges the tracks of a song and decides what is written for it.
pub fn lyric_outcome(lyrics: EAPILyrics) -> (outcome: LyricOutcome)
    ensures
        outcome@ == outcome_of(merged_document(lyrics@), ttml_text(merged_document(lyrics@))),
{
    let document = transform_lyric_to_ttml(lyrics);
    assert(document@.metadata =~= Seq::empty());
    document_outcome(&document)
}

} // verus!
