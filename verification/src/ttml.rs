//! The lyric document that alignment produces, and its serialization.

use crate::lyric::{LyricLine, LyricLineView};
use vstd::prelude::*;

verus! {

/// A lyric document: timed lines and key/values metadata.
#[derive(Debug, Clone, PartialEq, Eq)]
pub struct TTMLLyric {
    pub lines: Vec<LyricLine>,
    pub metadata: Vec<(String, Vec<String>)>,
}

/// Mathematical value of a [`TTMLLyric`].
pub ghost struct TTMLLyricView {
    pub lines: Seq<LyricLineView>,
    pub metadata: Seq<(Seq<char>, Seq<Seq<char>>)>,
}

impl View for TTMLLyric {
    type V = TTMLLyricView;

    open spec fn view(&self) -> TTMLLyricView {
        TTMLLyricView { lines: self.lines.deep_view(), metadata: self.metadata.deep_view() }
    }
}

impl DeepView for TTMLLyric {
    type V = TTMLLyricView;

    open spec fn deep_view(&self) -> TTMLLyricView {
        self@
    }
}

impl TTMLLyric {
    /// Whether the document has no line.
    pub fn is_empty(&self) -> (empty: bool)
        ensures
            empty == (self@.lines.len() == 0),
    {
        self.lines.len() == 0
    }
}

/// The text that the document is serialized to, or the message of the
/// failure.
pub uninterp spec fn ttml_text(document: TTMLLyricView) -> Result<Seq<char>, Seq<char>>;

/// Why a document could not be serialized.
#[derive(Debug, Clone, PartialEq, Eq)]
pub struct SerializationError {
    pub message: String,
}

/// Serializes a document.
///
/// Trusted: the body copies the document field by field and calls
/// `amll_lyric::ttml::stringify_ttml` on it. The contract names the result
/// [`ttml_text`]; an error is handed on as its message.
#[verifier::external_body]
fn write_ttml(document: &TTMLLyric) -> (text: Result<String, String>)
    ensures
        match text {
            Ok(t) => ttml_text(document@) == Ok::<Seq<char>, Seq<char>>(t@),
            Err(e) => ttml_text(document@) == Err::<Seq<char>, Seq<char>>(e@),
        },
{
    let lines = document.lines.iter().map(|line| amll_lyric::LyricLineOwned {
        words: line.words.iter().map(|w| amll_lyric::LyricWordOwned {
            start_time: w.start_time, end_time: w.end_time, word: w.word.clone(),
        }).collect(),
        translated_lyric: line.translated_lyric.clone(),
        roman_lyric: line.roman_lyric.clone(),
        is_bg: line.is_bg,
        is_duet: line.is_duet,
        start_time: line.start_time,
        end_time: line.end_time,
    }).collect();
    let owned = amll_lyric::ttml::TTMLLyricOwned { lines, metadata: document.metadata.clone() };
    amll_lyric::ttml::stringify_ttml(&owned.to_ref()).map_err(|e| e.to_string())
}

/// Serializes a document to its text.
pub fn stringify_ttml(document: &TTMLLyric) -> (text: Result<String, SerializationError>)
    ensures
        match text {
            Ok(t) => ttml_text(document@) == Ok::<Seq<char>, Seq<char>>(t@),
            Err(e) => ttml_text(document@) == Err::<Seq<char>, Seq<char>>(e.message@),
        },
{
    match write_ttml(document) {
        Ok(t) => Ok(t),
        Err(message) => Err(SerializationError { message }),
    }
}

} // verus!
