//! Records of the music service: the key embedded in a file's comment and the
//! lyric tracks that the service returns for a song.

use crate::lyric::{LyricLine, LyricLineView};
use crate::text::{strip_bytes_prefix, strip_prefix};
use crate::timing::{check_time_tags, lines_fit, TrackGrammar};
use vstd::prelude::*;
use vstd::utf8::encode_utf8;

verus! {

/// The record that a decrypted key holds.
#[derive(Debug, Clone, PartialEq, Eq)]
pub struct NCMMusicInfo {
    pub album: String,
    pub album_id: u128,
    pub album_pic: String,
    pub album_pix_doc_id: String,
    pub bitrate: u128,
    pub duration: u128,
    pub format: String,
    pub mp3_doc_id: String,
    pub music_id: u128,
    pub music_name: String,
}

impl Default for NCMMusicInfo {
    fn default() -> (info: NCMMusicInfo)
        ensures
            info.album@.len() == 0,
            info.album_id == 0,
            info.album_pic@.len() == 0,
            info.album_pix_doc_id@.len() == 0,
            info.bitrate == 0,
            info.duration == 0,
            info.format@.len() == 0,
            info.mp3_doc_id@.len() == 0,
            info.music_id == 0,
            info.music_name@.len() == 0,
    {
        NCMMusicInfo {
            album: String::new(),
            album_id: 0,
            album_pic: String::new(),
            album_pix_doc_id: String::new(),
            bitrate: 0,
            duration: 0,
            format: String::new(),
            mp3_doc_id: String::new(),
            music_id: 0,
            music_name: String::new(),
        }
    }
}

/// One lyric track as the service sends it: raw text in one of two grammars.
#[derive(Debug, Clone, PartialEq, Eq)]
pub struct EAPILyric {
    pub version: usize,
    pub lyric: String,
}

impl Default for EAPILyric {
    fn default() -> (track: EAPILyric)
        ensures
            track.version == 0,
            track.lyric@.len() == 0,
    {
        EAPILyric { version: 0, lyric: String::new() }
    }
}

/// The service's answer to a lyric request: a status code and up to six
/// tracks.
#[derive(Debug, Clone, PartialEq, Eq)]
pub struct EAPILyricResponse {
    pub code: usize,
    pub lrc: Option<EAPILyric>,
    pub tlyric: Option<EAPILyric>,
    pub romalrc: Option<EAPILyric>,
    pub yrc: Option<EAPILyric>,
    pub ytlrc: Option<EAPILyric>,
    pub yromalrc: Option<EAPILyric>,
}

impl Default for EAPILyricResponse {
    fn default() -> (response: EAPILyricResponse)
        ensures
            response.code == 0,
            response.lrc is None,
            response.tlyric is None,
            response.romalrc is None,
            response.yrc is None,
            response.ytlrc is None,
            response.yromalrc is None,
    {
        EAPILyricResponse {
            code: 0,
            lrc: None,
            tlyric: None,
            romalrc: None,
            yrc: None,
            ytlrc: None,
            yromalrc: None,
        }
    }
}

/// The tracks of a song, parsed into lines.
///
/// `lrc`, `tlyric` and `romalrc` are the line-synced lyrics with their
/// translation and romanization; `yrc`, `ytlrc` and `yromalrc` are the
/// word-synced lyrics with theirs.
#[derive(Debug, Clone, PartialEq, Eq)]
pub struct EAPILyrics {
    pub lrc: Option<Vec<LyricLine>>,
    pub tlyric: Option<Vec<LyricLine>>,
    pub romalrc: Option<Vec<LyricLine>>,
    pub yrc: Option<Vec<LyricLine>>,
    pub ytlrc: Option<Vec<LyricLine>>,
    pub yromalrc: Option<Vec<LyricLine>>,
}

/// Mathematical value of an [`EAPILyrics`].
pub ghost struct EAPILyricsView {
    pub lrc: Option<Seq<LyricLineView>>,
    pub tlyric: Option<Seq<LyricLineView>>,
    pub romalrc: Option<Seq<LyricLineView>>,
    pub yrc: Option<Seq<LyricLineView>>,
    pub ytlrc: Option<Seq<LyricLineView>>,
    pub yromalrc: Option<Seq<LyricLineView>>,
}

impl View for EAPILyrics {
    type V = EAPILyricsView;

    open spec fn view(&self) -> EAPILyricsView {
        EAPILyricsView {
            lrc: self.lrc.deep_view(),
            tlyric: self.tlyric.deep_view(),
            romalrc: self.romalrc.deep_view(),
            yrc: self.yrc.deep_view(),
            ytlrc: self.ytlrc.deep_view(),
            yromalrc: self.yromalrc.deep_view(),
        }
    }
}

impl Default for EAPILyrics {
    fn default() -> (lyrics: EAPILyrics)
        ensures
            lyrics.lrc is None,
            lyrics.tlyric is None,
            lyrics.romalrc is None,
            lyrics.yrc is None,
            lyrics.ytlrc is None,
            lyrics.yromalrc is None,
    {
        EAPILyrics { lrc: None, tlyric: None, romalrc: None, yrc: None, ytlrc: None, yromalrc: None }
    }
}

/// What is wrong with the form of a key or of the record inside it.
#[derive(Debug, Clone, Copy, PartialEq, Eq)]
pub enum FormatError {
    /// The comment does not start with the key marker.
    MissingPrefix,
    /// What follows the marker is not standard base64.
    InvalidBase64,
    /// The decrypted bytes do not start with the record marker.
    MissingRecordPrefix,
    /// The record could not be read.
    InvalidRecord,
}

/// What went wrong while decrypting a key.
#[derive(Debug, Clone, Copy, PartialEq, Eq)]
pub enum CryptoError {
    /// The cipher or the padding rejected the bytes.
    DecryptionFailed,
}

/// Why a comment yields no music identifier.
#[derive(Debug, Clone, Copy, PartialEq, Eq)]
pub enum KeyError {
    Format(FormatError),
    Crypto(CryptoError),
}

/// The marker that a comment holding a key starts with.
pub const KEY_PREFIX: &'static str = "163 key(Don't modify):";

/// The padding scheme of the encrypted key.
pub const KEY_PADDING: &'static str = "PKCS7";

/// The sixteen bytes of the cipher key: `#14ljk_!\]&0U<'(`.
pub open spec fn cipher_key() -> Seq<u8> {
    seq![
        0x23u8, 0x31u8, 0x34u8, 0x6cu8, 0x6au8, 0x6bu8, 0x5fu8, 0x21u8,
        0x5cu8, 0x5du8, 0x26u8, 0x30u8, 0x55u8, 0x3cu8, 0x27u8, 0x28u8,
    ]
}

/// The marker that a decrypted key starts with: `music:`.
pub open spec fn record_prefix() -> Seq<u8> {
    seq![0x6du8, 0x75u8, 0x73u8, 0x69u8, 0x63u8, 0x3au8]
}

/// The bytes that `text` stands for in standard base64 with padding, where
/// it is valid base64.
pub uninterp spec fn base64_decoded(text: Seq<char>) -> Option<Seq<u8>>;

/// The plaintext of `ciphertext` under AES in ECB mode with `key`, with the
/// padding of the named scheme removed, where cipher and padding accept it.
pub uninterp spec fn aes_ecb_decrypted(
    ciphertext: Seq<u8>,
    key: Seq<u8>,
    padding: Seq<char>,
) -> Option<Seq<u8>>;

/// Trusted: declares `base64::DecodeError`, the error of the base64 decoder,
/// as a type whose values are carried through unread.
#[verifier::external_type_specification]
#[verifier::external_body]
pub struct ExDecodeError(base64::DecodeError);

/// Decodes standard base64.
///
/// Trusted: the body calls `base64::Engine::decode` on the crate's `STANDARD`
/// engine. The contract names what it returns [`base64_decoded`] and says no
/// more of it than that a failure corresponds to no decoding.
#[verifier::external_body]
fn decode_base64(text: &str) -> (decoded: Result<Vec<u8>, base64::DecodeError>)
    ensures
        match decoded {
            Ok(bytes) => base64_decoded(text@) == Some(bytes@),
            Err(_) => base64_decoded(text@) is None,
        },
{
    base64::Engine::decode(&base64::engine::general_purpose::STANDARD, text)
}

/// Decrypts AES in ECB mode and removes the padding.
///
/// Trusted: the body calls `soft_aes::aes::aes_dec_ecb` with the padding
/// scheme given by name. The contract names what it returns
/// [`aes_ecb_decrypted`]; the error, a boxed message, becomes `None`.
#[verifier::external_body]
fn decrypt_aes_ecb(ciphertext: &[u8], key: &[u8], padding: &str) -> (plain: Option<Vec<u8>>)
    ensures
        match plain {
            Some(bytes) => aes_ecb_decrypted(ciphertext@, key@, padding@) == Some(bytes@),
            None => aes_ecb_decrypted(ciphertext@, key@, padding@) is None,
        },
{
    soft_aes::aes::aes_dec_ecb(ciphertext, key, Some(padding)).ok()
}

/// The record inside a decrypted key: what follows the record marker.
pub open spec fn plaintext_record(plain: Seq<u8>) -> Result<Seq<u8>, KeyError> {
    if record_prefix().is_prefix_of(plain) {
        Ok(plain.skip(record_prefix().len() as int))
    } else {
        Err(KeyError::Format(FormatError::MissingRecordPrefix))
    }
}

/// The record inside the bytes of a key: they must decrypt under the fixed
/// cipher key, and the plaintext must start with the record marker.
pub open spec fn encrypted_record(encrypted: Seq<u8>) -> Result<Seq<u8>, KeyError> {
    match aes_ecb_decrypted(encrypted, cipher_key(), KEY_PADDING@) {
        Some(plain) => plaintext_record(plain),
        None => Err(KeyError::Crypto(CryptoError::DecryptionFailed)),
    }
}

/// The record that a comment holds, as bytes, or why it holds none.
///
/// The comment must start with [`KEY_PREFIX`], and what follows must be
/// base64 of bytes that hold a record.
pub open spec fn key_record(comment: Seq<char>) -> Result<Seq<u8>, KeyError> {
    if !KEY_PREFIX@.is_prefix_of(comment) {
        Err(KeyError::Format(FormatError::MissingPrefix))
    } else {
        match base64_decoded(comment.skip(KEY_PREFIX@.len() as int)) {
            Some(encrypted) => encrypted_record(encrypted),
            None => Err(KeyError::Format(FormatError::InvalidBase64)),
        }
    }
}

/// `got` is the executable form of `want`.
pub open spec fn is_record(got: Result<Vec<u8>, KeyError>, want: Result<Seq<u8>, KeyError>) -> bool {
    match got {
        Ok(bytes) => want == Ok::<Seq<u8>, KeyError>(bytes@),
        Err(e) => want == Err::<Seq<u8>, KeyError>(e),
    }
}

/// Takes the record out of a decrypted key.
pub fn record_of_plaintext(plain: &Vec<u8>) -> (record: Result<Vec<u8>, KeyError>)
    ensures
        is_record(record, plaintext_record(plain@)),
{
    let marker: [u8; 6] = [0x6d, 0x75, 0x73, 0x69, 0x63, 0x3a];
    assert(marker@ =~= record_prefix());
    match strip_bytes_prefix(plain.as_slice(), marker.as_slice()) {
        Some(rest) => Ok(rest),
        None => Err(KeyError::Format(FormatError::MissingRecordPrefix)),
    }
}

/// Decrypts the bytes of a key and takes the record out of the plaintext.
pub fn record_of_encrypted(encrypted: &Vec<u8>) -> (record: Result<Vec<u8>, KeyError>)
    ensures
        is_record(record, encrypted_record(encrypted@)),
{
    let cipher: [u8; 16] = [
        0x23, 0x31, 0x34, 0x6c, 0x6a, 0x6b, 0x5f, 0x21,
        0x5c, 0x5d, 0x26, 0x30, 0x55, 0x3c, 0x27, 0x28,
    ];
    assert(cipher@ =~= cipher_key());
    match decrypt_aes_ecb(encrypted.as_slice(), cipher.as_slice(), KEY_PADDING) {
        Some(plain) => record_of_plaintext(&plain),
        None => Err(KeyError::Crypto(CryptoError::DecryptionFailed)),
    }
}

/// Reads the key in the comment of an audio file and returns the bytes of
/// the record inside it.
///
/// Which step fails decides the error, in the order of the steps: the marker,
/// the base64 text, the decryption, the record marker.
pub fn parse_ncm_key(data: &str) -> (record: Result<Vec<u8>, KeyError>)
    ensures
        is_record(record, key_record(data@)),
{
    match strip_prefix(data, KEY_PREFIX) {
        Some(key) => match decode_base64(key) {
            Ok(encrypted) => record_of_encrypted(&encrypted),
            Err(_) => Err(KeyError::Format(FormatError::InvalidBase64)),
        },
        None => Err(KeyError::Format(FormatError::MissingPrefix)),
    }
}

/// The music identifier of a key, given the record that was read from its
/// bytes: a record that could not be read is an error of form.
pub fn music_id_of(record: Option<NCMMusicInfo>) -> (id: Result<u128, KeyError>)
    ensures
        match record {
            Some(info) => id == Ok::<u128, KeyError>(info.music_id),
            None => id == Err::<u128, KeyError>(KeyError::Format(FormatError::InvalidRecord)),
        },
{
    match record {
        Some(info) => Ok(info.music_id),
        None => Err(KeyError::Format(FormatError::InvalidRecord)),
    }
}

/// The status code of an answer that carries lyrics.
pub const STATUS_OK: usize = 200;

/// Why an answer of the service yields no tracks.
#[derive(Debug, Clone, Copy, PartialEq, Eq)]
pub enum ResponseError {
    /// The service answered with a status code other than [`STATUS_OK`].
    Status(usize),
    /// A time tag of a track writes a time of more than `u64::MAX`
    /// milliseconds. The readers of the tracks compute times in 64 bits, so
    /// such a track cannot be read; a number anywhere else in a track is
    /// never the cause.
    TimeOverflow,
}

/// The lines that the line-synced grammar reads from `text`.
pub uninterp spec fn lrc_lines(text: Seq<char>) -> Seq<LyricLineView>;

/// The lines that the word-synced grammar reads from `text`.
pub uninterp spec fn yrc_lines(text: Seq<char>) -> Seq<LyricLineView>;

/// Every time that the grammar computes from the time tags of `text` is at
/// most `u64::MAX` milliseconds.
pub open spec fn times_fit(grammar: TrackGrammar, text: Seq<char>) -> bool {
    lines_fit(grammar, encode_utf8(text), 0)
}

/// Reads a line-synced track.
///
/// Trusted: the body calls `amll_lyric::lrc::parse_lrc` and copies the lines
/// it returns field by field. The contract names the result [`lrc_lines`].
/// The parser computes the time of a tag as minutes and seconds scaled to
/// milliseconds and added up, in 64 bits; the precondition leaves out the
/// texts in which a tag that it computes a time from writes too large a one.
#[verifier::external_body]
fn parse_lrc_track(text: &str) -> (lines: Vec<LyricLine>)
    requires
        times_fit(TrackGrammar::LineSynced, text@),
    ensures
        lines.deep_view() == lrc_lines(text@),
{
    amll_lyric::lrc::parse_lrc(text).into_iter().map(|line| LyricLine {
        words: line.words.into_iter().map(|w| crate::lyric::LyricWord {
            start_time: w.start_time,
            end_time: w.end_time,
            word: w.word.into_owned(),
        }).collect(),
        translated_lyric: line.translated_lyric.into_owned(),
        roman_lyric: line.roman_lyric.into_owned(),
        is_bg: line.is_bg,
        is_duet: line.is_duet,
        start_time: line.start_time,
        end_time: line.end_time,
    }).collect()
}

/// Reads a word-synced track.
///
/// Trusted: the body calls `amll_lyric::yrc::parse_yrc` and copies the lines
/// it returns field by field. The contract names the result [`yrc_lines`].
/// The parser adds a word's duration to its start, in 64 bits; the
/// precondition leaves out the texts in which a word tag that it reads
/// writes too large a sum.
#[verifier::external_body]
fn parse_yrc_track(text: &str) -> (lines: Vec<LyricLine>)
    requires
        times_fit(TrackGrammar::WordSynced, text@),
    ensures
        lines.deep_view() == yrc_lines(text@),
{
    amll_lyric::yrc::parse_yrc(text).into_iter().map(|line| LyricLine {
        words: line.words.into_iter().map(|w| crate::lyric::LyricWord {
            start_time: w.start_time,
            end_time: w.end_time,
            word: w.word.into_owned(),
        }).collect(),
        translated_lyric: line.translated_lyric.into_owned(),
        roman_lyric: line.roman_lyric.into_owned(),
        is_bg: line.is_bg,
        is_duet: line.is_duet,
        start_time: line.start_time,
        end_time: line.end_time,
    }).collect()
}

/// The lines that the grammar reads from `text`.
pub open spec fn track_lines_of(grammar: TrackGrammar, text: Seq<char>) -> Seq<LyricLineView> {
    match grammar {
        TrackGrammar::LineSynced => lrc_lines(text),
        TrackGrammar::WordSynced => yrc_lines(text),
    }
}

/// Whether every time that the grammar computes from the time tags of
/// `text` is at most `u64::MAX` milliseconds.
pub fn check_times(grammar: TrackGrammar, text: &str) -> (fit: bool)
    ensures
        fit == times_fit(grammar, text@),
{
    check_time_tags(grammar, text.as_bytes())
}

/// Reads the text of a track, unless one of its time tags writes a time of
/// more than `u64::MAX` milliseconds.
pub fn parse_track(grammar: TrackGrammar, text: &str) -> (lines: Option<Vec<LyricLine>>)
    ensures
        match lines {
            Some(read) => times_fit(grammar, text@) && read.deep_view() == track_lines_of(
                grammar,
                text@,
            ),
            None => !times_fit(grammar, text@),
        },
{
    if !check_times(grammar, text) {
        return None;
    }
    match grammar {
        TrackGrammar::LineSynced => Some(parse_lrc_track(text)),
        TrackGrammar::WordSynced => Some(parse_yrc_track(text)),
    }
}

/// The times of a track that is present fit, read by the grammar.
pub open spec fn track_fits(grammar: TrackGrammar, track: Option<EAPILyric>) -> bool {
    match track {
        Some(t) => times_fit(grammar, t.lyric@),
        None => true,
    }
}

/// The lines of a track that is present, read by the grammar.
pub open spec fn track_parsed(grammar: TrackGrammar, track: Option<EAPILyric>) -> Option<
    Seq<LyricLineView>,
> {
    match track {
        Some(t) => Some(track_lines_of(grammar, t.lyric@)),
        None => None,
    }
}

/// The times of every track of the answer that is present fit, each track
/// read by its grammar.
pub open spec fn response_fits(response: EAPILyricResponse) -> bool {
    &&& track_fits(TrackGrammar::LineSynced, response.lrc)
    &&& track_fits(TrackGrammar::LineSynced, response.tlyric)
    &&& track_fits(TrackGrammar::LineSynced, response.romalrc)
    &&& track_fits(TrackGrammar::WordSynced, response.yrc)
    &&& track_fits(TrackGrammar::LineSynced, response.ytlrc)
    &&& track_fits(TrackGrammar::LineSynced, response.yromalrc)
}

/// The tracks of an answer, each read by its grammar: the word-synced
/// lyrics by the word-synced grammar, the other five by the line-synced
/// one.
pub open spec fn response_tracks(response: EAPILyricResponse) -> EAPILyricsView {
    EAPILyricsView {
        lrc: track_parsed(TrackGrammar::LineSynced, response.lrc),
        tlyric: track_parsed(TrackGrammar::LineSynced, response.tlyric),
        romalrc: track_parsed(TrackGrammar::LineSynced, response.romalrc),
        yrc: track_parsed(TrackGrammar::WordSynced, response.yrc),
        ytlrc: track_parsed(TrackGrammar::LineSynced, response.ytlrc),
        yromalrc: track_parsed(TrackGrammar::LineSynced, response.yromalrc),
    }
}

/// What an answer of the service yields: its tracks, or the reason why not.
/// The status is looked at first.
pub open spec fn response_outcome(response: EAPILyricResponse) -> Result<
    EAPILyricsView,
    ResponseError,
> {
    if response.code != STATUS_OK {
        Err(ResponseError::Status(response.code))
    } else if !response_fits(response) {
        Err(ResponseError::TimeOverflow)
    } else {
        Ok(response_tracks(response))
    }
}

fn parse_optional(grammar: TrackGrammar, track: &Option<EAPILyric>) -> (lines: Result<
    Option<Vec<LyricLine>>,
    ResponseError,
>)
    ensures
        match lines {
            Ok(read) => track_fits(grammar, *track) && read.deep_view() == track_parsed(
                grammar,
                *track,
            ),
            Err(e) => e == ResponseError::TimeOverflow && !track_fits(grammar, *track),
        },
{
    match track {
        Some(t) => match parse_track(grammar, t.lyric.as_str()) {
            Some(read) => Ok(Some(read)),
            None => Err(ResponseError::TimeOverflow),
        },
        None => Ok(None),
    }
}

/// Turns an answer of the service into the tracks of the song.
///
/// An answer with a status other than [`STATUS_OK`] is an error that carries
/// the status. Of an answer with that status each track that is present is
/// read by its grammar, whatever its text holds; the one exception is a time
/// tag that writes more than `u64::MAX` milliseconds, which is an error.
pub fn lyrics_from_response(response: &EAPILyricResponse) -> (lyrics: Result<
    EAPILyrics,
    ResponseError,
>)
    ensures
        match lyrics {
            Ok(tracks) => response_outcome(*response) == Ok::<EAPILyricsView, ResponseError>(
                tracks@,
            ),
            Err(e) => response_outcome(*response) == Err::<EAPILyricsView, ResponseError>(e),
        },
{
    if response.code != STATUS_OK {
        return Err(ResponseError::Status(response.code));
    }
    let lrc = parse_optional(TrackGrammar::LineSynced, &response.lrc)?;
    let tlyric = parse_optional(TrackGrammar::LineSynced, &response.tlyric)?;
    let romalrc = parse_optional(TrackGrammar::LineSynced, &response.romalrc)?;
    let yrc = parse_optional(TrackGrammar::WordSynced, &response.yrc)?;
    let ytlrc = parse_optional(TrackGrammar::LineSynced, &response.ytlrc)?;
    let yromalrc = parse_optional(TrackGrammar::LineSynced, &response.yromalrc)?;
    Ok(EAPILyrics { lrc, tlyric, romalrc, yrc, ytlrc, yromalrc })
}

} // verus!
