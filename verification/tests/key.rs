use ncm_lyric::ncm::{
    music_id_of, parse_ncm_key, record_of_encrypted, record_of_plaintext, CryptoError,
    FormatError, KeyError, NCMMusicInfo, KEY_PADDING, KEY_PREFIX,
};

const CIPHER_KEY: &[u8] = b"#14ljk_!\\]&0U<'(";

fn sealed(plaintext: &[u8], key: &[u8]) -> String {
    let encrypted = soft_aes::aes::aes_enc_ecb(plaintext, key, Some("PKCS7")).unwrap();
    let encoded = base64::Engine::encode(&base64::engine::general_purpose::STANDARD, encrypted);
    format!("{}{}", KEY_PREFIX, encoded)
}

#[test]
fn test_key() {
    let record = parse_ncm_key("163 key(Don't modify):L64FU3W4YxX3ZFTmbZ+8/RRHwdZew2VwDePdDQC3VGRqmDCdbpLMQzF+I5wkI7WH93/xNa4COjW9oLy00/Vp9vd7uiWMV0UBER4xn0CFVGRF1OzvZGOhbEOex7yMwm749fMfSK5qJt56FFxr3KUaVMd8TD1I2WcL51PMFPrH+8raIJLt/ZOLKeUhlvYGxTtNh8zWkQQo3WRe4hl949KJGlGDqBu9VZ7ZPKo2ofJ0cLb7vUStxPqtMW2EGaODC4szWokp0pe+8AWUoMrxRyomuXNeXQTRIqVbbUu/8DNXAG9dB3OV74oJqXkz0tKk35aC2L12na0AeVuxkhHpKAIYo0/eOOrDfcOqh+d2xkdrWEPOgeixeOonupg34xec1p9s5ErdEwwfzJV7Vd3l1V8n/su2DSg2/RgXG1eFXXkyu+Wlvdly0awk1q0s0MVaMtzakKWCjGpnaamEDkQVZYVnJ2m+/FGuy/x+sYwNv8d38R2ssIuEsqccEDnPUv/kFIvb").unwrap();
    let value: serde_json::Value = serde_json::from_slice(&record).unwrap();
    assert_eq!(value.get("musicId").and_then(|id| id.as_u64()), Some(1826833743));
    assert_eq!(value.get("musicName").and_then(|name| name.as_str()), Some("Trust You"));
}

#[test]
fn key_round_trip_gives_the_record() {
    let comment = sealed(b"music:{\"musicId\":402073643}", CIPHER_KEY);
    let record = parse_ncm_key(&comment).unwrap();
    assert_eq!(record, b"{\"musicId\":402073643}".to_vec());
    let value: serde_json::Value = serde_json::from_slice(&record).unwrap();
    let info = NCMMusicInfo {
        music_id: value.get("musicId").and_then(|v| v.as_u64()).unwrap() as u128,
        ..NCMMusicInfo::default()
    };
    assert_eq!(music_id_of(Some(info)), Ok(402073643));
}

#[test]
fn key_without_marker_is_rejected() {
    assert_eq!(parse_ncm_key(""), Err(KeyError::Format(FormatError::MissingPrefix)));
    assert_eq!(parse_ncm_key("163 key"), Err(KeyError::Format(FormatError::MissingPrefix)));
    assert_eq!(
        parse_ncm_key("163 key(Don't modify) QUJD"),
        Err(KeyError::Format(FormatError::MissingPrefix))
    );
    let comment = sealed(b"music:{}", CIPHER_KEY);
    let shifted = format!(" {}", comment);
    assert_eq!(parse_ncm_key(&shifted), Err(KeyError::Format(FormatError::MissingPrefix)));
}

#[test]
fn key_with_bad_base64_is_rejected() {
    assert_eq!(
        parse_ncm_key("163 key(Don't modify):!!not base64!!"),
        Err(KeyError::Format(FormatError::InvalidBase64))
    );
    assert_eq!(
        parse_ncm_key("163 key(Don't modify):QUJ"),
        Err(KeyError::Format(FormatError::InvalidBase64))
    );
}

#[test]
fn key_that_does_not_decrypt_is_rejected() {
    // Three bytes are no whole cipher block.
    assert_eq!(
        parse_ncm_key("163 key(Don't modify):QUJD"),
        Err(KeyError::Crypto(CryptoError::DecryptionFailed))
    );
    // Nothing at all cannot hold a padding.
    assert_eq!(
        parse_ncm_key("163 key(Don't modify):"),
        Err(KeyError::Crypto(CryptoError::DecryptionFailed))
    );
}

#[test]
fn key_sealed_with_another_cipher_key_yields_no_record() {
    let comment = sealed(b"music:{\"musicId\":402073643}", b"0123456789abcdef");
    let outcome = parse_ncm_key(&comment);
    assert_eq!(outcome, Err(KeyError::Crypto(CryptoError::DecryptionFailed)));
}

#[test]
fn key_without_record_marker_is_rejected() {
    let comment = sealed(b"movie:{\"musicId\":402073643}", CIPHER_KEY);
    assert_eq!(parse_ncm_key(&comment), Err(KeyError::Format(FormatError::MissingRecordPrefix)));
    let short = sealed(b"musi", CIPHER_KEY);
    assert_eq!(parse_ncm_key(&short), Err(KeyError::Format(FormatError::MissingRecordPrefix)));
}

#[test]
fn record_marker_alone_gives_an_empty_record() {
    let comment = sealed(b"music:", CIPHER_KEY);
    assert_eq!(parse_ncm_key(&comment), Ok(Vec::new()));
    assert_eq!(record_of_plaintext(&b"music:".to_vec()), Ok(Vec::new()));
    assert_eq!(record_of_plaintext(&b"music:ab".to_vec()), Ok(b"ab".to_vec()));
    assert_eq!(
        record_of_plaintext(&b"Music:ab".to_vec()),
        Err(KeyError::Format(FormatError::MissingRecordPrefix))
    );
}

#[test]
fn unreadable_record_is_an_error_of_form() {
    assert_eq!(music_id_of(None), Err(KeyError::Format(FormatError::InvalidRecord)));
    let info = NCMMusicInfo { music_id: u128::MAX, ..NCMMusicInfo::default() };
    assert_eq!(music_id_of(Some(info)), Ok(u128::MAX));
}

#[test]
fn encrypted_bytes_give_their_record() {
    let encrypted = soft_aes::aes::aes_enc_ecb(b"music:record", CIPHER_KEY, Some(KEY_PADDING)).unwrap();
    assert_eq!(encrypted.len(), 16);
    assert_eq!(record_of_encrypted(&encrypted), Ok(b"record".to_vec()));
    assert_eq!(
        record_of_encrypted(&vec![0u8; 15]),
        Err(KeyError::Crypto(CryptoError::DecryptionFailed))
    );
}
