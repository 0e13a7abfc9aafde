use saguaro_common::compress::codec::value_or_corrupt;
use saguaro_common::compress::dict::{decode_dict_file, encode_dict_file};
use saguaro_common::compress::registry::{finish_decompressed, finish_image, finish_page};
use saguaro_common::compress::{
    compress_value_zstd, decode_envelope, encode_envelope, is_envelope, next_training_action,
    train_dictionary, CompressionRegistry, FileCompression, TrainingAction, TrainingEvent,
    CODEC_NONE, CODEC_ZSTD, CODEC_ZSTD_DICT, ENVELOPE_HEADER_LEN, LEVEL_AT_REST,
};
use saguaro_common::{CancelReason, ErrorKind, QueryCancel, SqlState};

#[test]
fn envelope_round_trips() {
    let payload = b"compressed bytes".to_vec();
    let env = encode_envelope(CODEC_ZSTD_DICT, 7, &payload).unwrap();
    assert_eq!(env.len(), ENVELOPE_HEADER_LEN + payload.len());
    assert!(is_envelope(&env));
    let decoded = decode_envelope(&env).unwrap();
    assert_eq!(decoded.codec, CODEC_ZSTD_DICT);
    assert_eq!(decoded.dict_id, 7);
    assert_eq!(decoded.payload, payload.as_slice());
}

#[test]
fn raw_page_and_zeroed_slot_are_not_envelopes() {
    // A valid v2 page has PageVersion = 2 at offset 5; envelope marker
    // requires 0xFF there, so no valid page collides.
    let mut raw = vec![0u8; 8192];
    raw[4] = 1; // PageType heap
    raw[5] = 2; // PageVersion 2
    assert!(!is_envelope(&raw));
    assert!(!is_envelope(&vec![0u8; 8192]));
    assert!(!is_envelope(b"SG")); // shorter than the marker
}

#[test]
fn decode_rejects_crc_and_version_tampering() {
    let env = encode_envelope(CODEC_ZSTD, 0, b"payload").unwrap();

    let mut bad_crc = env.clone();
    *bad_crc.last_mut().unwrap() ^= 0xFF; // flip a payload byte
    let err = decode_envelope(&bad_crc).unwrap_err();
    assert_eq!(err.kind, ErrorKind::Storage);
    assert_eq!(err.code, SqlState::InternalError);

    let mut bad_version = env.clone();
    bad_version[6] = 99;
    assert!(decode_envelope(&bad_version).is_err());

    let mut bad_codec = env.clone();
    bad_codec[7] = 42;
    assert!(decode_envelope(&bad_codec).is_err());

    let mut no_codec = env.clone();
    no_codec[7] = CODEC_NONE;
    assert!(decode_envelope(&no_codec).is_err());

    let mut truncated = env.clone();
    truncated.truncate(ENVELOPE_HEADER_LEN - 1);
    assert!(decode_envelope(&truncated).is_err());

    // Declared length larger than the slot bytes actually present.
    let mut short_payload = env.clone();
    short_payload.truncate(ENVELOPE_HEADER_LEN + 3);
    assert!(decode_envelope(&short_payload).is_err());
}

#[test]
fn encode_rejects_oversized_payload() {
    let too_big = vec![0u8; usize::from(u16::MAX) + 1];
    assert!(encode_envelope(CODEC_ZSTD, 0, &too_big).is_err());
}

#[test]
fn encode_rejects_non_envelope_codecs() {
    assert!(encode_envelope(CODEC_NONE, 0, b"payload").is_err());
    assert!(encode_envelope(99, 0, b"payload").is_err());
}

#[test]
fn zstd_bulk_round_trips_8k_image() {
    // Sanity-check the external zstd API shapes we rely on.
    let image: Vec<u8> = (0..8192u32).map(|i| (i % 251) as u8).collect();
    let compressed = zstd::bulk::compress(&image, LEVEL_AT_REST).unwrap();
    assert!(compressed.len() < image.len());
    let restored = zstd::bulk::decompress(&compressed, image.len()).unwrap();
    assert_eq!(restored, image);
}

// Repetitive page-like images compress well even at level 1.
fn sample_image(seed: u8) -> Vec<u8> {
    let row = format!("user-{seed}-payload-abcdefghijklmnopqrstuvwxyz;");
    row.as_bytes().iter().copied().cycle().take(8192).collect()
}

#[test]
fn at_rest_respects_file_config_and_round_trips() {
    let mut registry = CompressionRegistry::new();
    let image = sample_image(1);

    // No config => raw.
    assert!(
        registry
            .compress_page_at_rest(10, &image)
            .unwrap()
            .is_none()
    );

    registry.set_file_config(10, FileCompression::Zstd { dict_id: None });
    let env = registry.compress_page_at_rest(10, &image).unwrap().unwrap();
    assert!(env.len() < image.len());
    let restored = registry
        .decompress_page(&env, image.len())
        .unwrap()
        .unwrap();
    assert_eq!(restored, image);

    // A raw slot decodes to None (not an envelope).
    assert!(
        registry
            .decompress_page(&image, image.len())
            .unwrap()
            .is_none()
    );
}

#[test]
fn incompressible_image_stays_raw() {
    let mut registry = CompressionRegistry::new();
    registry.set_file_config(10, FileCompression::Zstd { dict_id: None });
    // High-entropy bytes: xorshift-ish PRNG, no repetition.
    let mut x: u64 = 0x9E3779B97F4A7C15;
    let image: Vec<u8> = (0..8192)
        .map(|_| {
            x ^= x << 13;
            x ^= x >> 7;
            x ^= x << 17;
            (x & 0xFF) as u8
        })
        .collect();
    assert!(
        registry
            .compress_page_at_rest(10, &image)
            .unwrap()
            .is_none()
    );
    assert!(registry.compress_fpi(10, &image).is_none());
}

#[test]
fn fpi_compression_is_unconditional_and_uses_dict_when_registered() {
    let mut registry = CompressionRegistry::new();
    let image = sample_image(2);

    // No config at all: still compressed, dict-less zstd.
    let (codec, dict_id, payload) = registry.compress_fpi(99, &image).unwrap();
    assert_eq!(codec, CODEC_ZSTD);
    assert_eq!(dict_id, 0);
    assert_eq!(
        registry
            .decompress_fpi(codec, dict_id, &payload, image.len())
            .unwrap(),
        image
    );

    // With a trained dict registered and configured: codec 2 + dict id.
    let samples: Vec<Vec<u8>> = (0..64).map(|i| sample_image(i as u8)).collect();
    let dict = train_dictionary(&samples).expect("corpus is large enough");
    registry.register_dictionary(7, &dict).unwrap();
    registry.set_file_config(99, FileCompression::Zstd { dict_id: Some(7) });
    let (codec, dict_id, payload) = registry.compress_fpi(99, &image).unwrap();
    assert_eq!((codec, dict_id), (CODEC_ZSTD_DICT, 7));
    assert_eq!(
        registry
            .decompress_fpi(codec, dict_id, &payload, image.len())
            .unwrap(),
        image
    );

    // Unknown dict id on decompress is a structured error.
    assert!(
        registry
            .decompress_fpi(CODEC_ZSTD_DICT, 42, &payload, image.len())
            .is_err()
    );
}

#[test]
fn dict_at_rest_round_trips() {
    let mut registry = CompressionRegistry::new();
    let samples: Vec<Vec<u8>> = (0..64).map(|i| sample_image(i as u8)).collect();
    let dict = train_dictionary(&samples).unwrap();
    registry.register_dictionary(3, &dict).unwrap();
    registry.set_file_config(5, FileCompression::Zstd { dict_id: Some(3) });

    let image = sample_image(9);
    let env = registry.compress_page_at_rest(5, &image).unwrap().unwrap();
    let restored = registry
        .decompress_page(&env, image.len())
        .unwrap()
        .unwrap();
    assert_eq!(restored, image);
}

fn sample_value(seed: u8) -> Vec<u8> {
    let chunk = format!("toast-value-{seed}-name-email-bio-location;");
    chunk.as_bytes().iter().copied().cycle().take(768).collect()
}

#[test]
fn value_zstd_round_trips() {
    let registry = CompressionRegistry::new();
    let raw = sample_value(1);
    let payload = compress_value_zstd(&raw).unwrap();

    let restored = registry
        .decompress_value(CODEC_ZSTD, None, &payload, raw.len())
        .unwrap();
    assert_eq!(restored, raw);
}

#[test]
fn value_raw_payload_round_trips() {
    let registry = CompressionRegistry::new();
    let raw = sample_value(2);

    let restored = registry
        .decompress_value(CODEC_NONE, None, &raw, raw.len())
        .unwrap();
    assert_eq!(restored, raw);
}

#[test]
fn value_zstd_dict_round_trips() {
    let mut registry = CompressionRegistry::new();
    let samples: Vec<Vec<u8>> = (0..64).map(|i| sample_value(i as u8)).collect();
    let dict = train_dictionary(&samples).unwrap();
    registry.register_dictionary(11, &dict).unwrap();

    let raw = sample_value(3);
    let payload = registry.compress_value_zstd_dict(11, &raw).unwrap();
    let restored = registry
        .decompress_value(CODEC_ZSTD_DICT, Some(11), &payload, raw.len())
        .unwrap();
    assert_eq!(restored, raw);
}

#[test]
fn value_decompress_rejects_wrong_raw_len() {
    let registry = CompressionRegistry::new();
    let raw = sample_value(4);
    let payload = compress_value_zstd(&raw).unwrap();

    let err = registry
        .decompress_value(CODEC_ZSTD, None, &payload, raw.len() + 1)
        .unwrap_err();
    assert_eq!(err.kind, ErrorKind::Storage);
    assert_eq!(err.code, SqlState::InternalError);

    assert!(
        registry
            .decompress_value(CODEC_NONE, None, &raw, raw.len() + 1)
            .is_err()
    );
}

#[test]
fn value_decompress_rejects_unknown_codec() {
    let registry = CompressionRegistry::new();
    let err = registry
        .decompress_value(99, None, b"payload", 7)
        .unwrap_err();
    assert_eq!(err.kind, ErrorKind::Storage);
    assert_eq!(err.code, SqlState::InternalError);
}

#[test]
fn value_decompress_validates_dictionary_metadata() {
    let registry = CompressionRegistry::new();
    let raw = sample_value(5);
    let payload = compress_value_zstd(&raw).unwrap();

    assert!(
        registry
            .decompress_value(CODEC_ZSTD, Some(1), &payload, raw.len())
            .is_err()
    );
    assert!(
        registry
            .decompress_value(CODEC_ZSTD_DICT, None, &payload, raw.len())
            .is_err()
    );
    assert!(registry.compress_value_zstd_dict(1, &raw).is_err());
}

#[test]
fn train_dictionary_returns_none_on_tiny_corpus() {
    assert!(train_dictionary(&[]).is_none());
    assert!(train_dictionary(&[vec![1, 2, 3]]).is_none());
}

#[test]
fn envelopes_are_read_whatever_follows_them() {
    let mut slot = encode_envelope(CODEC_ZSTD, 0, b"payload").unwrap();
    assert_eq!(&slot[..8], &[b'S', b'G', b'C', b'P', 0xFF, 0xFF, 1, CODEC_ZSTD]);
    slot.resize(8192, 0);
    assert_eq!(decode_envelope(&slot).unwrap().payload, b"payload");
}

#[test]
fn checksums_are_those_of_the_payload() {
    // The CRC-32 of "123456789" is the check value of the algorithm.
    let env = encode_envelope(CODEC_ZSTD, 0, b"123456789").unwrap();
    assert_eq!(&env[14..18], &0xCBF4_3926_u32.to_le_bytes());
}

#[test]
fn damaged_envelopes_say_what_is_wrong() {
    let env = encode_envelope(CODEC_ZSTD, 0, b"payload").unwrap();
    let message = |slot: &[u8]| decode_envelope(slot).unwrap_err().message;
    assert_eq!(message(b"raw"), "not a compressed page envelope");
    assert_eq!(message(&env[..10]), "compressed page envelope truncated");
    assert_eq!(
        message(&env[..20]),
        "envelope payload extends past the page slot"
    );
    let mut bad = env.clone();
    bad[6] = 9;
    assert_eq!(message(&bad), "unknown envelope version 9");
    let mut bad = env.clone();
    bad[7] = 9;
    assert_eq!(message(&bad), "unknown envelope codec 9");
    let mut bad = env;
    bad[18] ^= 1;
    assert_eq!(message(&bad), "compressed page envelope CRC mismatch");
}

#[test]
fn dict_store_saves_and_loads_with_crc() {
    let one = encode_dict_file(1, 42, b"dict-one-bytes");
    let two = encode_dict_file(2, 43, b"dict-two-bytes");
    assert_eq!(
        decode_dict_file(&one, "1.dict").unwrap(),
        (1, 42, b"dict-one-bytes".to_vec())
    );
    assert_eq!(
        decode_dict_file(&two, "2.dict").unwrap(),
        (2, 43, b"dict-two-bytes".to_vec())
    );
}

#[test]
fn dict_store_rejects_tampered_file() {
    let mut bytes = encode_dict_file(1, 42, b"dict-one-bytes");
    *bytes.last_mut().unwrap() ^= 0xFF;
    let error = decode_dict_file(&bytes, "1.dict").unwrap_err();
    assert_eq!(error.message, "dict file 1.dict CRC mismatch");
}

#[test]
fn damaged_dictionary_files_say_what_is_wrong() {
    let file = encode_dict_file(1, 42, b"dict-one-bytes");
    let message = |bytes: &[u8]| decode_dict_file(bytes, "1.dict").unwrap_err().message;
    assert_eq!(message(b"SGDC"), "bad dictionary file 1.dict");
    assert_eq!(message(&file[..30]), "dict file 1.dict truncated");
    let mut bad = file.clone();
    bad[4] = 2;
    assert_eq!(message(&bad), "unknown dict file version in 1.dict");
    let mut bad = file;
    bad[0] = b'X';
    assert_eq!(message(&bad), "bad dictionary file 1.dict");
}

#[test]
fn dictionary_zero_is_reserved() {
    let mut registry = CompressionRegistry::new();
    let error = registry.register_dictionary(0, b"bytes").unwrap_err();
    assert_eq!(error.message, "dictionary id 0 is reserved");
    assert!(!registry.has_dictionary(0));
    registry.register_dictionary(4, b"some raw dictionary content").unwrap();
    assert!(registry.has_dictionary(4));
    assert_eq!(registry.file_config(1), FileCompression::default());
}

#[test]
fn a_file_without_its_dictionary_is_compressed_without_one() {
    let mut registry = CompressionRegistry::new();
    registry.set_file_config(5, FileCompression::Zstd { dict_id: Some(3) });
    let image = sample_image(9);
    let env = registry.compress_page_at_rest(5, &image).unwrap().unwrap();
    assert_eq!(decode_envelope(&env).unwrap().codec, CODEC_ZSTD);
}

#[test]
fn what_becomes_of_a_page_depends_on_the_payload() {
    let page = |payload: usize, len: usize| {
        finish_page(CODEC_ZSTD, 0, Ok(vec![7; payload]), len).unwrap()
    };
    assert_eq!(page(10, 28), None);
    assert_eq!(page(10, 29).unwrap().len(), 28);
    let too_large = finish_page(CODEC_ZSTD, 0, Ok(vec![7; 70_000]), 80_000).unwrap_err();
    assert_eq!(too_large.message, "envelope payload too large: 70000");
    let failed = finish_page(CODEC_ZSTD, 0, Err("no memory".to_string()), 100).unwrap_err();
    assert_eq!(failed.message, "zstd compress failed: no memory");

    assert_eq!(finish_image(CODEC_ZSTD, 0, Ok(vec![7; 10]), 10), None);
    assert_eq!(
        finish_image(CODEC_ZSTD, 0, Ok(vec![7; 9]), 10),
        Some((CODEC_ZSTD, 0, vec![7; 9]))
    );
    assert_eq!(finish_image(CODEC_ZSTD, 0, Err(String::new()), 10), None);
}

#[test]
fn what_is_returned_depends_on_the_length() {
    let finish = |outcome| finish_decompressed(outcome, "failed: ", "found ", 3);
    assert_eq!(finish(Ok(vec![1, 2, 3])).unwrap(), vec![1, 2, 3]);
    assert_eq!(
        finish(Ok(vec![1])).unwrap_err().message,
        "found 1 bytes, expected 3"
    );
    assert_eq!(
        finish(Err("bad frame".to_string())).unwrap_err().message,
        "failed: bad frame"
    );
    assert!(value_or_corrupt(Err("x".to_string()), "y").is_err());
}

#[test]
fn damaged_frames_are_refused() {
    let mut registry = CompressionRegistry::new();
    registry.register_dictionary(4, b"some raw dictionary content").unwrap();
    for (codec, dict_id) in [(CODEC_ZSTD, 0), (CODEC_ZSTD_DICT, 4)] {
        let error = registry
            .decompress_fpi(codec, dict_id, b"not a frame", 64)
            .unwrap_err();
        assert_eq!(error.code, SqlState::InternalError);
    }
    let error = registry.decompress_fpi(9, 0, b"", 0).unwrap_err();
    assert_eq!(error.message, "unknown compression codec 9");
    let error = registry.decompress_fpi(CODEC_ZSTD_DICT, 5, b"", 0).unwrap_err();
    assert_eq!(error.message, "compression dictionary 5 is not registered");
}

#[test]
fn a_dictionary_shows_in_the_frames() {
    let mut registry = CompressionRegistry::new();
    let raw = sample_value(3);
    registry.register_dictionary(4, &sample_value(3)).unwrap();
    let with = registry.compress_value_zstd_dict(4, &raw).unwrap();
    let without = compress_value_zstd(&raw).unwrap();
    assert!(with.len() < without.len());
}

#[test]
fn cancelable_training_honors_a_pending_timeout() {
    let mut cancel = QueryCancel::new();
    cancel.request(CancelReason::StatementTimeout);
    let samples = vec![vec![b'x'; 1024]; 8];

    let event = TrainingEvent::Wanted { samples: samples.len() };
    let err = match next_training_action(event, &cancel) {
        TrainingAction::Finish(result) => result.unwrap_err(),
        action => panic!("not canceled: {action:?}"),
    };

    assert_eq!(err.code, SqlState::QueryCanceled);
}

#[test]
fn training_claims_the_permit_starts_and_polls() {
    let cancel = QueryCancel::new();
    let next = |event| next_training_action(event, &cancel);
    assert!(matches!(
        next(TrainingEvent::Wanted { samples: 7 }),
        TrainingAction::Finish(Ok(None))
    ));
    assert!(matches!(next(TrainingEvent::Wanted { samples: 8 }), TrainingAction::Claim));
    assert!(matches!(next(TrainingEvent::Busy), TrainingAction::Claim));
    assert!(matches!(next(TrainingEvent::Permitted), TrainingAction::Start));
    assert!(matches!(next(TrainingEvent::Started), TrainingAction::Poll));
    assert!(matches!(next(TrainingEvent::Working), TrainingAction::Poll));
    match next(TrainingEvent::Trained(Some(vec![1, 2]))) {
        TrainingAction::Finish(result) => assert_eq!(result.unwrap(), Some(vec![1, 2])),
        action => panic!("not finished: {action:?}"),
    }
}

#[test]
fn training_failures_are_internal_errors() {
    let mut cancel = QueryCancel::new();
    cancel.request(CancelReason::UserRequest);
    for (event, message) in [
        (
            TrainingEvent::NotStarted("no threads".to_string()),
            "failed to start dictionary training: no threads",
        ),
        (TrainingEvent::Stopped, "dictionary training worker stopped"),
    ] {
        match next_training_action(event, &cancel) {
            TrainingAction::Finish(Err(err)) => {
                assert_eq!(err.kind, ErrorKind::Internal);
                assert_eq!(err.message, message);
            }
            action => panic!("no failure: {action:?}"),
        }
    }
    for event in [TrainingEvent::Busy, TrainingEvent::Started, TrainingEvent::Working] {
        match next_training_action(event, &cancel) {
            TrainingAction::Finish(Err(err)) => assert_eq!(err.code, SqlState::QueryCanceled),
            action => panic!("not canceled: {action:?}"),
        }
    }
}

#[test]
fn empty_values_read_back() {
    let registry = CompressionRegistry::new();
    let payload = compress_value_zstd(b"").unwrap();
    assert_eq!(
        registry.decompress_value(CODEC_ZSTD, None, &payload, 0).unwrap(),
        Vec::<u8>::new()
    );
}

#[test]
fn decompression_failures_say_why() {
    let mut registry = CompressionRegistry::new();
    registry.register_dictionary(3, b"a dictionary of plain content").unwrap();
    let image = vec![7u8; 4096];
    let payload = compress_value_zstd(&image).unwrap();
    let with_dict = registry.compress_value_zstd_dict(3, &image).unwrap();
    let message = |codec, dict_id, payload: &[u8], expected_len| {
        registry.decompress_fpi(codec, dict_id, payload, expected_len).unwrap_err().message
    };

    // No room for the data, too much of it, and no frame at all.
    assert_eq!(
        message(CODEC_ZSTD, 0, &payload, 4095),
        "zstd decompress failed: Destination buffer is too small"
    );
    assert_eq!(
        message(CODEC_ZSTD, 0, &payload, 4097),
        "decompressed page is 4096 bytes, expected 4097"
    );
    assert_eq!(
        message(CODEC_ZSTD, 0, b"not a frame", 4096),
        "zstd decompress failed: Unknown frame descriptor"
    );
    assert_eq!(
        message(CODEC_ZSTD_DICT, 3, &with_dict, 4095),
        "zstd dict decompress failed: Destination buffer is too small"
    );
    assert_eq!(
        message(CODEC_ZSTD_DICT, 3, &with_dict, 4097),
        "decompressed page is 4096 bytes, expected 4097"
    );
    assert_eq!(
        message(CODEC_ZSTD_DICT, 3, b"not a frame", 4096),
        "zstd dict decompress failed: Unknown frame descriptor"
    );
    assert_eq!(
        registry.decompress_fpi(CODEC_ZSTD_DICT, 3, &with_dict, 4096).unwrap(),
        image
    );
}

#[test]
fn a_dictionary_that_cannot_be_loaded_is_said_to_lack_memory() {
    let mut registry = CompressionRegistry::new();
    // The dictionary magic number and an id, with no entropy tables behind them.
    let damaged = [0x37, 0xA4, 0x30, 0xEC, 1, 0, 0, 0, 0xFF, 0xFF, 0xFF, 0xFF];
    registry.register_dictionary(9, &damaged).unwrap();
    assert_eq!(
        registry.compress_value_zstd_dict(9, b"value").unwrap_err().message,
        "zstd dict value compress failed: Allocation error : not enough memory"
    );
    let payload = compress_value_zstd(b"value").unwrap();
    assert_eq!(
        registry
            .decompress_value(CODEC_ZSTD_DICT, Some(9), &payload, 5)
            .unwrap_err()
            .message,
        "zstd dict value decompress failed: Allocation error : not enough memory"
    );
}
