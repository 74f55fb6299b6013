use listen_submission::{
    classify, encode, encode_with_limits, get_submission_time, EncodingError, Limits,
    SubmissionKind, Track,
};

fn track(artist: &str, title: &str, album: &str) -> Track {
    Track::new(artist.to_string(), title.to_string(), album.to_string())
}

#[test]
fn submission_threshold_examples() {
    assert_eq!(get_submission_time(100), 50);
    assert_eq!(get_submission_time(1000), 240);
    assert_eq!(get_submission_time(0), 0);
    assert_eq!(get_submission_time(480), 240);
    assert_eq!(get_submission_time(479), 239);
    assert_eq!(get_submission_time(u64::MAX), 240);
}

#[test]
fn classify_boundary() {
    assert_eq!(classify(239, 480), None);
    assert_eq!(classify(240, 480), Some(SubmissionKind::Single));
    assert_eq!(classify(50, 100), Some(SubmissionKind::Single));
    assert_eq!(classify(49, 100), None);
    // A zero-length track has a zero threshold, so any elapsed time is
    // eligible; whether to submit such tracks is the caller's call.
    assert_eq!(classify(0, 0), Some(SubmissionKind::Single));
}

#[test]
fn single_round_trip() {
    let t = track("rick astley", "never gonna give you up", "whenever you need somebody");
    let bytes = encode(SubmissionKind::Single, t, 1234567890).unwrap();
    let v: serde_json::Value = serde_json::from_slice(&bytes).unwrap();
    assert_eq!(v["listen_type"].as_str().unwrap(), "single");
    let payload = v["payload"].as_array().unwrap();
    assert_eq!(payload.len(), 1);
    let rec = payload[0].as_object().unwrap();
    assert!(rec["listened_at"].is_number());
    assert_eq!(rec["listened_at"].as_u64().unwrap(), 1234567890);
    let meta = rec["track_metadata"].as_object().unwrap();
    assert_eq!(meta["artist_name"].as_str().unwrap(), "rick astley");
    assert_eq!(meta["track_name"].as_str().unwrap(), "never gonna give you up");
    assert_eq!(meta["release_name"].as_str().unwrap(), "whenever you need somebody");
}

#[test]
fn playing_now_omits_listened_at() {
    let t = track("rick astley", "never gonna give you up", "whenever you need somebody");
    let bytes = encode(SubmissionKind::PlayingNow, t, 1234567890).unwrap();
    let v: serde_json::Value = serde_json::from_slice(&bytes).unwrap();
    assert_eq!(v["listen_type"].as_str().unwrap(), "playing_now");
    // The payload is a single object, not a list, and has no
    // listened_at key at all — a key-presence check, not a null check.
    let payload = v["payload"].as_object().unwrap();
    assert!(!payload.contains_key("listened_at"));
    let meta = payload["track_metadata"].as_object().unwrap();
    assert_eq!(meta["artist_name"].as_str().unwrap(), "rick astley");
}

#[test]
fn encode_is_deterministic() {
    let a = encode(SubmissionKind::Single, track("x", "y", "z"), 77).unwrap();
    let b = encode(SubmissionKind::Single, track("x", "y", "z"), 77).unwrap();
    assert_eq!(a, b);
    let c = encode(SubmissionKind::PlayingNow, track("x", "y", "z"), 1).unwrap();
    let d = encode(SubmissionKind::PlayingNow, track("x", "y", "z"), 2).unwrap();
    assert_eq!(c, d);
}

#[test]
fn size_boundary_at_max_listen_size() {
    let base = encode(SubmissionKind::Single, track("a", "b", ""), 1600000000)
        .unwrap()
        .len();
    let room = 10240 - base;
    let exact = encode(
        SubmissionKind::Single,
        track("a", "b", &"c".repeat(room)),
        1600000000,
    )
    .unwrap();
    assert_eq!(exact.len(), 10240);
    let over = encode(
        SubmissionKind::Single,
        track("a", "b", &"c".repeat(room + 1)),
        1600000000,
    );
    assert_eq!(over.unwrap_err(), EncodingError::PayloadTooLarge);
}

#[test]
fn end_to_end_playing_now_example() {
    let t = track("rick astley", "never gonna give you up", "whenever you need somebody");
    let bytes = encode(SubmissionKind::PlayingNow, t, 0).unwrap();
    let text = String::from_utf8(bytes).unwrap();
    assert_eq!(
        text,
        "{\"listen_type\":\"playing_now\",\"payload\":{\"track_metadata\":\
         {\"artist_name\":\"rick astley\",\"track_name\":\"never gonna give you up\",\
         \"release_name\":\"whenever you need somebody\"}}}"
    );
}

#[test]
fn single_wire_shape_exact() {
    let bytes = encode(SubmissionKind::Single, track("a", "b", "c"), 42).unwrap();
    let text = String::from_utf8(bytes).unwrap();
    assert_eq!(
        text,
        "{\"listen_type\":\"single\",\"payload\":[{\"listened_at\":42,\"track_metadata\":\
         {\"artist_name\":\"a\",\"track_name\":\"b\",\"release_name\":\"c\"}}]}"
    );
}

#[test]
fn escaping_round_trips_through_a_real_decoder() {
    let artist = "quote \" backslash \\ newline \n tab \t bell \u{7} accent é";
    let title = "control \u{1} formfeed \u{c} return \r backspace \u{8}";
    let album = "";
    let bytes = encode(
        SubmissionKind::PlayingNow,
        track(artist, title, album),
        0,
    )
    .unwrap();
    let v: serde_json::Value = serde_json::from_slice(&bytes).unwrap();
    let meta = v["payload"]["track_metadata"].as_object().unwrap();
    assert_eq!(meta["artist_name"].as_str().unwrap(), artist);
    assert_eq!(meta["track_name"].as_str().unwrap(), title);
    assert_eq!(meta["release_name"].as_str().unwrap(), album);
}

#[test]
fn control_bytes_use_lowercase_hex_escapes() {
    let bytes = encode(SubmissionKind::PlayingNow, track("a\u{1f}b", "t", ""), 0).unwrap();
    let text = String::from_utf8(bytes).unwrap();
    assert!(text.contains("a\\u001fb"));
}

#[test]
fn default_limits_match_protocol_constants() {
    let limits = Limits::default();
    assert_eq!(
        limits.max_listen_size,
        listen_submission::limits::MAX_LISTEN_SIZE as usize
    );
    assert_eq!(limits.max_listen_size, 10240);
    assert_eq!(
        limits.max_tags_per_listen,
        listen_submission::limits::MAX_TAGS_PER_LISTEN as usize
    );
    assert_eq!(limits.max_tags_per_listen, 50);
    assert_eq!(
        limits.max_tag_size,
        listen_submission::limits::MAX_TAG_SIZE as usize
    );
    assert_eq!(limits.max_tag_size, 64);
    assert_eq!(listen_submission::limits::MAX_ITEMS_PER_GET, 100);
    assert_eq!(listen_submission::limits::DEFAULT_ITEMS_PER_GET, 25);
}

#[test]
fn injected_limits_are_honoured() {
    let tight = Limits {
        max_listen_size: 16,
        ..Limits::default()
    };
    let r = encode_with_limits(SubmissionKind::PlayingNow, track("a", "b", ""), 0, &tight);
    assert_eq!(r.unwrap_err(), EncodingError::PayloadTooLarge);
    let roomy = Limits {
        max_listen_size: 100000,
        ..Limits::default()
    };
    let r = encode_with_limits(SubmissionKind::PlayingNow, track("a", "b", ""), 0, &roomy);
    assert!(r.is_ok());
}

#[test]
fn envelope_constructors_feed_the_encoder() {
    let listen = track("a", "b", "c").to_single(99);
    let direct = listen.to_json_bytes();
    let through_encode = encode(SubmissionKind::Single, track("a", "b", "c"), 99).unwrap();
    assert_eq!(direct, through_encode);

    let listen = track("a", "b", "c").to_playing_now();
    let direct = listen.to_json_bytes();
    let through_encode = encode(SubmissionKind::PlayingNow, track("a", "b", "c"), 99).unwrap();
    assert_eq!(direct, through_encode);
}

#[test]
fn timestamp_zero_and_large() {
    let text = String::from_utf8(
        encode(SubmissionKind::Single, track("a", "b", ""), 0).unwrap(),
    )
    .unwrap();
    assert!(text.contains("\"listened_at\":0,"));
    let text = String::from_utf8(
        encode(SubmissionKind::Single, track("a", "b", ""), u64::MAX).unwrap(),
    )
    .unwrap();
    assert!(text.contains("\"listened_at\":18446744073709551615,"));
}
