use rustfm_scrobble::responses::CorrectableString;
use rustfm_scrobble::submission::indexed_key_string;
use rustfm_scrobble::text::{to_lower_hex, u64_to_decimal};
use rustfm_scrobble::{
    batch_request_params, scrobble_request_params, BatchError, Scrobble, ScrobbleBatch,
    ScrobblerError,
};
use std::time::{SystemTime, UNIX_EPOCH};

#[test]
fn make_scrobble() {
    let mut scrobble = Scrobble::new(
        "foo floyd and the fruit flies",
        "old bananas",
        "old bananas",
    );
    scrobble.with_timestamp(1337);
    assert_eq!(scrobble.artist(), "foo floyd and the fruit flies");
    assert_eq!(scrobble.track(), "old bananas");
    assert_eq!(scrobble.album(), "old bananas");
    assert_eq!(scrobble.timestamp(), Some(1337));
}

#[test]
fn make_scrobble_check_map() {
    let scrobble = Scrobble::new(
        "foo floyd and the fruit flies",
        "old bananas",
        "old bananas",
    );

    let params = scrobble.as_map();
    assert_eq!(params.get("artist").unwrap(), "foo floyd and the fruit flies");
    assert_eq!(params.get("track").unwrap(), "old bananas");
    assert_eq!(params.get("album").unwrap(), "old bananas");
}

#[test]
fn scrobble_map_holds_timestamp_when_set() {
    let mut scrobble = Scrobble::new("a", "t", "al");
    assert!(scrobble.as_map().get("timestamp").is_none());
    scrobble.with_timestamp(1337);
    assert_eq!(scrobble.as_map().get("timestamp").unwrap(), "1337");
}

#[test]
fn check_scrobbler_error() {
    let err = ScrobblerError::new("test_error".into());
    let fmt = err.message();
    assert_eq!("test_error", fmt);

    let desc = err.description();
    assert_eq!("test_error", desc);
}

#[test]
fn scrobbler_error_from_string() {
    let err = ScrobblerError::from("oops".to_string());
    assert_eq!(err.description(), "oops");
}

fn now() -> u64 {
    SystemTime::now().duration_since(UNIX_EPOCH).unwrap().as_secs()
}

#[test]
fn scrobble_params_default_to_now() {
    let scrobble = Scrobble::new("a", "t", "al");
    let params = scrobble_request_params(&scrobble, 1_600_000_000);
    assert_eq!(params.get("timestamp").unwrap(), "1600000000");
    let mut stamped = Scrobble::new("a", "t", "al");
    stamped.with_timestamp(1337);
    let params = scrobble_request_params(&stamped, 1_600_000_000);
    assert_eq!(params.get("timestamp").unwrap(), "1337");
}

#[test]
fn batch_too_large() {
    let mut batch = ScrobbleBatch::new();
    for i in 0..51 {
        batch.push(Scrobble::new("a", &format!("t{}", i), "al"));
    }
    assert_eq!(batch.len(), 51);
    assert_eq!(batch_request_params(&batch, now()).unwrap_err(), BatchError::BatchTooLarge);
}

#[test]
fn batch_of_fifty_is_accepted() {
    let scrobbles: Vec<Scrobble> = (0..50).map(|i| Scrobble::new("a", &format!("t{}", i), "al")).collect();
    let batch = ScrobbleBatch::from(scrobbles);
    let params = batch_request_params(&batch, 7).unwrap();
    assert_eq!(params.get("track[49]").unwrap(), "t49");
    assert_eq!(params.sorted_keys().len(), 200);
}

#[test]
fn empty_batch() {
    let batch = ScrobbleBatch::new();
    assert!(batch.is_empty());
    assert_eq!(batch_request_params(&batch, now()).unwrap_err(), BatchError::EmptyBatch);
}

#[test]
fn batch_of_one_gets_current_timestamp() {
    let before = now();
    let batch = ScrobbleBatch::from(vec![Scrobble::new("artist", "track", "album")]);
    let params = batch_request_params(&batch, now()).unwrap();
    let after = now();
    let ts: u64 = params.get("timestamp[0]").unwrap().parse().unwrap();
    assert!(before <= ts && ts <= after);
    assert_eq!(params.get("artist[0]").unwrap(), "artist");
    assert_eq!(params.get("track[0]").unwrap(), "track");
    assert_eq!(params.get("album[0]").unwrap(), "album");
}

#[test]
fn batch_keys_are_indexed() {
    let mut second = Scrobble::new("b", "tb", "ab");
    second.with_timestamp(42);
    let batch = ScrobbleBatch::from(vec![Scrobble::new("a", "ta", "aa"), second]);
    let params = batch_request_params(&batch, 99).unwrap();
    assert_eq!(
        params.sorted_keys(),
        vec![
            "album[0]", "album[1]", "artist[0]", "artist[1]", "timestamp[0]", "timestamp[1]",
            "track[0]", "track[1]"
        ]
        .into_iter()
        .map(String::from)
        .collect::<Vec<_>>()
    );
    assert_eq!(params.get("timestamp[0]").unwrap(), "99");
    assert_eq!(params.get("timestamp[1]").unwrap(), "42");
    assert_eq!(params.get("artist[1]").unwrap(), "b");
}

#[test]
fn batch_error_messages() {
    assert_eq!(
        BatchError::BatchTooLarge.message(),
        "Scrobble batch too large (must be 50 or fewer scrobbles)"
    );
    assert_eq!(BatchError::EmptyBatch.message(), "Scrobble batch is empty");
}

#[test]
fn indexed_keys() {
    assert_eq!(indexed_key_string("artist", 0), "artist[0]");
    assert_eq!(indexed_key_string("track", 12), "track[12]");
}

#[test]
fn decimal_and_hex_rendering() {
    assert_eq!(u64_to_decimal(0), "0");
    assert_eq!(u64_to_decimal(1337), "1337");
    assert_eq!(u64_to_decimal(u64::MAX), "18446744073709551615");
    assert_eq!(to_lower_hex(&[0x00, 0x0f, 0xa5, 0xff]), "000fa5ff");
    assert_eq!(to_lower_hex(&[]), "");
}

#[test]
fn correction_flag() {
    assert_eq!(CorrectableString::parse_corrected_flag("1"), Some(true));
    assert_eq!(CorrectableString::parse_corrected_flag("0"), Some(false));
    assert_eq!(CorrectableString::parse_corrected_flag("2"), None);
    assert_eq!(CorrectableString::parse_corrected_flag(""), None);
}
