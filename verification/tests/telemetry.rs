use frame::media::{MediaItem, Orientation};
use frame::selector::Selection;
use frame::telemetry::{ItemRefs, RemoteAddr, Submission, TelemetryLog, TelemetryRecord};

const U1: u128 = 0x0000_0000_0000_4000_8000_0000_0000_0001;
const U2: u128 = 0x6ba7_b810_9dad_11d1_80b4_00c0_4fd4_30c8;
const A: RemoteAddr = RemoteAddr::V4(0xC0A8_0001);
const B: RemoteAddr = RemoteAddr::V6(0x2001_0db8_0000_0000_0000_0000_0000_0001);

fn submission(device_identity: u128, error_code: i32) -> Submission {
    Submission {
        device_identity,
        boot_code: 3,
        battery_voltage: 4100,
        error_code,
        return_code: None,
        bytes_written: None,
    }
}

fn refs(first: &str, second: Option<&str>) -> ItemRefs {
    ItemRefs { first: Some(first.to_string()), second: second.map(|s| s.to_string()) }
}

fn portrait(id: &str) -> MediaItem {
    MediaItem {
        id: id.to_string(),
        product_url: String::new(),
        last_shown: 0,
        orientation: Orientation::Portrait,
        pixels: Vec::new(),
    }
}

#[test]
fn resubmission_with_the_same_identity_merges_into_one_record() {
    let mut log = TelemetryLog::new();
    log.upsert(10, &submission(U1, 0), refs("x", None), A);
    log.upsert(20, &submission(U1, 2), refs("y", Some("z")), B);
    assert_eq!(log.len(), 1);
    let record = log.get(0).unwrap();
    assert_eq!(record.remote_addrs, vec![A, B]);
    assert_eq!(record.error_code, 2);
    assert_eq!(record.device_identity, U1);
}

#[test]
fn merge_overwrites_the_status_and_keeps_the_rest() {
    let mut log = TelemetryLog::new();
    let first = Submission {
        device_identity: U1,
        boot_code: 1,
        battery_voltage: 3900,
        error_code: 7,
        return_code: Some(200),
        bytes_written: Some(134400),
    };
    let second = Submission {
        device_identity: U1,
        boot_code: 9,
        battery_voltage: 3100,
        error_code: 0,
        return_code: None,
        bytes_written: Some(12),
    };
    log.upsert(10, &first, refs("x", Some("y")), A);
    log.upsert(20, &second, refs("other", None), B);
    assert_eq!(log.len(), 1);
    assert_eq!(
        log.get(0),
        Some(&TelemetryRecord {
            ts: 10,
            device_identity: U1,
            item_refs: refs("x", Some("y")),
            boot_code: 1,
            battery_voltage: 3900,
            error_code: 0,
            return_code: None,
            bytes_written: Some(12),
            remote_addrs: vec![A, B],
        })
    );
}

#[test]
fn first_submission_creates_the_record_as_sent() {
    let mut log = TelemetryLog::new();
    let sent = Submission {
        device_identity: U2,
        boot_code: 5,
        battery_voltage: 4012,
        error_code: -1,
        return_code: Some(-3),
        bytes_written: Some(0),
    };
    log.upsert(1700000000, &sent, ItemRefs::none(), B);
    assert_eq!(
        log.get(0),
        Some(&TelemetryRecord {
            ts: 1700000000,
            device_identity: U2,
            item_refs: ItemRefs { first: None, second: None },
            boot_code: 5,
            battery_voltage: 4012,
            error_code: -1,
            return_code: Some(-3),
            bytes_written: Some(0),
            remote_addrs: vec![B],
        })
    );
    assert_eq!(log.get(1), None);
}

#[test]
fn different_identities_get_records_of_their_own() {
    let mut log = TelemetryLog::new();
    log.upsert(10, &submission(U1, 0), refs("x", None), A);
    log.upsert(11, &submission(U2, 1), refs("y", None), A);
    log.upsert(12, &submission(U1, 5), refs("z", None), A);
    assert_eq!(log.len(), 2);
    assert_eq!(log.find(U1), Some(0));
    assert_eq!(log.find(U2), Some(1));
    assert_eq!(log.find(77), None);
    assert_eq!(log.get(0).unwrap().error_code, 5);
    assert_eq!(log.get(0).unwrap().remote_addrs, vec![A, A]);
    assert_eq!(log.get(1).unwrap().error_code, 1);
    assert_eq!(log.get(1).unwrap().remote_addrs, vec![A]);
    assert_eq!(log.get(1).unwrap().item_refs, refs("y", None));
}

#[test]
fn addresses_only_grow_over_many_retries() {
    let mut log = TelemetryLog::new();
    let mut expected = Vec::new();
    for attempt in 0..10u32 {
        let from = RemoteAddr::V4(attempt);
        expected.push(from);
        log.upsert(attempt as i64, &submission(U1, attempt as i32), refs("x", None), from);
        assert_eq!(log.len(), 1);
        assert_eq!(log.get(0).unwrap().remote_addrs, expected);
        assert_eq!(log.get(0).unwrap().error_code, attempt as i32);
        assert_eq!(log.get(0).unwrap().ts, 0);
    }
}

#[test]
fn record_level_create_and_merge_agree_with_the_log() {
    let mut record = TelemetryRecord::create(10, &submission(U1, 0), refs("x", None), A);
    record.merge(&submission(U1, 2), B);
    let mut log = TelemetryLog::new();
    log.upsert(10, &submission(U1, 0), refs("x", None), A);
    log.upsert(20, &submission(U1, 2), refs("y", None), B);
    assert_eq!(log.get(0), Some(&record));
}

#[test]
fn item_refs_of_a_single_selection_name_it_alone() {
    let selection = Selection::single(portrait("p"));
    assert_eq!(ItemRefs::of(&selection), refs("p", None));
}

#[test]
fn item_refs_of_a_pair_name_the_primary_first() {
    let primary_first = Selection::pair(portrait("p"), portrait("q"), true).unwrap();
    let primary_second = Selection::pair(portrait("p"), portrait("q"), false).unwrap();
    assert_eq!(ItemRefs::of(&primary_first), refs("p", Some("q")));
    assert_eq!(ItemRefs::of(&primary_second), refs("q", Some("p")));
}

#[test]
fn clone_of_item_refs_is_equal_to_them() {
    let both = refs("p", Some("q"));
    assert_eq!(both.clone(), both);
    assert_eq!(ItemRefs::none().clone(), ItemRefs::none());
}
