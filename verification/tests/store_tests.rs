use file_agent::store::{
    get_at, get_if_not_expired, insert_with_ttl, now_ts, put_at, sweep_at, sweep_expired, Store,
    DEFAULT_RECORD_TTL_SECS, SWEEP_INTERVAL_SECS,
};
use file_agent::task::SftpTask;

fn temp_db() -> sled::Db {
    sled::Config::new().temporary(true).open().expect("temporary database")
}

fn task(seq_no: &str, status: &str) -> SftpTask {
    SftpTask {
        seq_no: seq_no.to_string(),
        remote_path: "/remote/a".to_string(),
        local_path: "/local/a".to_string(),
        task_type: "UPLOAD".to_string(),
        task_status: status.to_string(),
        detail_log: String::new(),
    }
}

#[test]
fn put_then_get_round_trips() {
    let mut store = Store::new(temp_db());
    let job = task("rt-1", "SUCCESS");
    put_at(&mut store, "rt-1", &job, 60, 1_000).expect("put must succeed");
    let got = get_at(&mut store, "rt-1", 1_000).expect("a live record must be returned");
    assert_eq!(got, job);
}

#[test]
fn get_of_missing_key_is_none() {
    let mut store = Store::new(temp_db());
    assert!(get_at(&mut store, "absent", 0).is_none());
}

#[test]
fn put_overwrites_prior_record() {
    let mut store = Store::new(temp_db());
    put_at(&mut store, "k", &task("k", "FAILED"), 60, 1_000).unwrap();
    put_at(&mut store, "k", &task("k", "SUCCESS"), 60, 1_000).unwrap();
    let got = get_at(&mut store, "k", 1_001).unwrap();
    assert_eq!(got.task_status, "SUCCESS");
}

#[test]
fn expired_record_reads_as_absent_and_key_is_dropped() {
    let db = temp_db();
    let mut store = Store::new(db.clone());
    put_at(&mut store, "exp", &task("exp", "SUCCESS"), 10, 1_000).unwrap();
    // At expiry (now == expires_at) the record is gone.
    assert!(get_at(&mut store, "exp", 1_010).is_none());
    // The key itself was removed from the backing tree.
    assert!(db.get("exp").unwrap().is_none());
}

#[test]
fn expiry_with_real_clock() {
    let db = temp_db();
    let mut store = Store::new(db.clone());
    let job = task("clock", "SUCCESS");
    insert_with_ttl(&mut store, "clock", &job, 1).expect("put must succeed");
    let got = get_if_not_expired(&mut store, "clock");
    assert_eq!(got, Some(job));
    // Wait until the one-second TTL has surely passed.
    let start = now_ts();
    loop {
        if now_ts() > start + 1 {
            break;
        }
    }
    assert!(get_if_not_expired(&mut store, "clock").is_none());
    assert!(db.get("clock").unwrap().is_none());
}

#[test]
fn sweep_leaves_exactly_the_future_records() {
    let db = temp_db();
    let mut store = Store::new(db.clone());
    let now: u64 = 10_000;
    for i in 0..10 {
        let key = format!("past-{}", i);
        // Expired: written at time 0 with a TTL that ends before `now`.
        put_at(&mut store, &key, &task(&key, "SUCCESS"), 100, 0).unwrap();
    }
    for i in 0..10 {
        let key = format!("future-{}", i);
        put_at(&mut store, &key, &task(&key, "SUCCESS"), 100_000, 0).unwrap();
    }
    sweep_at(&mut store, now).expect("sweep must succeed");
    for i in 0..10 {
        let key = format!("past-{}", i);
        assert!(get_at(&mut store, &key, now).is_none());
        assert!(db.get(&key).unwrap().is_none());
    }
    for i in 0..10 {
        let key = format!("future-{}", i);
        let got = get_at(&mut store, &key, now).expect("future records survive the sweep");
        assert_eq!(got.seq_no, key);
    }
}

#[test]
fn sweep_skips_what_it_cannot_decode() {
    let db = temp_db();
    let mut store = Store::new(db.clone());
    db.insert("corrupt", &b"not an envelope"[..]).unwrap();
    put_at(&mut store, "old", &task("old", "SUCCESS"), 1, 0).unwrap();
    sweep_at(&mut store, 1_000).expect("one corrupt record must not abort the sweep");
    // The expired record is gone, the unreadable one still sits in the tree.
    assert!(db.get("old").unwrap().is_none());
    assert!(db.get("corrupt").unwrap().is_some());
    // And a read of the unreadable record is simply absent.
    assert!(get_at(&mut store, "corrupt", 1_000).is_none());
}

#[test]
fn sweep_with_real_clock() {
    let db = temp_db();
    let mut store = Store::new(db.clone());
    put_at(&mut store, "past", &task("past", "SUCCESS"), 1, 0).unwrap();
    insert_with_ttl(&mut store, "future", &task("future", "SUCCESS"), DEFAULT_RECORD_TTL_SECS)
        .unwrap();
    sweep_expired(&mut store).expect("sweep must succeed");
    assert!(db.get("past").unwrap().is_none());
    assert!(db.get("future").unwrap().is_some());
}

#[test]
fn record_ttl_and_sweep_interval_constants() {
    assert_eq!(DEFAULT_RECORD_TTL_SECS, 7 * 24 * 60 * 60);
    assert_eq!(SWEEP_INTERVAL_SECS, 12 * 60 * 60);
}

#[test]
fn clock_reads_a_plausible_time() {
    // Seconds since the epoch: past 2020 on any machine with a set clock.
    assert!(now_ts() > 1_577_836_800);
}
