use snowflake::clock::{millis_to_i64, time_gen};
use snowflake::id_worker::{
    compose_id, IDWork, IdError, Issue, MAX_NEXT_IDS_NUM, SEQUENCE_MAX, TW_EPOCH,
};

fn timestamp_of(id: i64) -> i64 {
    id >> 31
}

fn datacenter_of(id: i64) -> i64 {
    (id >> 26) & 31
}

fn worker_of(id: i64) -> i64 {
    (id >> 21) & 31
}

fn sequence_of(id: i64) -> i64 {
    id & SEQUENCE_MAX
}

fn issued(r: Issue) -> i64 {
    match r {
        Issue::Issued(id) => id,
        other => panic!("no identifier: {:?}", other),
    }
}

#[test]
fn lib_it_works() {
    assert_eq!(2 + 2, 4);
}

#[test]
fn it_works() {
    let mut work = IDWork::new(1, 1, 1288834974657);
    let mut res: Vec<i64> = Vec::new();
    for _ in 0..10 {
        for _ in 0..100 {
            if let Ok(id) = work.next_id() {
                res.push(id);
            }
        }
    }
    res.sort();
    res.dedup();
    assert_eq!(res.len(), 1000);
}

#[test]
fn generate() {
    let mut work = IDWork::new(1, 1, 1288834974657);
    let mut res = Vec::new();
    for _ in 0..1000 {
        res.push(work.next_id().unwrap());
    }
    assert_eq!(res.len(), 1000);
}

#[test]
fn generated_ids_are_unique_and_increasing() {
    let now = 1_700_000_000_000i64;
    let mut work = IDWork::new(3, 4, now);
    let mut res = Vec::new();
    for _ in 0..1000 {
        res.push(work.next_id().unwrap());
    }
    for pair in res.windows(2) {
        assert!(pair[0] < pair[1]);
        let (a, b) = (pair[0], pair[1]);
        assert!(
            timestamp_of(a) < timestamp_of(b)
                || (timestamp_of(a) == timestamp_of(b) && sequence_of(a) < sequence_of(b))
        );
    }
    let mut sorted = res.clone();
    sorted.dedup();
    assert_eq!(sorted.len(), 1000);
}

#[test]
fn same_millisecond_ids_differ_in_sequence_only() {
    let mut work = IDWork::new(1, 1, 1288834974657);
    let t = 1288834974657 + 5_000;
    let a = issued(work.next_id_at(t));
    let b = issued(work.next_id_at(t));
    assert_eq!(sequence_of(b) - sequence_of(a), 1);
    assert_eq!(a >> 21, b >> 21);
    assert_eq!(a, (5_000i64 << 31) | (1 << 26) | (1 << 21));
    assert_eq!(b, a + 1);
}

#[test]
fn same_millisecond_with_wall_clock() {
    let mut work = IDWork::new(1, 1, TW_EPOCH);
    let a = work.next_id().unwrap();
    let b = work.next_id().unwrap();
    if sequence_of(b) != 0 {
        assert_eq!(sequence_of(b) - sequence_of(a), 1);
        assert_eq!(a >> 21, b >> 21);
    }
    assert_eq!(datacenter_of(a), 1);
    assert_eq!(worker_of(b), 1);
}

#[test]
fn new_millisecond_resets_sequence() {
    let mut work = IDWork::new(2, 7, 1000);
    issued(work.next_id_at(1500));
    issued(work.next_id_at(1500));
    assert_eq!(work.sequence(), 1);
    let id = issued(work.next_id_at(1501));
    assert_eq!(work.sequence(), 0);
    assert_eq!(work.last_timestamp(), 1501);
    assert_eq!(id, (501i64 << 31) | (7 << 26) | (2 << 21));
}

#[test]
fn backward_clock_is_refused_without_change() {
    let mut work = IDWork::new(1, 1, 1288834974657);
    let ahead = 1288834974657 + 10_000;
    issued(work.next_id_at(ahead));
    issued(work.next_id_at(ahead));
    assert_eq!(work.next_id_at(ahead - 1), Issue::ClockMovedBackward);
    assert_eq!(work.last_timestamp(), ahead);
    assert_eq!(work.sequence(), 1);
}

#[test]
fn backward_wall_clock_is_reported() {
    let mut work = IDWork::new(1, 1, TW_EPOCH);
    let far_ahead = i64::MAX - 1;
    issued(work.next_id_at(far_ahead));
    assert_eq!(work.next_id(), Err(IdError::ClockMovedBackward));
    assert_eq!(work.last_timestamp(), far_ahead);
    assert_eq!(work.sequence(), 0);
}

#[test]
fn sequence_rollover_waits_for_next_millisecond() {
    let mut work = IDWork::new(0, 0, 0);
    let t = 42;
    for k in 0..=SEQUENCE_MAX {
        let id = issued(work.next_id_at(t));
        assert_eq!(sequence_of(id), k);
    }
    assert_eq!(work.sequence(), SEQUENCE_MAX);
    assert_eq!(work.next_id_at(t), Issue::WaitForNextMillis);
    assert_eq!(work.next_id_at(t), Issue::WaitForNextMillis);
    assert_eq!(work.sequence(), SEQUENCE_MAX);
    assert_eq!(work.last_timestamp(), t);
    let id = issued(work.next_id_at(t + 1));
    assert_eq!(work.sequence(), 0);
    assert_eq!(work.last_timestamp(), t + 1);
    assert_eq!(sequence_of(id), 0);
    assert_eq!(timestamp_of(id), 43);
}

#[test]
fn batch_of_five_increases() {
    let mut work = IDWork::new(1, 1, 1_700_000_000_000);
    let ids = work.next_ids(5).unwrap();
    assert_eq!(ids.len(), 5);
    for pair in ids.windows(2) {
        assert!(pair[0] < pair[1]);
    }
}

#[test]
fn batch_of_largest_size() {
    let mut work = IDWork::new(1, 1, 1_700_000_000_000);
    let ids = work.next_ids(MAX_NEXT_IDS_NUM).unwrap();
    assert_eq!(ids.len(), 100);
}

#[test]
fn fields_decode_to_inputs() {
    let epoch = 1288834974657;
    let id = compose_id(epoch + 123_456, epoch, 17, 9, 2_000_000);
    assert!(id >= 0);
    assert_eq!(timestamp_of(id), 123_456);
    assert_eq!(datacenter_of(id), 17);
    assert_eq!(worker_of(id), 9);
    assert_eq!(sequence_of(id), 2_000_000);
    let top = compose_id(epoch + 0xffff_ffff, epoch, 31, 31, SEQUENCE_MAX);
    assert_eq!(top, i64::MAX);
    assert_eq!(compose_id(epoch, epoch, 0, 0, 0), 0);
}

#[test]
fn timestamp_field_keeps_low_bits_of_distance() {
    assert_eq!(compose_id(1i64 << 32, 0, 0, 0, 0), i64::MIN);
    assert_eq!(compose_id(1i64 << 33, 0, 0, 0, 0), 0);
    assert_eq!(compose_id((1i64 << 33) + 5, 0, 0, 0, 0), 5i64 << 31);
}

#[test]
fn later_reading_is_adopted_only_past_last() {
    assert_eq!(IDWork::adopt_later(10, Some(11)), Some(11));
    assert_eq!(IDWork::adopt_later(10, Some(10)), None);
    assert_eq!(IDWork::adopt_later(10, Some(3)), None);
    assert_eq!(IDWork::adopt_later(10, None), None);
}

#[test]
fn clock_millis_fit_in_i64() {
    assert_eq!(millis_to_i64(1_700_000_000_123), Some(1_700_000_000_123));
    assert_eq!(millis_to_i64(i64::MAX as u128), Some(i64::MAX));
    assert_eq!(millis_to_i64(i64::MAX as u128 + 1), None);
    assert!(time_gen().unwrap() > TW_EPOCH);
}
