use snowflake::id_worker::{Issue, TW_EPOCH};
use snowflake::registry::{RegistryError, Workers, SLOT_COUNT};

#[test]
fn split_then_compose_gives_address() {
    for x in 0..SLOT_COUNT {
        let (dc, wk) = Workers::split_id(x);
        assert!((0..32).contains(&dc));
        assert!((0..32).contains(&wk));
        assert_eq!(dc * 32 + wk, x);
    }
    assert_eq!(Workers::split_id(33), (1, 1));
    assert_eq!(Workers::split_id(1023), (31, 31));
}

#[test]
fn lookup_outside_space_is_not_registered() {
    let works = Workers::new(0);
    assert!(works.get_ref(&0).is_ok());
    assert!(works.get_ref(&1023).is_ok());
    assert!(matches!(works.get_ref(&1024), Err(RegistryError::NotRegistered)));
    assert!(matches!(works.get_ref(&-1), Err(RegistryError::NotRegistered)));
    assert!(matches!(works.get(&5000), Err(RegistryError::NotRegistered)));
}

#[test]
fn slot_holds_worker_of_its_address() {
    let works = Workers::new(0);
    let (mut work, handle) = works.get(&33).ok().unwrap();
    let t = TW_EPOCH + 77;
    let id = match work.next_id_at(t) {
        Issue::Issued(id) => id,
        other => panic!("no identifier: {:?}", other),
    };
    handle.release_write(work);
    assert_eq!(id, (77i64 << 31) | (1 << 26) | (1 << 21));
}

#[test]
fn default_epoch_and_given_epoch() {
    let works = Workers::new(5_000);
    let (mut work, handle) = works.get(&(31 * 32)).ok().unwrap();
    let id = match work.next_id_at(5_010) {
        Issue::Issued(id) => id,
        other => panic!("no identifier: {:?}", other),
    };
    handle.release_write(work);
    assert_eq!(id, (10i64 << 31) | (31 << 26));
}

#[test]
fn distinct_addresses_never_collide() {
    let works = Workers::new(0);
    let mut all = Vec::new();
    for address in [0i64, 1, 32, 33, 1023] {
        for _ in 0..3 {
            let (mut work, handle) = works.get(&address).ok().unwrap();
            let ids = work.next_ids(50);
            handle.release_write(work);
            all.extend(ids.unwrap());
        }
    }
    let n = all.len();
    all.sort();
    all.dedup();
    assert_eq!(all.len(), n);
}

#[test]
fn default_registry_uses_reference_epoch() {
    let works = Workers::default();
    let (mut work, handle) = works.get(&0).ok().unwrap();
    let id = match work.next_id_at(TW_EPOCH + 3) {
        Issue::Issued(id) => id,
        other => panic!("no identifier: {:?}", other),
    };
    handle.release_write(work);
    assert_eq!(id, 3i64 << 31);
}
