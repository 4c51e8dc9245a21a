use nicks_migration::checker::CheckError;
use nicks_migration::gate::{decide, Decision};
use nicks_migration::record::{AccountStatus, NickName, Nickname, OldNickname, Record};
use nicks_migration::runner::{migrate_to_v2, MigrateToV1, MigrateToV2};
use nicks_migration::store::Store;
use nicks_migration::translate::{translate_all, Step};

fn schema0_store() -> Store {
    let mut store = Store::new(64);
    store.insert(1, Record::Raw(b"alice smith".to_vec()), 10);
    store.insert(2, Record::Raw(b"bob".to_vec()), 5);
    store.insert(3, Record::Raw(b"carol ann lee".to_vec()), 7);
    store
}

fn schema1_store() -> Store {
    let mut store = Store::new(64);
    store.insert(
        1,
        Record::Named(NickName { first: b"alice".to_vec(), last: Some(b"smith".to_vec()) }),
        10,
    );
    store.insert(2, Record::Named(NickName { first: b"bob".to_vec(), last: None }), 5);
    store
}

#[test]
fn decide_runs_only_one_step_behind() {
    assert_eq!(decide(0, 1), Decision::Run);
    assert_eq!(decide(1, 2), Decision::Run);
    assert_eq!(decide(41, 42), Decision::Run);
}

#[test]
fn decide_skips_when_current_or_beyond() {
    assert_eq!(decide(1, 1), Decision::Skip);
    assert_eq!(decide(2, 1), Decision::Skip);
    assert_eq!(decide(2, 2), Decision::Skip);
    assert_eq!(decide(7, 0), Decision::Skip);
}

#[test]
fn decide_rejects_skipped_versions() {
    assert_eq!(decide(0, 2), Decision::Invalid);
    assert_eq!(decide(0, 3), Decision::Invalid);
    assert_eq!(decide(3, 9), Decision::Invalid);
}

#[test]
fn split_on_last_space() {
    let mut store = Store::new(64);
    store.insert(1, Record::Raw(b"alice b smith".to_vec()), 1);
    let report = MigrateToV1::on_runtime_upgrade(&mut store, 0, 1);
    assert_eq!(report.decision, Decision::Run);
    let entry = store.get(1).expect("entry kept");
    match &entry.record {
        Record::Named(n) => {
            assert_eq!(n.first, b"alice b".to_vec());
            assert_eq!(n.last, Some(b"smith".to_vec()));
        }
        _ => panic!("record should be split"),
    }
}

#[test]
fn split_without_space_keeps_whole_name() {
    let mut store = Store::new(64);
    store.insert(1, Record::Raw(b"alice".to_vec()), 1);
    MigrateToV1::on_runtime_upgrade(&mut store, 0, 1);
    let entry = store.get(1).expect("entry kept");
    match &entry.record {
        Record::Named(n) => {
            assert_eq!(n.first, b"alice".to_vec());
            assert_eq!(n.last, None);
        }
        _ => panic!("record should be split"),
    }
}

#[test]
fn split_edge_cases() {
    let mut store = Store::new(64);
    store.insert(1, Record::Raw(Vec::new()), 1);
    store.insert(2, Record::Raw(b" ".to_vec()), 1);
    store.insert(3, Record::Raw(b"bob ".to_vec()), 1);
    MigrateToV1::on_runtime_upgrade(&mut store, 0, 1);
    match &store.get(1).unwrap().record {
        Record::Named(n) => {
            assert_eq!(n.first, Vec::<u8>::new());
            assert_eq!(n.last, None);
        }
        _ => panic!("record should be split"),
    }
    match &store.get(2).unwrap().record {
        Record::Named(n) => {
            assert_eq!(n.first, Vec::<u8>::new());
            assert_eq!(n.last, Some(Vec::new()));
        }
        _ => panic!("record should be split"),
    }
    match &store.get(3).unwrap().record {
        Record::Named(n) => {
            assert_eq!(n.first, b"bob".to_vec());
            assert_eq!(n.last, Some(Vec::new()));
        }
        _ => panic!("record should be split"),
    }
}

#[test]
fn three_records_scenario() {
    let mut store = schema0_store();
    assert_eq!(store.count(), 3);
    let report = MigrateToV1::on_runtime_upgrade(&mut store, 0, 1);
    assert_eq!(report.decision, Decision::Run);
    assert_eq!(report.version, 1);
    assert_eq!(report.migrated, 3);
    assert_eq!(report.dropped, 0);
    assert_eq!(report.reads, 4);
    assert_eq!(report.writes, 4);
    assert_eq!(store.count(), 3);
    let a = store.get(1).unwrap();
    assert_eq!(a.deposit, 10);
    match &a.record {
        Record::Named(n) => {
            assert_eq!(n.first, b"alice".to_vec());
            assert_eq!(n.last, Some(b"smith".to_vec()));
        }
        _ => panic!("record should be split"),
    }
    let b = store.get(2).unwrap();
    assert_eq!(b.deposit, 5);
    match &b.record {
        Record::Named(n) => {
            assert_eq!(n.first, b"bob".to_vec());
            assert_eq!(n.last, None);
        }
        _ => panic!("record should be split"),
    }
    let c = store.get(3).unwrap();
    assert_eq!(c.deposit, 7);
    match &c.record {
        Record::Named(n) => {
            assert_eq!(n.first, b"carol ann".to_vec());
            assert_eq!(n.last, Some(b"lee".to_vec()));
        }
        _ => panic!("record should be split"),
    }
}

#[test]
fn runner_is_idempotent() {
    let mut store = schema0_store();
    let first = MigrateToV1::on_runtime_upgrade(&mut store, 0, 1);
    assert_eq!(first.decision, Decision::Run);
    assert_eq!(first.version, 1);
    let second = MigrateToV1::on_runtime_upgrade(&mut store, first.version, 1);
    assert_eq!(second.decision, Decision::Skip);
    assert_eq!(second.version, 1);
    assert_eq!(second.reads, 1);
    assert_eq!(second.writes, 0);
    assert_eq!(second.migrated, 0);
    assert_eq!(store.count(), 3);
    match &store.get(1).unwrap().record {
        Record::Named(n) => assert_eq!(n.first, b"alice".to_vec()),
        _ => panic!("second run must not touch records"),
    }
}

#[test]
fn count_is_preserved_on_decodable_store() {
    let mut store = schema0_store();
    let before = store.count();
    MigrateToV1::on_runtime_upgrade(&mut store, 0, 1);
    assert_eq!(store.count(), before);

    let mut store = schema1_store();
    let before = store.count();
    migrate_to_v2(&mut store, 1, 2);
    assert_eq!(store.count(), before);
}

#[test]
fn status_defaults_to_active() {
    let mut store = schema1_store();
    let checkpoint = MigrateToV2::pre_upgrade(&store, 1, 2).expect("pre-flight should pass");
    assert_eq!(checkpoint, 2);
    let report = migrate_to_v2(&mut store, 1, 2);
    assert_eq!(report.decision, Decision::Run);
    for key in [1u64, 2u64] {
        match &store.get(key).unwrap().record {
            Record::Current(n) => assert_eq!(n.third, AccountStatus::Active),
            _ => panic!("record should be current"),
        }
    }
    MigrateToV2::post_upgrade(&store, checkpoint, report.version, 2)
        .expect("post-flight should pass");
}

#[test]
fn version_reaches_target_and_stays() {
    let mut store = schema1_store();
    let report = MigrateToV2::on_runtime_upgrade(&mut store, 1, 2);
    assert_eq!(report.version, 2);
    let again = MigrateToV2::on_runtime_upgrade(&mut store, report.version, 2);
    assert_eq!(again.version, 2);
    assert_eq!(again.decision, Decision::Skip);
}

#[test]
fn out_of_order_run_is_reported_invalid() {
    let mut store = schema0_store();
    let report = migrate_to_v2(&mut store, 0, 2);
    assert_eq!(report.decision, Decision::Invalid);
    assert_eq!(report.version, 0);
    assert_eq!(report.reads, 1);
    assert_eq!(report.writes, 0);
    match &store.get(1).unwrap().record {
        Record::Raw(name) => assert_eq!(name, &b"alice smith".to_vec()),
        _ => panic!("invalid run must not touch records"),
    }
}

#[test]
fn undecodable_entries_are_dropped_and_counted() {
    let mut store = schema1_store();
    store.insert(9, Record::Raw(b"still raw".to_vec()), 3);
    let (migrated, dropped) = translate_all(Step::ToV2, &mut store);
    assert_eq!(migrated, 2);
    assert_eq!(dropped, 1);
    assert_eq!(store.count(), 2);
    assert!(store.get(9).is_none());
}

#[test]
fn old_nickname_upgrade_keeps_segments() {
    let old = OldNickname { first: b"carol".to_vec(), last: Some(b"lee".to_vec()) };
    let new: Nickname = old.migrate_to_v2();
    assert_eq!(new.first, b"carol".to_vec());
    assert_eq!(new.last, Some(b"lee".to_vec()));
    assert_eq!(new.third, AccountStatus::Active);
}

#[test]
fn pre_upgrade_rejects_wrong_versions() {
    let store = schema1_store();
    assert_eq!(MigrateToV2::pre_upgrade(&store, 0, 2), Err(CheckError::VersionMismatch));
    assert_eq!(MigrateToV2::pre_upgrade(&store, 2, 2), Err(CheckError::VersionMismatch));
    assert_eq!(MigrateToV2::pre_upgrade(&store, 1, 3), Err(CheckError::VersionMismatch));
    let raw = schema0_store();
    assert_eq!(MigrateToV1::pre_upgrade(&raw, 1, 1), Err(CheckError::VersionMismatch));
}

#[test]
fn pre_upgrade_rejects_undecodable_values() {
    let mut store = schema1_store();
    store.insert(9, Record::Raw(b"still raw".to_vec()), 3);
    assert_eq!(MigrateToV2::pre_upgrade(&store, 1, 2), Err(CheckError::Undecodable));
    let raw = schema0_store();
    assert_eq!(MigrateToV1::pre_upgrade(&raw, 0, 1), Ok(3));
}

#[test]
fn post_upgrade_reports_which_invariant_broke() {
    let mut store = schema1_store();
    let checkpoint = MigrateToV2::pre_upgrade(&store, 1, 2).unwrap();
    migrate_to_v2(&mut store, 1, 2);
    assert_eq!(
        MigrateToV2::post_upgrade(&store, checkpoint + 1, 2, 2),
        Err(CheckError::CountMismatch)
    );
    assert_eq!(
        MigrateToV2::post_upgrade(&store, checkpoint, 1, 2),
        Err(CheckError::VersionMismatch)
    );
    assert_eq!(MigrateToV2::post_upgrade(&store, checkpoint, 2, 2), Ok(()));
}

#[test]
fn post_upgrade_rejects_foreign_status() {
    let mut store = Store::new(64);
    store.insert(
        1,
        Record::Current(Nickname {
            first: b"mallory".to_vec(),
            last: None,
            third: AccountStatus::Inactive,
        }),
        2,
    );
    assert_eq!(MigrateToV2::post_upgrade(&store, 1, 2, 2), Err(CheckError::StatusViolation));
}

#[test]
fn post_upgrade_after_first_step_expects_split_records() {
    let mut store = schema0_store();
    let checkpoint = MigrateToV1::pre_upgrade(&store, 0, 1).unwrap();
    let report = MigrateToV1::on_runtime_upgrade(&mut store, 0, 1);
    assert_eq!(MigrateToV1::post_upgrade(&store, checkpoint, report.version, 1), Ok(()));
    let raw = schema0_store();
    assert_eq!(MigrateToV1::post_upgrade(&raw, 3, 1, 1), Err(CheckError::StatusViolation));
}

#[test]
fn empty_store_migrates_with_minimal_cost() {
    let mut store = Store::new(64);
    let report = MigrateToV1::on_runtime_upgrade(&mut store, 0, 1);
    assert_eq!(report.decision, Decision::Run);
    assert_eq!(report.migrated, 0);
    assert_eq!(report.reads, 1);
    assert_eq!(report.writes, 1);
    assert_eq!(store.count(), 0);
}

#[test]
fn store_lookup_and_count() {
    let mut store = Store::new(64);
    assert_eq!(store.count(), 0);
    assert!(store.get(1).is_none());
    store.insert(1, Record::Raw(b"dave".to_vec()), 9);
    assert_eq!(store.count(), 1);
    let entry = store.get(1).unwrap();
    assert_eq!(entry.key, 1);
    assert_eq!(entry.deposit, 9);
}
