use cfd_daemon::chain::{Address, Descriptor, Signature};
use cfd_daemon::model::{
    AdaptorSignature, Amount, BitMexPriceEventId, Cet, Cets, CfdEvent, Commit, Dlc, EventKind,
    FundingFee, FundingRate, Lock, PriceRange, PublicKey, Refund, RevokedCommit, Script,
    Transaction, Txid,
};
use cfd_daemon::models::{OrderId, SecretKey};
use cfd_daemon::rollover::insert::{cet_row, event_data_row, insert, revoked_commit_row};
use cfd_daemon::rollover::load::{cet_from_row, load};
use cfd_daemon::rollover::store::Store;
use cfd_daemon::rollover::{
    amount_from_sql, amount_to_sql, check_rows_affected, timelock_from_sql, u64_from_sql,
    u64_to_sql, Error, Table,
};

use std::time::{Duration, SystemTime};

const KEY_1: &str = "0000000000000000000000000000000000000000000000000000000000000001";
const KEY_2: &str = "0000000000000000000000000000000000000000000000000000000000000002";
const KEY_3: &str = "57f0148f94d13095cfda539d0da0d1541304b678d8b36e243980aab4e1b7cead";
const PK_1: &str = "0279be667ef9dcbbac55a06295ce870b07029bfcdb2dce28d959f2815b16f81798";
const PK_2: &str = "02c6047f9441ed7d6d3045406e95c07cd85c778e4b8cef3ca7abac09b95c709ee5";

fn order_id() -> OrderId {
    OrderId(0x936da01f9abd4d9d80c702af85c822a8)
}

fn other_order_id() -> OrderId {
    OrderId(0xa1a2a3a4b1b2c1c2d1d2d3d4d5d6d7d8)
}

fn event(n: i64) -> BitMexPriceEventId {
    BitMexPriceEventId {
        timestamp: 1_633_399_200 + n * 3600,
        digits: 20,
    }
}

fn cet(n: u8, maker_sat: u64) -> Cet {
    Cet {
        adaptor_sig: AdaptorSignature {
            bytes: vec![n, 0xaa, 0xbb],
        },
        maker_amount: Amount::from_sat(maker_sat),
        taker_amount: Amount::from_sat(100_000 - (maker_sat % 100_000)),
        n_bits: 20,
        range: PriceRange {
            start: (n as u64) * 1000,
            end: (n as u64) * 1000 + 999,
        },
        txid: Txid {
            bytes: vec![n; 32],
        },
    }
}

fn revoked(n: u8) -> RevokedCommit {
    RevokedCommit {
        encsig_ours: AdaptorSignature {
            bytes: vec![n, 1, 2, 3],
        },
        publication_pk_theirs: PublicKey {
            bytes: vec![2, n, n, n],
        },
        revocation_sk_theirs: SecretKey::from_str(KEY_3).unwrap(),
        script_pubkey: Script {
            bytes: vec![0x00, 0x14, n, 0xff, 0xab],
        },
        txid: Txid {
            bytes: vec![n; 32],
        },
    }
}

fn dlc_with(cets: Cets, revoked_commit: Vec<RevokedCommit>) -> Dlc {
    Dlc {
        identity: SecretKey::from_str(KEY_1).unwrap(),
        identity_counterparty: PublicKey {
            bytes: vec![2, 1, 1, 1],
        },
        revocation: SecretKey::from_str(KEY_2).unwrap(),
        revocation_pk_counterparty: PublicKey {
            bytes: vec![3, 2, 2, 2],
        },
        publish: SecretKey::from_str(KEY_3).unwrap(),
        publish_pk_counterparty: PublicKey {
            bytes: vec![2, 3, 3, 3],
        },
        maker_address: Address::parse("bc1qw508d6qejxtdg4y5r3zarvary0c5xw7kv8f3t4").unwrap(),
        taker_address: Address::parse("1A1zP1eP5QGefi2DMPTfTL5SLmv7DivfNa").unwrap(),
        lock: Lock {
            tx: Transaction {
                bytes: vec![1, 0, 0, 0, 1],
            },
            descriptor: Descriptor::parse(&format!("wsh(multi(2,{PK_1},{PK_2}))")).unwrap(),
        },
        commit: Commit {
            tx: Transaction {
                bytes: vec![2, 0, 0, 0, 2],
            },
            adaptor_signature: AdaptorSignature {
                bytes: vec![9, 9, 9],
            },
            descriptor: Descriptor::parse(&format!("wpkh({PK_1})")).unwrap(),
        },
        refund: Refund {
            tx: Transaction {
                bytes: vec![3, 0, 0, 0, 3],
            },
            signature: Signature::parse("300602010a02010b").unwrap(),
        },
        cets,
        maker_lock_amount: Amount::from_sat(150_000),
        taker_lock_amount: Amount::from_sat(50_000),
        revoked_commit,
        settlement_event_id: event(24),
        refund_timelock: 4032,
    }
}

fn sample_cets() -> Cets {
    let mut cets = Cets::new();
    cets.push(event(1), cet(1, 10_000));
    cets.push(event(2), cet(2, 20_000));
    cets.push(event(1), cet(3, 30_000));
    cets.push(event(2), cet(4, 40_000));
    cets.push(event(3), cet(5, 50_000));
    cets
}

fn sample_dlc() -> Dlc {
    dlc_with(sample_cets(), vec![revoked(1), revoked(2)])
}

fn funding_fee() -> FundingFee {
    FundingFee {
        fee: Amount::from_sat(8),
        rate: FundingRate { value: 5 },
    }
}

fn rollover_completed(id: OrderId, dlc: Option<Dlc>) -> CfdEvent {
    CfdEvent {
        id,
        event: EventKind::RolloverCompleted {
            dlc,
            funding_fee: funding_fee(),
        },
        timestamp: SystemTime::UNIX_EPOCH + Duration::from_secs(1_633_400_000),
    }
}

fn store_with_cfds() -> Store {
    let mut store = Store::new();
    assert!(store.insert_cfd(7, other_order_id()));
    assert!(store.insert_cfd(11, order_id()));
    store
}

#[test]
fn what_is_inserted_is_loaded() {
    let mut store = store_with_cfds();
    let dlc = sample_dlc();
    insert(&mut store, 3, rollover_completed(order_id(), Some(dlc.clone()))).unwrap();

    let loaded = load(&store, 11, 3).unwrap();

    assert_eq!(loaded, Some((dlc, funding_fee())));
}

#[test]
fn insert_writes_one_row_for_each_part() {
    let mut store = store_with_cfds();

    insert(&mut store, 3, rollover_completed(order_id(), Some(sample_dlc()))).unwrap();

    assert_eq!(store.rollover_completed_event_data.len(), 1);
    assert_eq!(store.revoked_commit_transactions.len(), 2);
    assert_eq!(store.open_cets.len(), 5);
    let row = &store.rollover_completed_event_data[0];
    assert_eq!(row.cfd_id, 11);
    assert_eq!(row.event_id, 3);
    assert_eq!(row.funding_fee, 8);
    assert_eq!(row.rate, FundingRate { value: 5 });
    assert_eq!(row.maker_lock_amount, 150_000);
    assert_eq!(row.taker_lock_amount, 50_000);
    assert_eq!(row.refund_timelock, 4032);
    assert_eq!(row.settlement_event_id, event(24));
    assert_eq!(row.maker_address, "bc1qw508d6qejxtdg4y5r3zarvary0c5xw7kv8f3t4");
    assert_eq!(row.taker_address, "1A1zP1eP5QGefi2DMPTfTL5SLmv7DivfNa");
    assert_eq!(row.refund_signature, "300602010a02010b");
    assert_eq!(row.lock_tx.bytes, vec![1, 0, 0, 0, 1]);
    assert!(store.revoked_commit_transactions.iter().all(|r| r.cfd_id == 11));
    assert_eq!(store.revoked_commit_transactions[0].script_pubkey, "001401ffab");
    assert_eq!(store.revoked_commit_transactions[1].script_pubkey, "001402ffab");
    assert!(store.open_cets.iter().all(|r| r.cfd_id == 11));
    // event after event, each with its CETs in order
    let events: Vec<BitMexPriceEventId> =
        store.open_cets.iter().map(|r| r.oracle_event_id).collect();
    assert_eq!(events, vec![event(1), event(1), event(2), event(2), event(3)]);
    let makers: Vec<i64> = store.open_cets.iter().map(|r| r.maker_amount).collect();
    assert_eq!(makers, vec![10_000, 30_000, 20_000, 40_000, 50_000]);
}

#[test]
fn loaded_cets_are_grouped_by_event() {
    let mut store = store_with_cfds();
    insert(&mut store, 3, rollover_completed(order_id(), Some(sample_dlc()))).unwrap();

    let (dlc, _) = load(&store, 11, 3).unwrap().unwrap();

    assert_eq!(dlc.cets.len(), 3);
    assert_eq!(
        dlc.cets.get(event(1)),
        Some(&vec![cet(1, 10_000), cet(3, 30_000)])
    );
    assert_eq!(
        dlc.cets.get(event(2)),
        Some(&vec![cet(2, 20_000), cet(4, 40_000)])
    );
    assert_eq!(dlc.cets.get(event(3)), Some(&vec![cet(5, 50_000)]));
    assert_eq!(dlc.cets.get(event(4)), None);
    assert_eq!(dlc.revoked_commit, vec![revoked(1), revoked(2)]);
}

#[test]
fn load_finds_nothing_where_nothing_was_inserted() {
    let mut store = store_with_cfds();
    assert_eq!(load(&store, 11, 3), Ok(None));

    insert(&mut store, 3, rollover_completed(order_id(), Some(sample_dlc()))).unwrap();

    // another event, another CFD
    assert_eq!(load(&store, 11, 4), Ok(None));
    assert_eq!(load(&store, 7, 3), Ok(None));
    assert!(load(&store, 11, 3).unwrap().is_some());
}

#[test]
fn a_later_rollover_takes_the_place_of_an_earlier_one() {
    let mut store = store_with_cfds();
    insert(&mut store, 3, rollover_completed(order_id(), Some(sample_dlc()))).unwrap();
    let mut cets = Cets::new();
    cets.push(event(25), cet(9, 90_000));
    let later = dlc_with(cets, vec![revoked(1), revoked(2), revoked(3)]);

    insert(&mut store, 4, rollover_completed(order_id(), Some(later.clone()))).unwrap();

    assert_eq!(store.rollover_completed_event_data.len(), 1);
    assert_eq!(store.revoked_commit_transactions.len(), 3);
    assert_eq!(store.open_cets.len(), 1);
    assert_eq!(load(&store, 11, 3), Ok(None));
    assert_eq!(load(&store, 11, 4), Ok(Some((later, funding_fee()))));
}

#[test]
fn rollovers_of_two_cfds_do_not_touch_each_other() {
    let mut store = store_with_cfds();
    let mut cets = Cets::new();
    cets.push(event(1), cet(7, 70_000));
    let other = dlc_with(cets, vec![revoked(7)]);
    insert(&mut store, 1, rollover_completed(other_order_id(), Some(other.clone()))).unwrap();
    insert(&mut store, 2, rollover_completed(order_id(), Some(sample_dlc()))).unwrap();

    assert_eq!(store.rollover_completed_event_data.len(), 2);
    assert_eq!(store.revoked_commit_transactions.len(), 3);
    assert_eq!(store.open_cets.len(), 6);
    assert_eq!(load(&store, 7, 1), Ok(Some((other, funding_fee()))));
    assert_eq!(load(&store, 11, 2), Ok(Some((sample_dlc(), funding_fee()))));
}

#[test]
fn a_failing_cet_leaves_no_row_behind() {
    let mut store = store_with_cfds();
    let mut cets = Cets::new();
    cets.push(event(1), cet(1, 10_000));
    cets.push(event(1), cet(2, 20_000));
    // the third CET cannot be written
    cets.push(event(2), cet(3, 1 << 63));
    cets.push(event(2), cet(4, 40_000));
    let dlc = dlc_with(cets, vec![revoked(1), revoked(2)]);
    let before = store.clone();

    let result = insert(&mut store, 3, rollover_completed(order_id(), Some(dlc)));

    assert_eq!(result, Err(Error::AmountOutOfRange));
    assert_eq!(store, before);
    assert_eq!(store.rollover_completed_event_data.len(), 0);
    assert_eq!(store.revoked_commit_transactions.len(), 0);
    assert_eq!(store.open_cets.len(), 0);
    assert_eq!(load(&store, 11, 3), Ok(None));
}

#[test]
fn a_failing_insert_keeps_the_earlier_rollover() {
    let mut store = store_with_cfds();
    insert(&mut store, 3, rollover_completed(order_id(), Some(sample_dlc()))).unwrap();
    let mut cets = Cets::new();
    cets.push(event(1), cet(1, u64::MAX));
    let before = store.clone();

    let result = insert(
        &mut store,
        4,
        rollover_completed(order_id(), Some(dlc_with(cets, vec![]))),
    );

    assert_eq!(result, Err(Error::AmountOutOfRange));
    assert_eq!(store, before);
    assert_eq!(load(&store, 11, 3), Ok(Some((sample_dlc(), funding_fee()))));
}

#[test]
fn insert_refuses_amounts_that_do_not_fit() {
    let mut store = store_with_cfds();
    let mut dlc = sample_dlc();
    dlc.maker_lock_amount = Amount::from_sat(1 << 63);
    assert_eq!(
        insert(&mut store, 3, rollover_completed(order_id(), Some(dlc))),
        Err(Error::AmountOutOfRange)
    );
    let mut dlc = sample_dlc();
    dlc.taker_lock_amount = Amount::from_sat(u64::MAX);
    assert_eq!(
        insert(&mut store, 3, rollover_completed(order_id(), Some(dlc))),
        Err(Error::AmountOutOfRange)
    );
    let fee_too_large = CfdEvent {
        id: order_id(),
        event: EventKind::RolloverCompleted {
            dlc: Some(sample_dlc()),
            funding_fee: FundingFee {
                fee: Amount::from_sat((1 << 63) + 1),
                rate: FundingRate { value: 5 },
            },
        },
        timestamp: SystemTime::UNIX_EPOCH,
    };
    assert_eq!(
        insert(&mut store, 3, fee_too_large),
        Err(Error::AmountOutOfRange)
    );
    assert_eq!(store, store_with_cfds());
}

#[test]
fn the_largest_amounts_that_fit_round_trip() {
    let mut store = store_with_cfds();
    let mut cets = Cets::new();
    cets.push(event(1), cet(1, (1 << 63) - 1));
    let mut dlc = dlc_with(cets, vec![]);
    dlc.maker_lock_amount = Amount::from_sat((1 << 63) - 1);
    dlc.taker_lock_amount = Amount::from_sat(0);
    dlc.refund_timelock = u32::MAX;

    insert(&mut store, 3, rollover_completed(order_id(), Some(dlc.clone()))).unwrap();

    assert_eq!(store.rollover_completed_event_data[0].maker_lock_amount, i64::MAX);
    assert_eq!(store.rollover_completed_event_data[0].refund_timelock, 4_294_967_295);
    assert_eq!(load(&store, 11, 3), Ok(Some((dlc, funding_fee()))));
}

#[test]
fn ranges_keep_their_bits() {
    let mut store = store_with_cfds();
    let mut wide = cet(1, 10_000);
    wide.range = PriceRange {
        start: 1 << 63,
        end: u64::MAX,
    };
    wide.n_bits = u64::MAX;
    let mut cets = Cets::new();
    cets.push(event(1), wide);
    let dlc = dlc_with(cets, vec![]);

    insert(&mut store, 3, rollover_completed(order_id(), Some(dlc.clone()))).unwrap();

    assert_eq!(store.open_cets[0].range_start, i64::MIN);
    assert_eq!(store.open_cets[0].range_end, -1);
    assert_eq!(store.open_cets[0].n_bits, -1);
    assert_eq!(load(&store, 11, 3), Ok(Some((dlc, funding_fee()))));
}

#[test]
fn insert_fails_for_an_order_without_cfd() {
    let mut store = Store::new();
    assert!(store.insert_cfd(7, other_order_id()));
    let before = store.clone();

    let result = insert(&mut store, 3, rollover_completed(order_id(), Some(sample_dlc())));

    assert_eq!(result, Err(Error::FailedToInsertEventData));
    assert_eq!(store, before);
}

#[test]
fn a_rollover_without_contract_writes_nothing() {
    let mut store = store_with_cfds();
    insert(&mut store, 3, rollover_completed(order_id(), Some(sample_dlc()))).unwrap();
    let before = store.clone();

    assert_eq!(insert(&mut store, 4, rollover_completed(order_id(), None)), Ok(()));

    assert_eq!(store, before);
}

#[test]
fn other_events_are_refused() {
    let mut store = store_with_cfds();
    for kind in [
        EventKind::ContractSetupStarted,
        EventKind::ContractSetupFailed,
        EventKind::SettlementCompleted,
    ] {
        let event = CfdEvent {
            id: order_id(),
            event: kind,
            timestamp: SystemTime::UNIX_EPOCH,
        };
        assert_eq!(insert(&mut store, 3, event), Err(Error::InvalidEvent));
    }
    assert_eq!(store, store_with_cfds());
}

#[test]
fn an_event_without_cets_is_not_kept() {
    // an event needs a CET to have a row
    let mut store = store_with_cfds();
    let dlc = dlc_with(Cets::new(), vec![]);

    insert(&mut store, 3, rollover_completed(order_id(), Some(dlc.clone()))).unwrap();

    assert_eq!(store.open_cets.len(), 0);
    assert_eq!(load(&store, 11, 3), Ok(Some((dlc, funding_fee()))));
}

#[test]
fn load_reports_a_negative_amount() {
    let mut store = store_with_cfds();
    insert(&mut store, 3, rollover_completed(order_id(), Some(sample_dlc()))).unwrap();

    let mut corrupt = store.clone();
    corrupt.rollover_completed_event_data[0].maker_lock_amount = -1;
    assert_eq!(load(&corrupt, 11, 3), Err(Error::NegativeAmount));

    let mut corrupt = store.clone();
    corrupt.rollover_completed_event_data[0].taker_lock_amount = i64::MIN;
    assert_eq!(load(&corrupt, 11, 3), Err(Error::NegativeAmount));

    let mut corrupt = store.clone();
    corrupt.rollover_completed_event_data[0].funding_fee = -8;
    assert_eq!(load(&corrupt, 11, 3), Err(Error::NegativeAmount));

    let mut corrupt = store.clone();
    corrupt.open_cets[4].taker_amount = -1;
    assert_eq!(load(&corrupt, 11, 3), Err(Error::NegativeAmount));
    // the CETs are read before the row of contract data is looked for
    assert_eq!(load(&corrupt, 11, 99), Err(Error::NegativeAmount));
    // those of another CFD are not read
    assert_eq!(load(&corrupt, 7, 3), Ok(None));
}

#[test]
fn load_reports_a_timelock_out_of_range() {
    let mut store = store_with_cfds();
    insert(&mut store, 3, rollover_completed(order_id(), Some(sample_dlc()))).unwrap();

    store.rollover_completed_event_data[0].refund_timelock = 1 << 32;
    assert_eq!(load(&store, 11, 3), Err(Error::TimelockOutOfRange));
    store.rollover_completed_event_data[0].refund_timelock = -1;
    assert_eq!(load(&store, 11, 3), Err(Error::TimelockOutOfRange));
}

#[test]
fn load_reports_texts_that_do_not_parse() {
    let mut store = store_with_cfds();
    insert(&mut store, 3, rollover_completed(order_id(), Some(sample_dlc()))).unwrap();

    let mut corrupt = store.clone();
    corrupt.rollover_completed_event_data[0].maker_address = String::from("nowhere");
    assert_eq!(load(&corrupt, 11, 3), Err(Error::InvalidAddress));

    let mut corrupt = store.clone();
    corrupt.rollover_completed_event_data[0].taker_address = String::new();
    assert_eq!(load(&corrupt, 11, 3), Err(Error::InvalidAddress));

    let mut corrupt = store.clone();
    corrupt.rollover_completed_event_data[0].lock_tx_descriptor = String::from("wsh(");
    assert_eq!(load(&corrupt, 11, 3), Err(Error::InvalidDescriptor));

    let mut corrupt = store.clone();
    corrupt.rollover_completed_event_data[0].commit_descriptor = String::from("pk()");
    assert_eq!(load(&corrupt, 11, 3), Err(Error::InvalidDescriptor));

    let mut corrupt = store.clone();
    corrupt.rollover_completed_event_data[0].refund_signature = String::from("3006");
    assert_eq!(load(&corrupt, 11, 3), Err(Error::InvalidSignature));

    let mut corrupt = store.clone();
    corrupt.revoked_commit_transactions[1].script_pubkey = String::from("0014zz");
    assert_eq!(load(&corrupt, 11, 3), Err(Error::InvalidScript));
}

#[test]
fn load_reads_texts_in_any_form_that_parses() {
    let mut store = store_with_cfds();
    insert(&mut store, 3, rollover_completed(order_id(), Some(sample_dlc()))).unwrap();

    store.rollover_completed_event_data[0].maker_address =
        String::from("BC1QW508D6QEJXTDG4Y5R3ZARVARY0C5XW7KV8F3T4");
    store.rollover_completed_event_data[0].commit_descriptor = format!("wpkh({PK_1})");
    store.rollover_completed_event_data[0].refund_signature = String::from("300602010A02010B");
    store.revoked_commit_transactions[0].script_pubkey = String::from("001401FFAB");

    assert_eq!(load(&store, 11, 3), Ok(Some((sample_dlc(), funding_fee()))));
}

#[test]
fn a_cfd_is_inserted_once() {
    let mut store = Store::new();
    assert!(store.insert_cfd(1, order_id()));
    assert!(!store.insert_cfd(2, order_id()));
    assert!(!store.insert_cfd(1, other_order_id()));
    assert!(store.insert_cfd(2, other_order_id()));
    assert_eq!(store.cfds.len(), 2);
    assert_eq!(store.cfd_id(order_id()), Some(1));
    assert_eq!(store.cfd_id(other_order_id()), Some(2));
    assert_eq!(store.cfd_id(OrderId(5)), None);
}

#[test]
fn amounts_as_the_columns_keep_them() {
    assert_eq!(amount_to_sql(Amount::from_sat(0)), Ok(0));
    assert_eq!(amount_to_sql(Amount::from_sat(21_000_000 * 100_000_000)), Ok(2_100_000_000_000_000));
    assert_eq!(amount_to_sql(Amount::from_sat(i64::MAX as u64)), Ok(i64::MAX));
    assert_eq!(
        amount_to_sql(Amount::from_sat(i64::MAX as u64 + 1)),
        Err(Error::AmountOutOfRange)
    );
    assert_eq!(amount_to_sql(Amount::from_sat(u64::MAX)), Err(Error::AmountOutOfRange));
    assert_eq!(amount_from_sql(0), Ok(Amount::from_sat(0)));
    assert_eq!(amount_from_sql(i64::MAX), Ok(Amount::from_sat(i64::MAX as u64)));
    assert_eq!(amount_from_sql(-1), Err(Error::NegativeAmount));
    assert_eq!(amount_from_sql(i64::MIN), Err(Error::NegativeAmount));
    assert_eq!(Amount::from_sat(42).as_sat(), 42);
}

#[test]
fn unsigned_numbers_keep_their_bits() {
    assert_eq!(u64_to_sql(0), 0);
    assert_eq!(u64_to_sql(i64::MAX as u64), i64::MAX);
    assert_eq!(u64_to_sql(1 << 63), i64::MIN);
    assert_eq!(u64_to_sql((1 << 63) + 5), i64::MIN + 5);
    assert_eq!(u64_to_sql(u64::MAX), -1);
    assert_eq!(u64_from_sql(0), 0);
    assert_eq!(u64_from_sql(-1), u64::MAX);
    assert_eq!(u64_from_sql(i64::MIN), 1 << 63);
    assert_eq!(u64_from_sql(i64::MAX), i64::MAX as u64);
    for v in [0, 1, 12345, (1 << 63) - 1, 1 << 63, u64::MAX - 1, u64::MAX] {
        assert_eq!(u64_from_sql(u64_to_sql(v)), v);
        assert_eq!(u64_to_sql(v), v as i64);
    }
}

#[test]
fn timelocks_as_the_column_keeps_them() {
    assert_eq!(timelock_from_sql(0), Ok(0));
    assert_eq!(timelock_from_sql(4032), Ok(4032));
    assert_eq!(timelock_from_sql(u32::MAX as i64), Ok(u32::MAX));
    assert_eq!(timelock_from_sql(u32::MAX as i64 + 1), Err(Error::TimelockOutOfRange));
    assert_eq!(timelock_from_sql(-1), Err(Error::TimelockOutOfRange));
}

#[test]
fn a_write_has_to_affect_one_row() {
    assert_eq!(check_rows_affected(Table::RolloverCompletedEventData, 1), Ok(()));
    assert_eq!(check_rows_affected(Table::RevokedCommitTransactions, 1), Ok(()));
    assert_eq!(check_rows_affected(Table::OpenCets, 1), Ok(()));
    assert_eq!(
        check_rows_affected(Table::RolloverCompletedEventData, 0),
        Err(Error::FailedToInsertEventData)
    );
    assert_eq!(
        check_rows_affected(Table::RevokedCommitTransactions, 2),
        Err(Error::FailedToInsertRevokedCommit)
    );
    assert_eq!(
        check_rows_affected(Table::OpenCets, 0),
        Err(Error::FailedToInsertCet)
    );
}

#[test]
fn rows_are_made_of_their_parts() {
    let dlc = sample_dlc();
    let row = event_data_row(11, 3, &dlc, funding_fee()).unwrap();
    assert_eq!(row.cfd_id, 11);
    assert_eq!(row.event_id, 3);
    assert_eq!(row.identity, dlc.identity);
    assert_eq!(row.publish_sk, dlc.publish);
    assert_eq!(row.revocation_secret, dlc.revocation);
    assert_eq!(row.commit_adaptor_signature, dlc.commit.adaptor_signature);
    assert_eq!(row.lock_tx_descriptor, dlc.lock.descriptor.to_string());

    let row = revoked_commit_row(11, &revoked(5));
    assert_eq!(row.cfd_id, 11);
    assert_eq!(row.script_pubkey, "001405ffab");
    assert_eq!(row.txid, revoked(5).txid);

    let row = cet_row(11, event(2), &cet(6, 60_000)).unwrap();
    assert_eq!(row.oracle_event_id, event(2));
    assert_eq!(row.maker_amount, 60_000);
    assert_eq!(row.taker_amount, 40_000);
    assert_eq!(row.n_bits, 20);
    assert_eq!(row.range_start, 6000);
    assert_eq!(row.range_end, 6999);
    assert_eq!(cet_from_row(&row), Ok(cet(6, 60_000)));
    assert_eq!(
        cet_row(11, event(2), &cet(6, 1 << 63)),
        Err(Error::AmountOutOfRange)
    );
}
