//! Writing the snapshot of a completed rollover: all of its rows or none.

use crate::hex::hex_encode;
use crate::model::{
    AdaptorSignature, BitMexPriceEventId, Cet, CetView, CfdEvent, Dlc, DlcView,
    EventKind, FundingFee, PublicKey, RevokedCommit, RevokedCommitView, Transaction, Txid,
};
use crate::models::OrderId;
use crate::rollover::store::{
    cfd_id_of, committed, views, without_cfd, CetRowView, DbTransaction, DbTransactionView,
    EventDataView, OpenCet, RevokedCommitTransaction, RevokedRowView, RolloverCompletedEventData,
    Store, StoreView,
};
use crate::rollover::{
    amount_to_sql, check_rows_affected, fits_signed, signed_bits, u64_to_sql, Error, Table,
};
use crate::bytes::copy_bytes;
use vstd::prelude::*;

verus! {

/// Whether the amounts of the row of contract data fit their columns.
pub open spec fn event_data_fits(dlc: DlcView, funding_fee: FundingFee) -> bool {
    &&& fits_signed(funding_fee.fee)
    &&& fits_signed(dlc.maker_lock_amount)
    &&& fits_signed(dlc.taker_lock_amount)
}

/// The row of contract data of a snapshot.
pub open spec fn event_data_row_view(
    cfd_id: i64,
    event_id: i64,
    dlc: DlcView,
    funding_fee: FundingFee,
) -> EventDataView {
    EventDataView {
        cfd_id,
        event_id,
        settlement_event_id: dlc.settlement_event_id,
        refund_timelock: dlc.refund_timelock as i64,
        funding_fee: funding_fee.fee.sat as i64,
        rate: funding_fee.rate,
        identity: dlc.identity,
        identity_counterparty: dlc.identity_counterparty,
        maker_address: dlc.maker_address,
        taker_address: dlc.taker_address,
        maker_lock_amount: dlc.maker_lock_amount.sat as i64,
        taker_lock_amount: dlc.taker_lock_amount.sat as i64,
        publish_sk: dlc.publish,
        publish_pk_counterparty: dlc.publish_pk_counterparty,
        revocation_secret: dlc.revocation,
        revocation_pk_counterparty: dlc.revocation_pk_counterparty,
        lock_tx: dlc.lock_tx,
        lock_tx_descriptor: dlc.lock_descriptor,
        commit_tx: dlc.commit_tx,
        commit_adaptor_signature: dlc.commit_adaptor_signature,
        commit_descriptor: dlc.commit_descriptor,
        refund_tx: dlc.refund_tx,
        refund_signature: dlc.refund_signature,
    }
}

/// The row of a revoked commit transaction: its script as hexadecimal text.
pub open spec fn revoked_row_view(cfd_id: i64, revoked: RevokedCommitView) -> RevokedRowView {
    RevokedRowView {
        cfd_id,
        encsig_ours: revoked.encsig_ours,
        publication_pk_theirs: revoked.publication_pk_theirs,
        revocation_sk_theirs: revoked.revocation_sk_theirs,
        script_pubkey: hex_encode(revoked.script_pubkey),
        txid: revoked.txid,
    }
}

/// The rows of a list of revoked commit transactions, in order.
pub open spec fn revoked_rows(cfd_id: i64, revoked: Seq<RevokedCommitView>) -> Seq<RevokedRowView> {
    revoked.map_values(|r: RevokedCommitView| revoked_row_view(cfd_id, r))
}

/// Whether the amounts of a CET fit their columns.
pub open spec fn cet_fits(cet: CetView) -> bool {
    fits_signed(cet.maker_amount) && fits_signed(cet.taker_amount)
}

/// The row of a CET. The number of bits and the ends of the range keep their
/// bits.
pub open spec fn cet_row_view(cfd_id: i64, event_id: BitMexPriceEventId, cet: CetView) -> CetRowView {
    CetRowView {
        cfd_id,
        oracle_event_id: event_id,
        adaptor_sig: cet.adaptor_sig,
        maker_amount: cet.maker_amount.sat as i64,
        taker_amount: cet.taker_amount.sat as i64,
        n_bits: signed_bits(cet.n_bits),
        range_start: signed_bits(cet.range.start),
        range_end: signed_bits(cet.range.end),
        txid: cet.txid,
    }
}

/// The rows of the CETs of one event, in order.
pub open spec fn entry_rows(cfd_id: i64, event_id: BitMexPriceEventId, cets: Seq<CetView>) -> Seq<
    CetRowView,
> {
    cets.map_values(|cet: CetView| cet_row_view(cfd_id, event_id, cet))
}

/// The rows of all CETs: event after event, each with its CETs in order.
pub open spec fn cet_rows(cfd_id: i64, entries: Seq<(BitMexPriceEventId, Seq<CetView>)>) -> Seq<
    CetRowView,
>
    decreases entries.len(),
{
    if entries.len() == 0 {
        Seq::empty()
    } else {
        cet_rows(cfd_id, entries.drop_last()) + entry_rows(
            cfd_id,
            entries.last().0,
            entries.last().1,
        )
    }
}

/// Whether the amounts of all CETs fit their columns.
pub open spec fn cets_fit(entries: Seq<(BitMexPriceEventId, Seq<CetView>)>) -> bool {
    forall|i: int, j: int|
        0 <= i < entries.len() && 0 <= j < entries[i].1.len() ==> cet_fits(
            #[trigger] entries[i].1[j],
        )
}

/// The tables after the snapshot of a rollover is written for an order, or
/// why it is not written. What the tables held for the CFD before is gone.
pub open spec fn insert_spec(
    store: StoreView,
    event_id: i64,
    order_id: OrderId,
    dlc: DlcView,
    funding_fee: FundingFee,
) -> Result<StoreView, Error> {
    if !event_data_fits(dlc, funding_fee) {
        Err(Error::AmountOutOfRange)
    } else {
        match cfd_id_of(store.cfds, order_id) {
            None => Err(Error::FailedToInsertEventData),
            Some(cfd_id) => if !cets_fit(dlc.cets) {
                Err(Error::AmountOutOfRange)
            } else {
                Ok(
                    StoreView {
                        cfds: store.cfds,
                        event_data: without_cfd::<RolloverCompletedEventData>(
                            store.event_data,
                            cfd_id,
                        ).push(event_data_row_view(cfd_id, event_id, dlc, funding_fee)),
                        revoked: without_cfd::<RevokedCommitTransaction>(store.revoked, cfd_id)
                            + revoked_rows(cfd_id, dlc.revoked_commit),
                        cets: without_cfd::<OpenCet>(store.cets, cfd_id) + cet_rows(
                            cfd_id,
                            dlc.cets,
                        ),
                    },
                )
            },
        }
    }
}

/// Writes the snapshot of a completed rollover under an event's row id, in
/// one transaction: the rows that the tables held for the CFD are deleted,
/// then one row of contract data, one row for each revoked commit
/// transaction and one row for each CET are added. Where any part fails the
/// tables stay as they were.
///
/// The completion of a rollover without a contract writes nothing. Any other
/// event is refused.
pub fn insert(store: &mut Store, event_id: i64, event: CfdEvent) -> (written: Result<(), Error>)
    ensures
        match event.event {
            EventKind::RolloverCompleted { dlc: Some(dlc), funding_fee } => match insert_spec(
                old(store)@,
                event_id,
                event.id,
                dlc@,
                funding_fee,
            ) {
                Ok(after) => written is Ok && final(store)@ == after,
                Err(e) => written == Err::<(), Error>(e) && *final(store) == *old(store),
            },
            EventKind::RolloverCompleted { dlc: None, .. } => written is Ok && *final(store) == *old(
                store,
            ),
            _ => written == Err::<(), Error>(Error::InvalidEvent) && *final(store) == *old(store),
        },
{
    match &event.event {
        EventKind::RolloverCompleted { dlc: Some(dlc), funding_fee } => {
            let mut inner_transaction = store.begin();
            delete(&*store, &mut inner_transaction, event.id);
            match insert_rollover_completed_event_data(
                &*store,
                &mut inner_transaction,
                event_id,
                dlc,
                *funding_fee,
                event.id,
            ) {
                Ok(()) => {},
                Err(e) => {
                    return Err(e);
                },
            }
            let ghost cfd_id = cfd_id_of(store@.cfds, event.id).unwrap();
            let mut i: usize = 0;
            while i < dlc.revoked_commit.len()
                invariant
                    i <= dlc.revoked_commit.len(),
                    cfd_id_of(store@.cfds, event.id) == Some(cfd_id),
                    inner_transaction@.deleted == Some(cfd_id),
                    inner_transaction@.event_data == seq![
                        event_data_row_view(cfd_id, event_id, dlc@, *funding_fee),
                    ],
                    inner_transaction@.revoked == revoked_rows(
                        cfd_id,
                        dlc@.revoked_commit.subrange(0, i as int),
                    ),
                    inner_transaction@.cets == Seq::<CetRowView>::empty(),
                decreases dlc.revoked_commit.len() - i,
            {
                match insert_revoked_commit_transaction(
                    &*store,
                    &mut inner_transaction,
                    event.id,
                    &dlc.revoked_commit[i],
                ) {
                    Ok(()) => {},
                    Err(e) => {
                        return Err(e);
                    },
                }
                i += 1;
            }
            let mut k: usize = 0;
            while k < dlc.cets.len()
                invariant
                    k <= dlc@.cets.len(),
                    cfd_id_of(store@.cfds, event.id) == Some(cfd_id),
                    inner_transaction@.deleted == Some(cfd_id),
                    inner_transaction@.event_data == seq![
                        event_data_row_view(cfd_id, event_id, dlc@, *funding_fee),
                    ],
                    inner_transaction@.revoked == revoked_rows(cfd_id, dlc@.revoked_commit),
                    inner_transaction@.cets == cet_rows(cfd_id, dlc@.cets.subrange(0, k as int)),
                    cets_fit(dlc@.cets.subrange(0, k as int)),
                    event_data_fits(dlc@, *funding_fee),
                    *store == *old(store),
                    event.event == (EventKind::RolloverCompleted {
                        dlc: Some(*dlc),
                        funding_fee: *funding_fee,
                    }),
                decreases dlc@.cets.len() - k,
            {
                let entry = dlc.cets.entry(k);
                let ghost done = inner_transaction@.cets;
                let ghost cets = dlc@.cets[k as int].1;
                let mut j: usize = 0;
                while j < entry.cets.len()
                    invariant
                        j <= entry.cets.len(),
                        k < dlc@.cets.len(),
                        (entry.event_id, crate::model::cet_views(entry.cets@)) == dlc@.cets[k as int],
                        cets == dlc@.cets[k as int].1,
                        cfd_id_of(store@.cfds, event.id) == Some(cfd_id),
                        inner_transaction@.deleted == Some(cfd_id),
                        inner_transaction@.event_data == seq![
                            event_data_row_view(cfd_id, event_id, dlc@, *funding_fee),
                        ],
                        inner_transaction@.revoked == revoked_rows(cfd_id, dlc@.revoked_commit),
                        inner_transaction@.cets == done + entry_rows(
                            cfd_id,
                            entry.event_id,
                            cets.subrange(0, j as int),
                        ),
                        forall|m: int| 0 <= m < j ==> cet_fits(#[trigger] cets[m]),
                        event_data_fits(dlc@, *funding_fee),
                        *store == *old(store),
                        event.event == (EventKind::RolloverCompleted {
                            dlc: Some(*dlc),
                            funding_fee: *funding_fee,
                        }),
                    decreases entry.cets.len() - j,
                {
                    assert(cets[j as int] == entry.cets[j as int]@);
                    match insert_cet(
                        &*store,
                        &mut inner_transaction,
                        entry.event_id,
                        event.id,
                        &entry.cets[j],
                    ) {
                        Ok(()) => {},
                        Err(e) => {
                            return Err(e);
                        },
                    }
                    j += 1;
                }
                proof {
                    let next = dlc@.cets.subrange(0, k + 1);
                    assert(next.drop_last() =~= dlc@.cets.subrange(0, k as int));
                }
                k += 1;
            }
            proof {
                assert(dlc@.cets.subrange(0, k as int) =~= dlc@.cets);
                let kept = without_cfd::<RolloverCompletedEventData>(store@.event_data, cfd_id);
                assert(kept + inner_transaction@.event_data =~= kept.push(
                    event_data_row_view(cfd_id, event_id, dlc@, *funding_fee),
                ));
            }
            // all rows or none
            store.commit(inner_transaction);
            Ok(())
        },
        EventKind::RolloverCompleted { dlc: None, .. } => {
            // without a contract there is nothing to keep
            Ok(())
        },
        _ => Err(Error::InvalidEvent),
    }
}

/// Deletes what the tables hold of an order's rollovers, within a
/// transaction. An order that the tables do not know has nothing to delete.
pub fn delete(store: &Store, tx: &mut DbTransaction, offer_id: OrderId)
    ensures
        final(tx)@ == (DbTransactionView { deleted: cfd_id_of(store@.cfds, offer_id), ..old(tx)@ }),
{
    tx.deleted = store.cfd_id(offer_id);
}

/// The row of contract data of a snapshot, or the refusal of an amount of
/// 2^63 satoshis or more.
pub fn event_data_row(cfd_id: i64, event_id: i64, dlc: &Dlc, funding_fee: FundingFee) -> (row:
    Result<RolloverCompletedEventData, Error>)
    ensures
        event_data_fits(dlc@, funding_fee) ==> row is Ok && row.unwrap()@ == event_data_row_view(
            cfd_id,
            event_id,
            dlc@,
            funding_fee,
        ),
        !event_data_fits(dlc@, funding_fee) ==> row == Err::<RolloverCompletedEventData, Error>(
            Error::AmountOutOfRange,
        ),
{
    let funding_fee_as_sat = match amount_to_sql(funding_fee.fee) {
        Ok(v) => v,
        Err(e) => {
            return Err(e);
        },
    };
    let maker_lock_amount = match amount_to_sql(dlc.maker_lock_amount) {
        Ok(v) => v,
        Err(e) => {
            return Err(e);
        },
    };
    let taker_lock_amount = match amount_to_sql(dlc.taker_lock_amount) {
        Ok(v) => v,
        Err(e) => {
            return Err(e);
        },
    };
    Ok(
        RolloverCompletedEventData {
            cfd_id,
            event_id,
            settlement_event_id: dlc.settlement_event_id,
            refund_timelock: dlc.refund_timelock as i64,
            funding_fee: funding_fee_as_sat,
            rate: funding_fee.rate,
            identity: dlc.identity,
            identity_counterparty: PublicKey { bytes: copy_bytes(&dlc.identity_counterparty.bytes) },
            maker_address: dlc.maker_address.to_string(),
            taker_address: dlc.taker_address.to_string(),
            maker_lock_amount,
            taker_lock_amount,
            publish_sk: dlc.publish,
            publish_pk_counterparty: PublicKey {
                bytes: copy_bytes(&dlc.publish_pk_counterparty.bytes),
            },
            revocation_secret: dlc.revocation,
            revocation_pk_counterparty: PublicKey {
                bytes: copy_bytes(&dlc.revocation_pk_counterparty.bytes),
            },
            lock_tx: Transaction { bytes: copy_bytes(&dlc.lock.tx.bytes) },
            lock_tx_descriptor: dlc.lock.descriptor.to_string(),
            commit_tx: Transaction { bytes: copy_bytes(&dlc.commit.tx.bytes) },
            commit_adaptor_signature: AdaptorSignature {
                bytes: copy_bytes(&dlc.commit.adaptor_signature.bytes),
            },
            commit_descriptor: dlc.commit.descriptor.to_string(),
            refund_tx: Transaction { bytes: copy_bytes(&dlc.refund.tx.bytes) },
            refund_signature: dlc.refund.signature.to_string(),
        },
    )
}

/// The row of a revoked commit transaction.
pub fn revoked_commit_row(cfd_id: i64, revoked: &RevokedCommit) -> (row: RevokedCommitTransaction)
    ensures
        row@ == revoked_row_view(cfd_id, revoked@),
{
    let revoked_tx_script_pubkey = revoked.script_pubkey.to_hex();
    RevokedCommitTransaction {
        cfd_id,
        encsig_ours: AdaptorSignature { bytes: copy_bytes(&revoked.encsig_ours.bytes) },
        publication_pk_theirs: PublicKey { bytes: copy_bytes(&revoked.publication_pk_theirs.bytes) },
        revocation_sk_theirs: revoked.revocation_sk_theirs,
        script_pubkey: revoked_tx_script_pubkey,
        txid: Txid { bytes: copy_bytes(&revoked.txid.bytes) },
    }
}

/// The row of a CET, or the refusal of an amount of 2^63 satoshis or more.
pub fn cet_row(cfd_id: i64, event_id: BitMexPriceEventId, cet: &Cet) -> (row: Result<OpenCet, Error>)
    ensures
        cet_fits(cet@) ==> row is Ok && row.unwrap()@ == cet_row_view(cfd_id, event_id, cet@),
        !cet_fits(cet@) ==> row == Err::<OpenCet, Error>(Error::AmountOutOfRange),
{
    let maker_amount = match amount_to_sql(cet.maker_amount) {
        Ok(v) => v,
        Err(e) => {
            return Err(e);
        },
    };
    let taker_amount = match amount_to_sql(cet.taker_amount) {
        Ok(v) => v,
        Err(e) => {
            return Err(e);
        },
    };
    Ok(
        OpenCet {
            cfd_id,
            oracle_event_id: event_id,
            adaptor_sig: AdaptorSignature { bytes: copy_bytes(&cet.adaptor_sig.bytes) },
            maker_amount,
            taker_amount,
            n_bits: u64_to_sql(cet.n_bits),
            range_start: u64_to_sql(cet.range.start),
            range_end: u64_to_sql(cet.range.end),
            txid: Txid { bytes: copy_bytes(&cet.txid.bytes) },
        },
    )
}

/// Adds the row of contract data to a transaction.
fn insert_rollover_completed_event_data(
    store: &Store,
    inner_transaction: &mut DbTransaction,
    event_id: i64,
    dlc: &Dlc,
    funding_fee: FundingFee,
    offer_id: OrderId,
) -> (inserted: Result<(), Error>)
    ensures
        !event_data_fits(dlc@, funding_fee) ==> inserted == Err::<(), Error>(
            Error::AmountOutOfRange,
        ),
        event_data_fits(dlc@, funding_fee) ==> match cfd_id_of(store@.cfds, offer_id) {
            Some(cfd_id) => inserted is Ok && final(inner_transaction)@ == (DbTransactionView {
                event_data: old(inner_transaction)@.event_data.push(
                    event_data_row_view(cfd_id, event_id, dlc@, funding_fee),
                ),
                ..old(inner_transaction)@
            }),
            None => inserted == Err::<(), Error>(Error::FailedToInsertEventData),
        },
{
    let cfd_id = store.cfd_id(offer_id);
    let row = match event_data_row(
        match cfd_id {
            Some(id) => id,
            None => 0,
        },
        event_id,
        dlc,
        funding_fee,
    ) {
        Ok(row) => row,
        Err(e) => {
            return Err(e);
        },
    };
    let rows_affected: u64 = match cfd_id {
        Some(_) => {
            let ghost staged = views(inner_transaction.event_data@);
            inner_transaction.event_data.push(row);
            assert(views(inner_transaction.event_data@) =~= staged.push(row@));
            1
        },
        None => 0,
    };
    check_rows_affected(Table::RolloverCompletedEventData, rows_affected)
}

/// Adds the row of a revoked commit transaction to a transaction.
fn insert_revoked_commit_transaction(
    store: &Store,
    inner_transaction: &mut DbTransaction,
    offer_id: OrderId,
    revoked: &RevokedCommit,
) -> (inserted: Result<(), Error>)
    ensures
        match cfd_id_of(store@.cfds, offer_id) {
            Some(cfd_id) => inserted is Ok && final(inner_transaction)@ == (DbTransactionView {
                revoked: old(inner_transaction)@.revoked.push(revoked_row_view(cfd_id, revoked@)),
                ..old(inner_transaction)@
            }),
            None => inserted == Err::<(), Error>(Error::FailedToInsertRevokedCommit),
        },
{
    let rows_affected: u64 = match store.cfd_id(offer_id) {
        Some(cfd_id) => {
            let row = revoked_commit_row(cfd_id, revoked);
            let ghost staged = views(inner_transaction.revoked@);
            inner_transaction.revoked.push(row);
            assert(views(inner_transaction.revoked@) =~= staged.push(row@));
            1
        },
        None => 0,
    };
    check_rows_affected(Table::RevokedCommitTransactions, rows_affected)
}

/// Adds the row of a CET to a transaction.
fn insert_cet(
    store: &Store,
    db_transaction: &mut DbTransaction,
    event_id: BitMexPriceEventId,
    offer_id: OrderId,
    cet: &Cet,
) -> (inserted: Result<(), Error>)
    ensures
        !cet_fits(cet@) ==> inserted == Err::<(), Error>(Error::AmountOutOfRange),
        cet_fits(cet@) ==> match cfd_id_of(store@.cfds, offer_id) {
            Some(cfd_id) => inserted is Ok && final(db_transaction)@ == (DbTransactionView {
                cets: old(db_transaction)@.cets.push(cet_row_view(cfd_id, event_id, cet@)),
                ..old(db_transaction)@
            }),
            None => inserted == Err::<(), Error>(Error::FailedToInsertCet),
        },
{
    let cfd_id = store.cfd_id(offer_id);
    let row = match cet_row(
        match cfd_id {
            Some(id) => id,
            None => 0,
        },
        event_id,
        cet,
    ) {
        Ok(row) => row,
        Err(e) => {
            return Err(e);
        },
    };
    let rows_affected: u64 = match cfd_id {
        Some(_) => {
            let ghost staged = views(db_transaction.cets@);
            db_transaction.cets.push(row);
            assert(views(db_transaction.cets@) =~= staged.push(row@));
            1
        },
        None => 0,
    };
    check_rows_affected(Table::OpenCets, rows_affected)
}

} // verus!
