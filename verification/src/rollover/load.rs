//! Reading the snapshot of a completed rollover back.

use crate::chain::{
    canonical_address, canonical_descriptor, canonical_signature, Address, Descriptor, Signature,
};
use crate::hex::hex_decode;
use crate::model::{
    entries_push, revoked_views, AdaptorSignature, Amount,
    BitMexPriceEventId, Cet, CetView, Cets, Commit, Dlc, DlcView, FundingFee, Lock, PriceRange,
    PublicKey, Refund, RevokedCommit, RevokedCommitView, Script, Transaction, Txid,
};
use crate::rollover::store::{
    views, CetRowView, EventDataView, OpenCet, RevokedCommitTransaction, RevokedRowView,
    RolloverCompletedEventData, Store, StoreView,
};
use crate::rollover::{amount_from_sql, timelock_from_sql, u64_from_sql, unsigned_bits, Error};
use crate::bytes::copy_bytes;
use vstd::prelude::*;

verus! {

/// The first row of contract data of a CFD under an event, if there is one.
pub open spec fn find_event_data(rows: Seq<EventDataView>, cfd_id: i64, event_id: i64) -> Option<
    EventDataView,
>
    decreases rows.len(),
{
    if rows.len() == 0 {
        None
    } else {
        match find_event_data(rows.drop_last(), cfd_id, event_id) {
            Some(row) => Some(row),
            None => if rows.last().cfd_id == cfd_id && rows.last().event_id == event_id {
                Some(rows.last())
            } else {
                None
            },
        }
    }
}

/// The revoked commit transaction that a row holds; its script has to be
/// hexadecimal text.
pub open spec fn revoked_of_row(row: RevokedRowView) -> Result<RevokedCommitView, Error> {
    match hex_decode(row.script_pubkey) {
        Some(script_pubkey) => Ok(
            RevokedCommitView {
                encsig_ours: row.encsig_ours,
                publication_pk_theirs: row.publication_pk_theirs,
                revocation_sk_theirs: row.revocation_sk_theirs,
                script_pubkey,
                txid: row.txid,
            },
        ),
        None => Err(Error::InvalidScript),
    }
}

/// The revoked commit transactions of a CFD in the order of their rows, or
/// the error of the first row that holds none.
pub open spec fn load_revoked_spec(rows: Seq<RevokedRowView>, cfd_id: i64) -> Result<
    Seq<RevokedCommitView>,
    Error,
>
    decreases rows.len(),
{
    if rows.len() == 0 {
        Ok(Seq::empty())
    } else {
        match load_revoked_spec(rows.drop_last(), cfd_id) {
            Err(e) => Err(e),
            Ok(revoked) => if rows.last().cfd_id != cfd_id {
                Ok(revoked)
            } else {
                match revoked_of_row(rows.last()) {
                    Ok(r) => Ok(revoked.push(r)),
                    Err(e) => Err(e),
                }
            },
        }
    }
}

/// The CET that a row holds; its amounts must not be negative.
pub open spec fn cet_of_row(row: CetRowView) -> Result<CetView, Error> {
    if row.maker_amount < 0 || row.taker_amount < 0 {
        Err(Error::NegativeAmount)
    } else {
        Ok(
            CetView {
                adaptor_sig: row.adaptor_sig,
                maker_amount: Amount { sat: row.maker_amount as u64 },
                taker_amount: Amount { sat: row.taker_amount as u64 },
                n_bits: unsigned_bits(row.n_bits),
                range: PriceRange {
                    start: unsigned_bits(row.range_start),
                    end: unsigned_bits(row.range_end),
                },
                txid: row.txid,
            },
        )
    }
}

/// The CETs of a CFD by event: the events in the order in which their first
/// rows come, the CETs of each in the order of their rows. Or the error of
/// the first row that holds no CET.
pub open spec fn load_cets_spec(rows: Seq<CetRowView>, cfd_id: i64) -> Result<
    Seq<(BitMexPriceEventId, Seq<CetView>)>,
    Error,
>
    decreases rows.len(),
{
    if rows.len() == 0 {
        Ok(Seq::empty())
    } else {
        match load_cets_spec(rows.drop_last(), cfd_id) {
            Err(e) => Err(e),
            Ok(entries) => if rows.last().cfd_id != cfd_id {
                Ok(entries)
            } else {
                match cet_of_row(rows.last()) {
                    Ok(cet) => Ok(entries_push(entries, rows.last().oracle_event_id, cet)),
                    Err(e) => Err(e),
                }
            },
        }
    }
}

/// The contract and the funding fee that a row of contract data holds, with
/// the CETs and the revoked commit transactions that were read for the CFD.
/// The first column that does not hold what it should decides the error.
pub open spec fn dlc_of_row(
    row: EventDataView,
    cets: Seq<(BitMexPriceEventId, Seq<CetView>)>,
    revoked_commit: Seq<RevokedCommitView>,
) -> Result<(DlcView, FundingFee), Error> {
    if canonical_address(row.maker_address).is_none() {
        Err(Error::InvalidAddress)
    } else if canonical_address(row.taker_address).is_none() {
        Err(Error::InvalidAddress)
    } else if canonical_descriptor(row.lock_tx_descriptor).is_none() {
        Err(Error::InvalidDescriptor)
    } else if canonical_descriptor(row.commit_descriptor).is_none() {
        Err(Error::InvalidDescriptor)
    } else if canonical_signature(row.refund_signature).is_none() {
        Err(Error::InvalidSignature)
    } else if row.maker_lock_amount < 0 || row.taker_lock_amount < 0 {
        Err(Error::NegativeAmount)
    } else if !(0 <= row.refund_timelock <= u32::MAX) {
        Err(Error::TimelockOutOfRange)
    } else if row.funding_fee < 0 {
        Err(Error::NegativeAmount)
    } else {
        Ok(
            (
                DlcView {
                    identity: row.identity,
                    identity_counterparty: row.identity_counterparty,
                    revocation: row.revocation_secret,
                    revocation_pk_counterparty: row.revocation_pk_counterparty,
                    publish: row.publish_sk,
                    publish_pk_counterparty: row.publish_pk_counterparty,
                    maker_address: canonical_address(row.maker_address).unwrap(),
                    taker_address: canonical_address(row.taker_address).unwrap(),
                    lock_tx: row.lock_tx,
                    lock_descriptor: canonical_descriptor(row.lock_tx_descriptor).unwrap(),
                    commit_tx: row.commit_tx,
                    commit_adaptor_signature: row.commit_adaptor_signature,
                    commit_descriptor: canonical_descriptor(row.commit_descriptor).unwrap(),
                    refund_tx: row.refund_tx,
                    refund_signature: canonical_signature(row.refund_signature).unwrap(),
                    cets,
                    maker_lock_amount: Amount { sat: row.maker_lock_amount as u64 },
                    taker_lock_amount: Amount { sat: row.taker_lock_amount as u64 },
                    revoked_commit,
                    settlement_event_id: row.settlement_event_id,
                    refund_timelock: row.refund_timelock as u32,
                },
                FundingFee { fee: Amount { sat: row.funding_fee as u64 }, rate: row.rate },
            ),
        )
    }
}

/// What the tables hold of a CFD's rollover under an event: nothing where
/// there is no row of contract data, else the contract and the funding fee.
/// The revoked commit transactions and the CETs of the CFD are read first;
/// an error among them comes before anything else.
pub open spec fn load_spec(store: StoreView, cfd_row_id: i64, event_row_id: i64) -> Result<
    Option<(DlcView, FundingFee)>,
    Error,
> {
    match load_revoked_spec(store.revoked, cfd_row_id) {
        Err(e) => Err(e),
        Ok(revoked_commit) => match load_cets_spec(store.cets, cfd_row_id) {
            Err(e) => Err(e),
            Ok(cets) => match find_event_data(store.event_data, cfd_row_id, event_row_id) {
                None => Ok(None),
                Some(row) => match dlc_of_row(row, cets, revoked_commit) {
                    Ok(loaded) => Ok(Some(loaded)),
                    Err(e) => Err(e),
                },
            },
        },
    }
}

/// Reads the snapshot of a completed rollover.
///
/// `Ok(None)` where the tables hold no row of contract data for the CFD
/// under the event; `Ok(Some(..))` with the contract rebuilt where they hold
/// one; an error where a row holds what cannot be read.
pub fn load(store: &Store, cfd_row_id: i64, event_row_id: i64) -> (loaded: Result<
    Option<(Dlc, FundingFee)>,
    Error,
>)
    ensures
        match load_spec(store@, cfd_row_id, event_row_id) {
            Ok(Some((dlc, funding_fee))) => loaded matches Ok(Some(found)) && found.0@ == dlc
                && found.1 == funding_fee && found.0@.wf(),
            Ok(None) => loaded matches Ok(None),
            Err(e) => loaded matches Err(error) && error == e,
        },
{
    let revoked_commit = match load_revoked_commit_transactions(store, cfd_row_id) {
        Ok(revoked) => revoked,
        Err(e) => {
            return Err(e);
        },
    };
    let cets = match load_cets(store, cfd_row_id) {
        Ok(cets) => cets,
        Err(e) => {
            return Err(e);
        },
    };
    let row = match fetch_event_data(store, cfd_row_id, event_row_id) {
        Some(row) => row,
        None => {
            return Ok(None);
        },
    };
    match dlc_from_row(row, cets, revoked_commit) {
        Ok(found) => Ok(Some(found)),
        Err(e) => Err(e),
    }
}

/// The first row of contract data of a CFD under an event.
fn fetch_event_data(store: &Store, cfd_row_id: i64, event_row_id: i64) -> (row: Option<
    &RolloverCompletedEventData,
>)
    ensures
        match find_event_data(store@.event_data, cfd_row_id, event_row_id) {
            Some(found) => row matches Some(r) && r@ == found,
            None => row is None,
        },
{
    let rows = &store.rollover_completed_event_data;
    let mut i: usize = 0;
    while i < rows.len()
        invariant
            i <= rows.len(),
            rows == &store.rollover_completed_event_data,
            find_event_data(views(rows@).subrange(0, i as int), cfd_row_id, event_row_id).is_none(),
        decreases rows.len() - i,
    {
        proof {
            let next = views(rows@).subrange(0, i + 1);
            assert(next.drop_last() =~= views(rows@).subrange(0, i as int));
        }
        if rows[i].cfd_id == cfd_row_id && rows[i].event_id == event_row_id {
            proof {
                lemma_find_prefix(views(rows@), i + 1, cfd_row_id, event_row_id);
            }
            return Some(&rows[i]);
        }
        i += 1;
    }
    assert(views(rows@).subrange(0, i as int) =~= views(rows@));
    None
}

/// A row found among the first rows is the row found among all of them.
pub proof fn lemma_find_prefix(rows: Seq<EventDataView>, n: int, cfd_id: i64, event_id: i64)
    requires
        0 <= n <= rows.len(),
        find_event_data(rows.subrange(0, n), cfd_id, event_id).is_some(),
    ensures
        find_event_data(rows, cfd_id, event_id) == find_event_data(
            rows.subrange(0, n),
            cfd_id,
            event_id,
        ),
    decreases rows.len() - n,
{
    if n < rows.len() {
        let next = rows.subrange(0, n + 1);
        assert(next.drop_last() =~= rows.subrange(0, n));
        lemma_find_prefix(rows, n + 1, cfd_id, event_id);
    } else {
        assert(rows.subrange(0, n) =~= rows);
    }
}

/// The contract and the funding fee of a row of contract data.
pub fn dlc_from_row(row: &RolloverCompletedEventData, cets: Cets, revoked_commit: Vec<
    RevokedCommit,
>) -> (loaded: Result<(Dlc, FundingFee), Error>)
    requires
        cets.wf(),
    ensures
        match dlc_of_row(row@, cets.entries(), revoked_views(revoked_commit@)) {
            Ok((dlc, funding_fee)) => loaded matches Ok(found) && found.0@ == dlc && found.1
                == funding_fee && found.0@.wf(),
            Err(e) => loaded matches Err(error) && error == e,
        },
{
    let maker_address = match Address::parse(row.maker_address.as_str()) {
        Some(a) => a,
        None => {
            return Err(Error::InvalidAddress);
        },
    };
    let taker_address = match Address::parse(row.taker_address.as_str()) {
        Some(a) => a,
        None => {
            return Err(Error::InvalidAddress);
        },
    };
    let lock_descriptor = match Descriptor::parse(row.lock_tx_descriptor.as_str()) {
        Some(d) => d,
        None => {
            return Err(Error::InvalidDescriptor);
        },
    };
    let commit_descriptor = match Descriptor::parse(row.commit_descriptor.as_str()) {
        Some(d) => d,
        None => {
            return Err(Error::InvalidDescriptor);
        },
    };
    let refund_signature = match Signature::parse(row.refund_signature.as_str()) {
        Some(s) => s,
        None => {
            return Err(Error::InvalidSignature);
        },
    };
    let maker_lock_amount = match amount_from_sql(row.maker_lock_amount) {
        Ok(a) => a,
        Err(e) => {
            return Err(e);
        },
    };
    let taker_lock_amount = match amount_from_sql(row.taker_lock_amount) {
        Ok(a) => a,
        Err(e) => {
            return Err(e);
        },
    };
    let refund_timelock = match timelock_from_sql(row.refund_timelock) {
        Ok(t) => t,
        Err(e) => {
            return Err(e);
        },
    };
    let fee = match amount_from_sql(row.funding_fee) {
        Ok(a) => a,
        Err(e) => {
            return Err(e);
        },
    };
    let dlc = Dlc {
        identity: row.identity,
        identity_counterparty: PublicKey { bytes: copy_bytes(&row.identity_counterparty.bytes) },
        revocation: row.revocation_secret,
        revocation_pk_counterparty: PublicKey {
            bytes: copy_bytes(&row.revocation_pk_counterparty.bytes),
        },
        publish: row.publish_sk,
        publish_pk_counterparty: PublicKey { bytes: copy_bytes(&row.publish_pk_counterparty.bytes) },
        maker_address,
        taker_address,
        lock: Lock { tx: Transaction { bytes: copy_bytes(&row.lock_tx.bytes) }, descriptor: lock_descriptor },
        commit: Commit {
            tx: Transaction { bytes: copy_bytes(&row.commit_tx.bytes) },
            adaptor_signature: AdaptorSignature {
                bytes: copy_bytes(&row.commit_adaptor_signature.bytes),
            },
            descriptor: commit_descriptor,
        },
        refund: Refund {
            tx: Transaction { bytes: copy_bytes(&row.refund_tx.bytes) },
            signature: refund_signature,
        },
        cets,
        maker_lock_amount,
        taker_lock_amount,
        revoked_commit,
        settlement_event_id: row.settlement_event_id,
        refund_timelock,
    };
    let funding_fee = FundingFee { fee, rate: row.rate };
    Ok((dlc, funding_fee))
}

/// The revoked commit transactions of a CFD, in the order of their rows.
fn load_revoked_commit_transactions(store: &Store, cfd_row_id: i64) -> (loaded: Result<
    Vec<RevokedCommit>,
    Error,
>)
    ensures
        match load_revoked_spec(store@.revoked, cfd_row_id) {
            Ok(revoked) => loaded matches Ok(found) && revoked_views(found@) == revoked,
            Err(e) => loaded matches Err(error) && error == e,
        },
{
    let rows = &store.revoked_commit_transactions;
    let mut revoked_commit: Vec<RevokedCommit> = Vec::new();
    let mut i: usize = 0;
    assert(revoked_views(revoked_commit@) =~= Seq::<RevokedCommitView>::empty());
    while i < rows.len()
        invariant
            i <= rows.len(),
            rows == &store.revoked_commit_transactions,
            load_revoked_spec(views(rows@).subrange(0, i as int), cfd_row_id) == Ok::<
                Seq<RevokedCommitView>,
                Error,
            >(revoked_views(revoked_commit@)),
        decreases rows.len() - i,
    {
        let row = &rows[i];
        proof {
            let next = views(rows@).subrange(0, i + 1);
            assert(next.drop_last() =~= views(rows@).subrange(0, i as int));
        }
        if row.cfd_id == cfd_row_id {
            let script_pubkey = match Script::from_hex(row.script_pubkey.as_str()) {
                Some(script) => script,
                None => {
                    proof {
                        lemma_revoked_error_prefix(views(rows@), i + 1, cfd_row_id);
                    }
                    return Err(Error::InvalidScript);
                },
            };
            let ghost before = revoked_views(revoked_commit@);
            let revoked = RevokedCommit {
                encsig_ours: AdaptorSignature { bytes: copy_bytes(&row.encsig_ours.bytes) },
                revocation_sk_theirs: row.revocation_sk_theirs,
                publication_pk_theirs: PublicKey {
                    bytes: copy_bytes(&row.publication_pk_theirs.bytes),
                },
                script_pubkey,
                txid: Txid { bytes: copy_bytes(&row.txid.bytes) },
            };
            revoked_commit.push(revoked);
            assert(revoked_views(revoked_commit@) =~= before.push(revoked@));
        }
        i += 1;
    }
    assert(views(rows@).subrange(0, i as int) =~= views(rows@));
    Ok(revoked_commit)
}

/// An error among the first rows is the error of all of them.
pub proof fn lemma_revoked_error_prefix(rows: Seq<RevokedRowView>, n: int, cfd_id: i64)
    requires
        0 <= n <= rows.len(),
        load_revoked_spec(rows.subrange(0, n), cfd_id) is Err,
    ensures
        load_revoked_spec(rows, cfd_id) == load_revoked_spec(rows.subrange(0, n), cfd_id),
    decreases rows.len() - n,
{
    if n < rows.len() {
        let next = rows.subrange(0, n + 1);
        assert(next.drop_last() =~= rows.subrange(0, n));
        lemma_revoked_error_prefix(rows, n + 1, cfd_id);
    } else {
        assert(rows.subrange(0, n) =~= rows);
    }
}

/// An error among the first rows is the error of all of them.
pub proof fn lemma_cets_error_prefix(rows: Seq<CetRowView>, n: int, cfd_id: i64)
    requires
        0 <= n <= rows.len(),
        load_cets_spec(rows.subrange(0, n), cfd_id) is Err,
    ensures
        load_cets_spec(rows, cfd_id) == load_cets_spec(rows.subrange(0, n), cfd_id),
    decreases rows.len() - n,
{
    if n < rows.len() {
        let next = rows.subrange(0, n + 1);
        assert(next.drop_last() =~= rows.subrange(0, n));
        lemma_cets_error_prefix(rows, n + 1, cfd_id);
    } else {
        assert(rows.subrange(0, n) =~= rows);
    }
}

/// The CET of a row.
pub fn cet_from_row(row: &OpenCet) -> (cet: Result<Cet, Error>)
    ensures
        match cet_of_row(row@) {
            Ok(view) => cet matches Ok(c) && c@ == view,
            Err(e) => cet matches Err(error) && error == e,
        },
{
    let maker_amount = match amount_from_sql(row.maker_amount) {
        Ok(a) => a,
        Err(e) => {
            return Err(e);
        },
    };
    let taker_amount = match amount_from_sql(row.taker_amount) {
        Ok(a) => a,
        Err(e) => {
            return Err(e);
        },
    };
    Ok(
        Cet {
            maker_amount,
            taker_amount,
            adaptor_sig: AdaptorSignature { bytes: copy_bytes(&row.adaptor_sig.bytes) },
            range: PriceRange {
                start: u64_from_sql(row.range_start),
                end: u64_from_sql(row.range_end),
            },
            n_bits: u64_from_sql(row.n_bits),
            txid: Txid { bytes: copy_bytes(&row.txid.bytes) },
        },
    )
}

/// The CETs of a CFD, grouped by the oracle event that each is for.
fn load_cets(store: &Store, cfd_row_id: i64) -> (loaded: Result<Cets, Error>)
    ensures
        match load_cets_spec(store@.cets, cfd_row_id) {
            Ok(entries) => loaded matches Ok(found) && found.entries() == entries && found.wf(),
            Err(e) => loaded matches Err(error) && error == e,
        },
{
    let rows = &store.open_cets;
    let mut cets = Cets::new();
    let mut i: usize = 0;
    while i < rows.len()
        invariant
            i <= rows.len(),
            rows == &store.open_cets,
            cets.wf(),
            load_cets_spec(views(rows@).subrange(0, i as int), cfd_row_id) == Ok::<
                Seq<(BitMexPriceEventId, Seq<CetView>)>,
                Error,
            >(cets.entries()),
        decreases rows.len() - i,
    {
        let row = &rows[i];
        proof {
            let next = views(rows@).subrange(0, i + 1);
            assert(next.drop_last() =~= views(rows@).subrange(0, i as int));
        }
        if row.cfd_id == cfd_row_id {
            match cet_from_row(row) {
                Ok(cet) => {
                    cets.push(row.oracle_event_id, cet);
                },
                Err(e) => {
                    proof {
                        lemma_cets_error_prefix(views(rows@), i + 1, cfd_row_id);
                    }
                    return Err(e);
                },
            }
        }
        i += 1;
    }
    assert(views(rows@).subrange(0, i as int) =~= views(rows@));
    Ok(cets)
}

} // verus!
