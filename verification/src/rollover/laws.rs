//! What is written can be read back.

use crate::chain::{is_address, is_descriptor, is_signature};
use crate::hex::lemma_hex_round_trip;
use crate::model::{
    entries_push, entries_wf, lemma_position_of, position_of, BitMexPriceEventId, CetView,
    DlcView, FundingFee, RevokedCommitView,
};
use crate::models::OrderId;
use crate::rollover::insert::{
    cet_fits, cet_row_view, cet_rows, cets_fit, entry_rows, event_data_fits, event_data_row_view,
    insert_spec, revoked_row_view, revoked_rows,
};
use crate::rollover::load::{
    cet_of_row, dlc_of_row, find_event_data, load_cets_spec, load_revoked_spec, load_spec,
    revoked_of_row,
};
use crate::rollover::store::{
    cfd_id_of, without_cfd, CetRowView, EventDataView, OpenCet, RevokedCommitTransaction,
    RevokedRowView, RolloverCompletedEventData, Row, StoreView,
};
use crate::rollover::Error;
use vstd::prelude::*;

verus! {

/// After the snapshot of a rollover was written for an order, reading it by
/// the row ids of the CFD and of the event gives the same contract and the
/// same funding fee.
///
/// This holds of a contract whose amounts are below 2^63 satoshis, for an
/// order that the tables know.
pub proof fn lemma_load_after_insert(
    store: StoreView,
    event_id: i64,
    order_id: OrderId,
    dlc: DlcView,
    funding_fee: FundingFee,
)
    requires
        dlc.wf(),
        event_data_fits(dlc, funding_fee),
        cets_fit(dlc.cets),
        cfd_id_of(store.cfds, order_id).is_some(),
    ensures
        insert_spec(store, event_id, order_id, dlc, funding_fee) is Ok,
        load_spec(
            insert_spec(store, event_id, order_id, dlc, funding_fee).unwrap(),
            cfd_id_of(store.cfds, order_id).unwrap(),
            event_id,
        ) == Ok::<Option<(DlcView, FundingFee)>, Error>(Some((dlc, funding_fee))),
{
    let cfd_id = cfd_id_of(store.cfds, order_id).unwrap();
    let row = event_data_row_view(cfd_id, event_id, dlc, funding_fee);

    let kept_revoked = without_cfd::<RevokedCommitTransaction>(store.revoked, cfd_id);
    lemma_without_cfd::<RevokedCommitTransaction>(store.revoked, cfd_id);
    lemma_revoked_of_others(kept_revoked, cfd_id);
    lemma_revoked_read_back(kept_revoked, cfd_id, dlc.revoked_commit, dlc.revoked_commit.len() as int);
    assert(dlc.revoked_commit.subrange(0, dlc.revoked_commit.len() as int) =~= dlc.revoked_commit);

    let kept_cets = without_cfd::<OpenCet>(store.cets, cfd_id);
    lemma_without_cfd::<OpenCet>(store.cets, cfd_id);
    lemma_cets_of_others(kept_cets, cfd_id);
    lemma_cets_read_back(kept_cets, cfd_id, dlc.cets, dlc.cets.len() as int);
    assert(dlc.cets.subrange(0, dlc.cets.len() as int) =~= dlc.cets);

    let kept_data = without_cfd::<RolloverCompletedEventData>(store.event_data, cfd_id);
    lemma_without_cfd::<RolloverCompletedEventData>(store.event_data, cfd_id);
    lemma_find_among_others(kept_data, cfd_id, event_id);
    assert(kept_data.push(row).drop_last() =~= kept_data);
}

/// Whether no row belongs to a CFD.
pub open spec fn none_of_cfd<R: Row>(rows: Seq<R::V>, cfd_id: i64) -> bool {
    forall|i: int| 0 <= i < rows.len() ==> R::row_cfd_id(#[trigger] rows[i]) != cfd_id
}

/// What is left after the rows of a CFD were taken out holds none of them.
pub proof fn lemma_without_cfd<R: Row>(rows: Seq<R::V>, cfd_id: i64)
    ensures
        none_of_cfd::<R>(without_cfd::<R>(rows, cfd_id), cfd_id),
    decreases rows.len(),
{
    if rows.len() > 0 {
        lemma_without_cfd::<R>(rows.drop_last(), cfd_id);
    }
}

/// The row of contract data holds the contract that it was made of.
pub proof fn lemma_row_read_back(cfd_id: i64, event_id: i64, dlc: DlcView, funding_fee: FundingFee)
    requires
        dlc.wf(),
        event_data_fits(dlc, funding_fee),
    ensures
        dlc_of_row(
            event_data_row_view(cfd_id, event_id, dlc, funding_fee),
            dlc.cets,
            dlc.revoked_commit,
        ) == Ok::<(DlcView, FundingFee), Error>((dlc, funding_fee)),
{}

proof fn lemma_find_among_others(rows: Seq<EventDataView>, cfd_id: i64, event_id: i64)
    requires
        none_of_cfd::<RolloverCompletedEventData>(rows, cfd_id),
    ensures
        find_event_data(rows, cfd_id, event_id).is_none(),
    decreases rows.len(),
{
    if rows.len() > 0 {
        let init = rows.drop_last();
        lemma_find_among_others(init, cfd_id, event_id);
    }
}

proof fn lemma_revoked_of_others(rows: Seq<RevokedRowView>, cfd_id: i64)
    requires
        none_of_cfd::<RevokedCommitTransaction>(rows, cfd_id),
    ensures
        load_revoked_spec(rows, cfd_id) == Ok::<Seq<RevokedCommitView>, Error>(Seq::empty()),
    decreases rows.len(),
{
    if rows.len() > 0 {
        let init = rows.drop_last();
        lemma_revoked_of_others(init, cfd_id);
    }
}

proof fn lemma_cets_of_others(rows: Seq<CetRowView>, cfd_id: i64)
    requires
        none_of_cfd::<OpenCet>(rows, cfd_id),
    ensures
        load_cets_spec(rows, cfd_id) == Ok::<Seq<(BitMexPriceEventId, Seq<CetView>)>, Error>(
            Seq::empty(),
        ),
    decreases rows.len(),
{
    if rows.len() > 0 {
        let init = rows.drop_last();
        lemma_cets_of_others(init, cfd_id);
    }
}

/// The rows of the first `n` revoked commit transactions, behind rows of
/// other CFDs, hold those transactions.
proof fn lemma_revoked_read_back(
    others: Seq<RevokedRowView>,
    cfd_id: i64,
    revoked: Seq<RevokedCommitView>,
    n: int,
)
    requires
        load_revoked_spec(others, cfd_id) == Ok::<Seq<RevokedCommitView>, Error>(Seq::empty()),
        0 <= n <= revoked.len(),
    ensures
        load_revoked_spec(others + revoked_rows(cfd_id, revoked.subrange(0, n)), cfd_id) == Ok::<
            Seq<RevokedCommitView>,
            Error,
        >(revoked.subrange(0, n)),
    decreases n,
{
    if n == 0 {
        assert(revoked.subrange(0, 0) =~= Seq::<RevokedCommitView>::empty());
    } else {
        lemma_revoked_read_back(others, cfd_id, revoked, n - 1);
        let rows = others + revoked_rows(cfd_id, revoked.subrange(0, n));
        let r = revoked[n - 1];
        assert(rows.drop_last() =~= others + revoked_rows(cfd_id, revoked.subrange(0, n - 1)));
        lemma_hex_round_trip(r.script_pubkey);
        assert(revoked.subrange(0, n - 1).push(r) =~= revoked.subrange(0, n));
    }
}

/// The row of a CET holds that CET.
pub proof fn lemma_cet_read_back(cfd_id: i64, event_id: BitMexPriceEventId, cet: CetView)
    requires
        cet_fits(cet),
    ensures
        cet_of_row(cet_row_view(cfd_id, event_id, cet)) == Ok::<CetView, Error>(cet),
{}

/// The rows of the first `n` CETs of one event, behind rows that hold
/// `entries` without that event, hold `entries` and then that event with
/// those CETs.
proof fn lemma_entry_read_back(
    rows: Seq<CetRowView>,
    cfd_id: i64,
    entries: Seq<(BitMexPriceEventId, Seq<CetView>)>,
    event_id: BitMexPriceEventId,
    cets: Seq<CetView>,
    n: int,
)
    requires
        load_cets_spec(rows, cfd_id) == Ok::<Seq<(BitMexPriceEventId, Seq<CetView>)>, Error>(
            entries,
        ),
        position_of(entries, event_id).is_none(),
        1 <= n <= cets.len(),
        forall|j: int| 0 <= j < cets.len() ==> cet_fits(#[trigger] cets[j]),
    ensures
        load_cets_spec(rows + entry_rows(cfd_id, event_id, cets.subrange(0, n)), cfd_id) == Ok::<
            Seq<(BitMexPriceEventId, Seq<CetView>)>,
            Error,
        >(entries.push((event_id, cets.subrange(0, n)))),
    decreases n,
{
    let all = rows + entry_rows(cfd_id, event_id, cets.subrange(0, n));
    let cet = cets[n - 1];
    if n == 1 {
        assert(all.drop_last() =~= rows);
        assert(cets.subrange(0, 1) =~= seq![cet]);
    } else {
        lemma_entry_read_back(rows, cfd_id, entries, event_id, cets, n - 1);
        assert(all.drop_last() =~= rows + entry_rows(cfd_id, event_id, cets.subrange(0, n - 1)));
        let before = entries.push((event_id, cets.subrange(0, n - 1)));
        assert(before.drop_last() =~= entries);
        assert(cets.subrange(0, n - 1).push(cet) =~= cets.subrange(0, n));
        assert(entries_push(before, event_id, cet) =~= entries.push(
            (event_id, cets.subrange(0, n)),
        ));
    }
}

/// The rows of the first `n` events of a contract, behind rows of other
/// CFDs, hold those events with their CETs.
proof fn lemma_cets_read_back(
    others: Seq<CetRowView>,
    cfd_id: i64,
    entries: Seq<(BitMexPriceEventId, Seq<CetView>)>,
    n: int,
)
    requires
        load_cets_spec(others, cfd_id) == Ok::<Seq<(BitMexPriceEventId, Seq<CetView>)>, Error>(
            Seq::empty(),
        ),
        entries_wf(entries),
        cets_fit(entries),
        0 <= n <= entries.len(),
    ensures
        load_cets_spec(others + cet_rows(cfd_id, entries.subrange(0, n)), cfd_id) == Ok::<
            Seq<(BitMexPriceEventId, Seq<CetView>)>,
            Error,
        >(entries.subrange(0, n)),
    decreases n,
{
    if n == 0 {
        assert(entries.subrange(0, 0) =~= Seq::<(BitMexPriceEventId, Seq<CetView>)>::empty());
    } else {
        lemma_cets_read_back(others, cfd_id, entries, n - 1);
        let before = entries.subrange(0, n - 1);
        let entry = entries[n - 1];
        let rows = others + cet_rows(cfd_id, before);
        assert(entries.subrange(0, n).drop_last() =~= before);
        assert(others + cet_rows(cfd_id, entries.subrange(0, n)) =~= rows + entry_rows(
            cfd_id,
            entry.0,
            entry.1,
        ));
        lemma_position_of(before, entry.0);
        lemma_entry_read_back(rows, cfd_id, before, entry.0, entry.1, entry.1.len() as int);
        assert(entry.1.subrange(0, entry.1.len() as int) =~= entry.1);
        assert(before.push(entry) =~= entries.subrange(0, n));
    }
}

} // verus!
