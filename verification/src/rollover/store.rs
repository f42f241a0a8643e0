//! The tables, held in memory.

use crate::model::{
    AdaptorSignature, BitMexPriceEventId, FundingRate, PublicKey, Transaction, Txid,
};
use crate::models::{OrderId, SecretKey};
use vstd::prelude::*;

verus! {

/// A row of `cfds`: the row id under which the tables know a CFD.
#[derive(Clone, Copy, Debug, PartialEq, Eq, Structural)]
pub struct CfdRow {
    pub id: i64,
    pub uuid: OrderId,
}

/// A row of `rollover_completed_event_data`.
#[derive(Clone, Debug, PartialEq)]
pub struct RolloverCompletedEventData {
    pub cfd_id: i64,
    pub event_id: i64,
    pub settlement_event_id: BitMexPriceEventId,
    pub refund_timelock: i64,
    pub funding_fee: i64,
    pub rate: FundingRate,
    pub identity: SecretKey,
    pub identity_counterparty: PublicKey,
    pub maker_address: String,
    pub taker_address: String,
    pub maker_lock_amount: i64,
    pub taker_lock_amount: i64,
    pub publish_sk: SecretKey,
    pub publish_pk_counterparty: PublicKey,
    pub revocation_secret: SecretKey,
    pub revocation_pk_counterparty: PublicKey,
    pub lock_tx: Transaction,
    pub lock_tx_descriptor: String,
    pub commit_tx: Transaction,
    pub commit_adaptor_signature: AdaptorSignature,
    pub commit_descriptor: String,
    pub refund_tx: Transaction,
    pub refund_signature: String,
}

pub ghost struct EventDataView {
    pub cfd_id: i64,
    pub event_id: i64,
    pub settlement_event_id: BitMexPriceEventId,
    pub refund_timelock: i64,
    pub funding_fee: i64,
    pub rate: FundingRate,
    pub identity: Seq<u8>,
    pub identity_counterparty: Seq<u8>,
    pub maker_address: Seq<char>,
    pub taker_address: Seq<char>,
    pub maker_lock_amount: i64,
    pub taker_lock_amount: i64,
    pub publish_sk: Seq<u8>,
    pub publish_pk_counterparty: Seq<u8>,
    pub revocation_secret: Seq<u8>,
    pub revocation_pk_counterparty: Seq<u8>,
    pub lock_tx: Seq<u8>,
    pub lock_tx_descriptor: Seq<char>,
    pub commit_tx: Seq<u8>,
    pub commit_adaptor_signature: Seq<u8>,
    pub commit_descriptor: Seq<char>,
    pub refund_tx: Seq<u8>,
    pub refund_signature: Seq<char>,
}

impl View for RolloverCompletedEventData {
    type V = EventDataView;

    open spec fn view(&self) -> EventDataView {
        EventDataView {
            cfd_id: self.cfd_id,
            event_id: self.event_id,
            settlement_event_id: self.settlement_event_id,
            refund_timelock: self.refund_timelock,
            funding_fee: self.funding_fee,
            rate: self.rate,
            identity: self.identity@,
            identity_counterparty: self.identity_counterparty@,
            maker_address: self.maker_address@,
            taker_address: self.taker_address@,
            maker_lock_amount: self.maker_lock_amount,
            taker_lock_amount: self.taker_lock_amount,
            publish_sk: self.publish_sk@,
            publish_pk_counterparty: self.publish_pk_counterparty@,
            revocation_secret: self.revocation_secret@,
            revocation_pk_counterparty: self.revocation_pk_counterparty@,
            lock_tx: self.lock_tx@,
            lock_tx_descriptor: self.lock_tx_descriptor@,
            commit_tx: self.commit_tx@,
            commit_adaptor_signature: self.commit_adaptor_signature@,
            commit_descriptor: self.commit_descriptor@,
            refund_tx: self.refund_tx@,
            refund_signature: self.refund_signature@,
        }
    }
}

/// A row of `revoked_commit_transactions`.
#[derive(Clone, Debug, PartialEq)]
pub struct RevokedCommitTransaction {
    pub cfd_id: i64,
    pub encsig_ours: AdaptorSignature,
    pub publication_pk_theirs: PublicKey,
    pub revocation_sk_theirs: SecretKey,
    /// The script as hexadecimal text.
    pub script_pubkey: String,
    pub txid: Txid,
}

pub ghost struct RevokedRowView {
    pub cfd_id: i64,
    pub encsig_ours: Seq<u8>,
    pub publication_pk_theirs: Seq<u8>,
    pub revocation_sk_theirs: Seq<u8>,
    pub script_pubkey: Seq<char>,
    pub txid: Seq<u8>,
}

impl View for RevokedCommitTransaction {
    type V = RevokedRowView;

    open spec fn view(&self) -> RevokedRowView {
        RevokedRowView {
            cfd_id: self.cfd_id,
            encsig_ours: self.encsig_ours@,
            publication_pk_theirs: self.publication_pk_theirs@,
            revocation_sk_theirs: self.revocation_sk_theirs@,
            script_pubkey: self.script_pubkey@,
            txid: self.txid@,
        }
    }
}

/// A row of `open_cets`.
#[derive(Clone, Debug, PartialEq)]
pub struct OpenCet {
    pub cfd_id: i64,
    pub oracle_event_id: BitMexPriceEventId,
    pub adaptor_sig: AdaptorSignature,
    pub maker_amount: i64,
    pub taker_amount: i64,
    pub n_bits: i64,
    pub range_start: i64,
    pub range_end: i64,
    pub txid: Txid,
}

pub ghost struct CetRowView {
    pub cfd_id: i64,
    pub oracle_event_id: BitMexPriceEventId,
    pub adaptor_sig: Seq<u8>,
    pub maker_amount: i64,
    pub taker_amount: i64,
    pub n_bits: i64,
    pub range_start: i64,
    pub range_end: i64,
    pub txid: Seq<u8>,
}

impl View for OpenCet {
    type V = CetRowView;

    open spec fn view(&self) -> CetRowView {
        CetRowView {
            cfd_id: self.cfd_id,
            oracle_event_id: self.oracle_event_id,
            adaptor_sig: self.adaptor_sig@,
            maker_amount: self.maker_amount,
            taker_amount: self.taker_amount,
            n_bits: self.n_bits,
            range_start: self.range_start,
            range_end: self.range_end,
            txid: self.txid@,
        }
    }
}

/// A row that belongs to a CFD.
pub trait Row: View + Sized {
    /// The CFD that a row belongs to.
    spec fn row_cfd_id(row: Self::V) -> i64;

    fn cfd_id(&self) -> (id: i64)
        ensures
            id == Self::row_cfd_id(self@),
    ;
}

impl Row for RolloverCompletedEventData {
    open spec fn row_cfd_id(row: EventDataView) -> i64 {
        row.cfd_id
    }

    fn cfd_id(&self) -> (id: i64) {
        self.cfd_id
    }
}

impl Row for RevokedCommitTransaction {
    open spec fn row_cfd_id(row: RevokedRowView) -> i64 {
        row.cfd_id
    }

    fn cfd_id(&self) -> (id: i64) {
        self.cfd_id
    }
}

impl Row for OpenCet {
    open spec fn row_cfd_id(row: CetRowView) -> i64 {
        row.cfd_id
    }

    fn cfd_id(&self) -> (id: i64) {
        self.cfd_id
    }
}

/// The views of a table's rows, in order.
pub open spec fn views<R: View>(rows: Seq<R>) -> Seq<R::V> {
    rows.map_values(|row: R| row@)
}

/// The rows that do not belong to a CFD, in order.
pub open spec fn without_cfd<R: Row>(rows: Seq<R::V>, cfd_id: i64) -> Seq<R::V>
    decreases rows.len(),
{
    if rows.len() == 0 {
        rows
    } else if R::row_cfd_id(rows.last()) == cfd_id {
        without_cfd::<R>(rows.drop_last(), cfd_id)
    } else {
        without_cfd::<R>(rows.drop_last(), cfd_id).push(rows.last())
    }
}

/// Takes the rows of a CFD out of a table; the others keep their order.
pub fn delete_rows<R: Row>(rows: &mut Vec<R>, cfd_id: i64)
    ensures
        views(final(rows)@) == without_cfd::<R>(views(old(rows)@), cfd_id),
{
    let ghost before = views(rows@);
    let mut stack: Vec<R> = Vec::new();
    // the rows to keep, last first
    while rows.len() > 0
        invariant
            views(rows@) == before.subrange(0, rows@.len() as int),
            rows@.len() <= before.len(),
            without_cfd::<R>(before, cfd_id) == without_cfd::<R>(views(rows@), cfd_id) + views(
                stack@,
            ).reverse(),
        decreases rows.len(),
    {
        let ghost current = views(rows@);
        let row = rows.pop().unwrap();
        proof {
            assert(views(rows@) =~= current.drop_last());
        }
        if row.cfd_id() != cfd_id {
            stack.push(row);
        }
    }
    while stack.len() > 0
        invariant
            without_cfd::<R>(before, cfd_id) == views(rows@) + views(stack@).reverse(),
        decreases stack.len(),
    {
        let row = stack.pop().unwrap();
        rows.push(row);
    }
}

/// The tables.
#[derive(Clone, Debug, PartialEq)]
pub struct Store {
    pub cfds: Vec<CfdRow>,
    pub rollover_completed_event_data: Vec<RolloverCompletedEventData>,
    pub revoked_commit_transactions: Vec<RevokedCommitTransaction>,
    pub open_cets: Vec<OpenCet>,
}

pub ghost struct StoreView {
    pub cfds: Seq<CfdRow>,
    pub event_data: Seq<EventDataView>,
    pub revoked: Seq<RevokedRowView>,
    pub cets: Seq<CetRowView>,
}

impl View for Store {
    type V = StoreView;

    open spec fn view(&self) -> StoreView {
        StoreView {
            cfds: self.cfds@,
            event_data: views(self.rollover_completed_event_data@),
            revoked: views(self.revoked_commit_transactions@),
            cets: views(self.open_cets@),
        }
    }
}

/// The row id of the first CFD with an identifier, if there is one.
pub open spec fn cfd_id_of(cfds: Seq<CfdRow>, uuid: OrderId) -> Option<i64>
    decreases cfds.len(),
{
    if cfds.len() == 0 {
        None
    } else {
        match cfd_id_of(cfds.drop_last(), uuid) {
            Some(id) => Some(id),
            None => if cfds.last().uuid == uuid {
                Some(cfds.last().id)
            } else {
                None
            },
        }
    }
}

/// Whether a row id is taken.
pub open spec fn has_row_id(cfds: Seq<CfdRow>, id: i64) -> bool {
    exists|i: int| 0 <= i < cfds.len() && (#[trigger] cfds[i]).id == id
}

/// The writes of a transaction that has not been committed: the CFD whose
/// rows are deleted, and the rows to add.
#[derive(Clone, Debug, PartialEq)]
pub struct DbTransaction {
    pub deleted: Option<i64>,
    pub event_data: Vec<RolloverCompletedEventData>,
    pub revoked: Vec<RevokedCommitTransaction>,
    pub cets: Vec<OpenCet>,
}

pub ghost struct DbTransactionView {
    pub deleted: Option<i64>,
    pub event_data: Seq<EventDataView>,
    pub revoked: Seq<RevokedRowView>,
    pub cets: Seq<CetRowView>,
}

impl View for DbTransaction {
    type V = DbTransactionView;

    open spec fn view(&self) -> DbTransactionView {
        DbTransactionView {
            deleted: self.deleted,
            event_data: views(self.event_data@),
            revoked: views(self.revoked@),
            cets: views(self.cets@),
        }
    }
}

/// The tables after a transaction's writes: its deletion first, then its
/// rows at the end of each table.
pub open spec fn committed(store: StoreView, tx: DbTransactionView) -> StoreView {
    match tx.deleted {
        Some(cfd_id) => StoreView {
            cfds: store.cfds,
            event_data: without_cfd::<RolloverCompletedEventData>(store.event_data, cfd_id)
                + tx.event_data,
            revoked: without_cfd::<RevokedCommitTransaction>(store.revoked, cfd_id) + tx.revoked,
            cets: without_cfd::<OpenCet>(store.cets, cfd_id) + tx.cets,
        },
        None => StoreView {
            cfds: store.cfds,
            event_data: store.event_data + tx.event_data,
            revoked: store.revoked + tx.revoked,
            cets: store.cets + tx.cets,
        },
    }
}

impl Store {
    /// Empty tables.
    pub fn new() -> (store: Store)
        ensures
            store@ == (StoreView {
                cfds: Seq::empty(),
                event_data: Seq::empty(),
                revoked: Seq::empty(),
                cets: Seq::empty(),
            }),
    {
        let store = Store {
            cfds: Vec::new(),
            rollover_completed_event_data: Vec::new(),
            revoked_commit_transactions: Vec::new(),
            open_cets: Vec::new(),
        };
        assert(store@.event_data =~= Seq::empty());
        assert(store@.revoked =~= Seq::empty());
        assert(store@.cets =~= Seq::empty());
        store
    }

    /// The row id of a CFD.
    pub fn cfd_id(&self, uuid: OrderId) -> (id: Option<i64>)
        ensures
            id == cfd_id_of(self@.cfds, uuid),
    {
        let mut i: usize = 0;
        while i < self.cfds.len()
            invariant
                i <= self.cfds.len(),
                cfd_id_of(self.cfds@.subrange(0, i as int), uuid).is_none(),
            decreases self.cfds.len() - i,
        {
            proof {
                let next = self.cfds@.subrange(0, i + 1);
                assert(next.drop_last() =~= self.cfds@.subrange(0, i as int));
            }
            if self.cfds[i].uuid == uuid {
                proof {
                    lemma_cfd_id_prefix(self.cfds@, i + 1, uuid);
                }
                return Some(self.cfds[i].id);
            }
            i += 1;
        }
        assert(self.cfds@.subrange(0, i as int) =~= self.cfds@);
        None
    }

    /// Makes a CFD known to the tables under a row id of the caller's
    /// choice. Refused, with nothing changed, where the identifier or the
    /// row id is taken: to an identifier belongs at most one CFD.
    pub fn insert_cfd(&mut self, id: i64, uuid: OrderId) -> (inserted: bool)
        ensures
            inserted == (cfd_id_of(old(self)@.cfds, uuid).is_none() && !has_row_id(
                old(self)@.cfds,
                id,
            )),
            inserted ==> final(self)@ == (StoreView {
                cfds: old(self)@.cfds.push(CfdRow { id, uuid }),
                ..old(self)@
            }),
            !inserted ==> *final(self) == *old(self),
    {
        if self.cfd_id(uuid).is_some() {
            return false;
        }
        let mut i: usize = 0;
        while i < self.cfds.len()
            invariant
                i <= self.cfds.len(),
                forall|j: int| 0 <= j < i ==> (#[trigger] self.cfds@[j]).id != id,
            decreases self.cfds.len() - i,
        {
            if self.cfds[i].id == id {
                return false;
            }
            i += 1;
        }
        self.cfds.push(CfdRow { id, uuid });
        true
    }

    /// A transaction without writes.
    pub fn begin(&self) -> (tx: DbTransaction)
        ensures
            tx@ == (DbTransactionView {
                deleted: None,
                event_data: Seq::empty(),
                revoked: Seq::empty(),
                cets: Seq::empty(),
            }),
    {
        let tx = DbTransaction {
            deleted: None,
            event_data: Vec::new(),
            revoked: Vec::new(),
            cets: Vec::new(),
        };
        assert(tx@.event_data =~= Seq::empty());
        assert(tx@.revoked =~= Seq::empty());
        assert(tx@.cets =~= Seq::empty());
        tx
    }

    /// Makes the writes of a transaction: all of them.
    pub fn commit(&mut self, tx: DbTransaction)
        ensures
            final(self)@ == committed(old(self)@, tx@),
    {
        let mut tx = tx;
        let ghost writes = tx@;
        match tx.deleted {
            Some(cfd_id) => {
                delete_rows(&mut self.rollover_completed_event_data, cfd_id);
                delete_rows(&mut self.revoked_commit_transactions, cfd_id);
                delete_rows(&mut self.open_cets, cfd_id);
            },
            None => {},
        }
        let ghost event_data = views(self.rollover_completed_event_data@);
        let ghost revoked = views(self.revoked_commit_transactions@);
        let ghost cets = views(self.open_cets@);
        self.rollover_completed_event_data.append(&mut tx.event_data);
        self.revoked_commit_transactions.append(&mut tx.revoked);
        self.open_cets.append(&mut tx.cets);
        proof {
            assert(views(self.rollover_completed_event_data@) =~= event_data + writes.event_data);
            assert(views(self.revoked_commit_transactions@) =~= revoked + writes.revoked);
            assert(views(self.open_cets@) =~= cets + writes.cets);
        }
    }
}

/// A CFD found in the first rows is found there among all of them.
pub proof fn lemma_cfd_id_prefix(cfds: Seq<CfdRow>, n: int, uuid: OrderId)
    requires
        0 <= n <= cfds.len(),
        cfd_id_of(cfds.subrange(0, n), uuid).is_some(),
    ensures
        cfd_id_of(cfds, uuid) == cfd_id_of(cfds.subrange(0, n), uuid),
    decreases cfds.len() - n,
{
    if n < cfds.len() {
        let next = cfds.subrange(0, n + 1);
        assert(next.drop_last() =~= cfds.subrange(0, n));
        lemma_cfd_id_prefix(cfds, n + 1, uuid);
    } else {
        assert(cfds.subrange(0, n) =~= cfds);
    }
}

} // verus!
