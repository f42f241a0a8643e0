//! The data that the actors, the wire and the store share: quantities, keys
//! and the fully negotiated contract.

use crate::chain::{is_address, is_descriptor, is_signature, Address, Descriptor, Signature};
use crate::hex::{from_hex, hex_decode, hex_encode, to_hex};
use crate::models::{OrderId, SecretKey};
use std::time::SystemTime;
use vstd::prelude::*;

verus! {

/// An amount of bitcoin, in satoshis.
#[derive(Clone, Copy, Debug, PartialEq, Eq, Structural)]
pub struct Amount {
    pub sat: u64,
}

impl Amount {
    pub fn from_sat(sat: u64) -> (amount: Amount)
        ensures
            amount.sat == sat,
    {
        Amount { sat }
    }

    pub fn as_sat(self) -> (sat: u64)
        ensures
            sat == self.sat,
    {
        self.sat
    }
}

/// An amount of US dollars.
#[derive(Clone, Copy, Debug, PartialEq, Eq, Structural)]
pub struct Usd {
    pub value: u64,
}

/// The rate at which an open contract is charged at each rollover, in its
/// minor unit.
#[derive(Clone, Copy, Debug, PartialEq, Eq, Structural)]
pub struct FundingRate {
    pub value: i64,
}

/// The oracle's name for one price announcement: the time it is for and the
/// number of binary digits it attests.
#[derive(Clone, Copy, Debug, PartialEq, Eq, Hash, Structural)]
pub struct BitMexPriceEventId {
    pub timestamp: i64,
    pub digits: u64,
}

/// A range of attested prices: the first and the last, both included.
#[derive(Clone, Copy, Debug, PartialEq, Eq, Structural)]
pub struct PriceRange {
    pub start: u64,
    pub end: u64,
}

/// What is charged at a rollover.
#[derive(Clone, Copy, Debug, PartialEq, Eq, Structural)]
pub struct FundingFee {
    pub fee: Amount,
    pub rate: FundingRate,
}

/// A public key in its serialised form. The library carries it and never
/// looks inside.
#[derive(Clone, Debug, PartialEq, Eq)]
pub struct PublicKey {
    pub bytes: Vec<u8>,
}

/// An adaptor signature in its serialised form.
#[derive(Clone, Debug, PartialEq, Eq)]
pub struct AdaptorSignature {
    pub bytes: Vec<u8>,
}

/// A transaction in its canonical wire form.
#[derive(Clone, Debug, PartialEq, Eq)]
pub struct Transaction {
    pub bytes: Vec<u8>,
}

/// The identifier of a transaction.
#[derive(Clone, Debug, PartialEq, Eq)]
pub struct Txid {
    pub bytes: Vec<u8>,
}

/// An output script.
#[derive(Clone, Debug, PartialEq, Eq)]
pub struct Script {
    pub bytes: Vec<u8>,
}

impl View for PublicKey {
    type V = Seq<u8>;

    open spec fn view(&self) -> Seq<u8> {
        self.bytes@
    }
}

impl View for AdaptorSignature {
    type V = Seq<u8>;

    open spec fn view(&self) -> Seq<u8> {
        self.bytes@
    }
}

impl View for Transaction {
    type V = Seq<u8>;

    open spec fn view(&self) -> Seq<u8> {
        self.bytes@
    }
}

impl View for Txid {
    type V = Seq<u8>;

    open spec fn view(&self) -> Seq<u8> {
        self.bytes@
    }
}

impl View for Script {
    type V = Seq<u8>;

    open spec fn view(&self) -> Seq<u8> {
        self.bytes@
    }
}

impl Script {
    /// The script as lower-case hexadecimal text.
    pub fn to_hex(&self) -> (text: String)
        ensures
            text@ == hex_encode(self@),
    {
        to_hex(&self.bytes)
    }

    /// The script that a hexadecimal text of either case spells; none where
    /// the text is not an even number of hexadecimal digits.
    pub fn from_hex(text: &str) -> (script: Option<Script>)
        ensures
            match hex_decode(text@) {
                Some(bytes) => script matches Some(s) && s@ == bytes,
                None => script is None,
            },
    {
        match from_hex(text) {
            Some(bytes) => Some(Script { bytes }),
            None => None,
        }
    }
}

/// The record of a commit transaction that a rollover has revoked.
#[derive(Clone, Debug, PartialEq)]
pub struct RevokedCommit {
    pub encsig_ours: AdaptorSignature,
    pub publication_pk_theirs: PublicKey,
    pub revocation_sk_theirs: SecretKey,
    pub script_pubkey: Script,
    pub txid: Txid,
}

pub ghost struct RevokedCommitView {
    pub encsig_ours: Seq<u8>,
    pub publication_pk_theirs: Seq<u8>,
    pub revocation_sk_theirs: Seq<u8>,
    pub script_pubkey: Seq<u8>,
    pub txid: Seq<u8>,
}

impl View for RevokedCommit {
    type V = RevokedCommitView;

    open spec fn view(&self) -> RevokedCommitView {
        RevokedCommitView {
            encsig_ours: self.encsig_ours@,
            publication_pk_theirs: self.publication_pk_theirs@,
            revocation_sk_theirs: self.revocation_sk_theirs@,
            script_pubkey: self.script_pubkey@,
            txid: self.txid@,
        }
    }
}

/// A contract execution transaction: the spend that is signed in advance for
/// one range of attested prices.
#[derive(Clone, Debug, PartialEq, Eq)]
pub struct Cet {
    pub adaptor_sig: AdaptorSignature,
    pub maker_amount: Amount,
    pub taker_amount: Amount,
    pub n_bits: u64,
    pub range: PriceRange,
    pub txid: Txid,
}

pub ghost struct CetView {
    pub adaptor_sig: Seq<u8>,
    pub maker_amount: Amount,
    pub taker_amount: Amount,
    pub n_bits: u64,
    pub range: PriceRange,
    pub txid: Seq<u8>,
}

impl View for Cet {
    type V = CetView;

    open spec fn view(&self) -> CetView {
        CetView {
            adaptor_sig: self.adaptor_sig@,
            maker_amount: self.maker_amount,
            taker_amount: self.taker_amount,
            n_bits: self.n_bits,
            range: self.range,
            txid: self.txid@,
        }
    }
}

/// The views of a list of CETs, in order.
pub open spec fn cet_views(cets: Seq<Cet>) -> Seq<CetView> {
    cets.map_values(|cet: Cet| cet@)
}

/// The views of a list of revoked commits, in order.
pub open spec fn revoked_views(revoked: Seq<RevokedCommit>) -> Seq<RevokedCommitView> {
    revoked.map_values(|r: RevokedCommit| r@)
}

/// The CETs of one oracle event.
#[derive(Clone, Debug, PartialEq, Eq)]
pub struct EventCets {
    pub event_id: BitMexPriceEventId,
    pub cets: Vec<Cet>,
}

/// The CETs of a contract by oracle event: a mapping in which each event
/// occurs once.
#[derive(Clone, Debug, PartialEq, Eq)]
pub struct Cets {
    entries: Vec<EventCets>,
}

/// The place of an event among the entries, counted from the front.
pub open spec fn position_of(
    entries: Seq<(BitMexPriceEventId, Seq<CetView>)>,
    event_id: BitMexPriceEventId,
) -> Option<int>
    decreases entries.len(),
{
    if entries.len() == 0 {
        None
    } else {
        match position_of(entries.drop_last(), event_id) {
            Some(i) => Some(i),
            None => if entries.last().0 == event_id {
                Some(entries.len() - 1)
            } else {
                None
            },
        }
    }
}

/// Whether no event occurs twice among the entries.
pub open spec fn distinct_events(entries: Seq<(BitMexPriceEventId, Seq<CetView>)>) -> bool {
    forall|i: int, j: int|
        0 <= i < j < entries.len() ==> (#[trigger] entries[i]).0 != (#[trigger] entries[j]).0
}

/// Whether each event has at least one CET.
pub open spec fn events_have_cets(entries: Seq<(BitMexPriceEventId, Seq<CetView>)>) -> bool {
    forall|i: int| 0 <= i < entries.len() ==> (#[trigger] entries[i]).1.len() > 0
}

/// Whether the entries are those of a mapping from events to their CETs: no
/// event occurs twice, and none is without CETs.
pub open spec fn entries_wf(entries: Seq<(BitMexPriceEventId, Seq<CetView>)>) -> bool {
    distinct_events(entries) && events_have_cets(entries)
}

/// The mapping that a list of entries with distinct events stands for.
pub open spec fn entries_map(entries: Seq<(BitMexPriceEventId, Seq<CetView>)>) -> Map<
    BitMexPriceEventId,
    Seq<CetView>,
> {
    Map::new(
        |event_id: BitMexPriceEventId| position_of(entries, event_id).is_some(),
        |event_id: BitMexPriceEventId| entries[position_of(entries, event_id).unwrap()].1,
    )
}

/// What `position_of` finds is a place of the event, and the first one.
pub proof fn lemma_position_of(
    entries: Seq<(BitMexPriceEventId, Seq<CetView>)>,
    event_id: BitMexPriceEventId,
)
    ensures
        match position_of(entries, event_id) {
            Some(i) => 0 <= i < entries.len() && entries[i].0 == event_id && forall|j: int|
                0 <= j < i ==> (#[trigger] entries[j]).0 != event_id,
            None => forall|j: int| 0 <= j < entries.len() ==> (#[trigger] entries[j]).0 != event_id,
        },
    decreases entries.len(),
{
    if entries.len() > 0 {
        lemma_position_of(entries.drop_last(), event_id);
        let init = entries.drop_last();
        assert forall|j: int| 0 <= j < init.len() implies init[j] == entries[j] by {}
    }
}

impl Cets {
    /// The entries in the order in which they were added.
    pub closed spec fn entries(&self) -> Seq<(BitMexPriceEventId, Seq<CetView>)> {
        self.entries@.map_values(|e: EventCets| (e.event_id, cet_views(e.cets@)))
    }

    /// Each event occurs once, with at least one CET.
    pub open spec fn wf(&self) -> bool {
        entries_wf(self.entries())
    }

    /// An empty mapping.
    pub fn new() -> (cets: Cets)
        ensures
            cets.entries() == Seq::<(BitMexPriceEventId, Seq<CetView>)>::empty(),
            cets.wf(),
    {
        let cets = Cets { entries: Vec::new() };
        cets
    }

    /// The number of events.
    pub fn len(&self) -> (n: usize)
        ensures
            n == self.entries().len(),
    {
        self.entries.len()
    }

    /// The event and the CETs at a place.
    pub fn entry(&self, i: usize) -> (entry: &EventCets)
        requires
            i < self.entries().len(),
        ensures
            (entry.event_id, cet_views(entry.cets@)) == self.entries()[i as int],
    {
        &self.entries[i]
    }

    /// The CETs of an event, if it has any entry.
    pub fn get(&self, event_id: BitMexPriceEventId) -> (cets: Option<&Vec<Cet>>)
        ensures
            cets.is_some() == self@.contains_key(event_id),
            cets matches Some(c) ==> cet_views(c@) == self@[event_id],
    {
        let mut i: usize = 0;
        while i < self.entries.len()
            invariant
                i <= self.entries.len(),
                position_of(self.entries().subrange(0, i as int), event_id).is_none(),
            decreases self.entries.len() - i,
        {
            proof {
                let next = self.entries().subrange(0, i + 1);
                assert(next.drop_last() =~= self.entries().subrange(0, i as int));
            }
            if self.entries[i].event_id == event_id {
                proof {
                    lemma_position_prefix(self.entries(), i + 1, event_id);
                }
                return Some(&self.entries[i].cets);
            }
            i += 1;
        }
        assert(self.entries().subrange(0, i as int) =~= self.entries());
        None
    }

    /// Adds a CET at the end of an event's list; the first CET of an event
    /// makes its entry.
    pub fn push(&mut self, event_id: BitMexPriceEventId, cet: Cet)
        requires
            old(self).wf(),
        ensures
            final(self).wf(),
            final(self)@ == map_push(old(self)@, event_id, cet@),
            final(self).entries() == entries_push(old(self).entries(), event_id, cet@),
    {
        let ghost before = self.entries();
        let mut i: usize = 0;
        while i < self.entries.len()
            invariant
                i <= self.entries.len(),
                self.entries() == before,
                before == old(self).entries(),
                entries_wf(before),
                position_of(before.subrange(0, i as int), event_id).is_none(),
            decreases self.entries.len() - i,
        {
            proof {
                let next = before.subrange(0, i + 1);
                assert(next.drop_last() =~= before.subrange(0, i as int));
            }
            if self.entries[i].event_id == event_id {
                proof {
                    lemma_position_prefix(before, i + 1, event_id);
                }
                let ghost old_cets = self.entries[i as int].cets@;
                self.entries[i].cets.push(cet);
                proof {
                    assert(cet_views(old_cets.push(cet)) =~= cet_views(old_cets).push(cet@));
                    let after = self.entries();
                    assert(after =~= before.update(
                        i as int,
                        (event_id, before[i as int].1.push(cet@)),
                    ));
                    lemma_entries_push_found(before, i as int, event_id, cet@);
                }
                return ;
            }
            i += 1;
        }
        proof {
            assert(before.subrange(0, i as int) =~= before);
        }
        let mut cets: Vec<Cet> = Vec::new();
        cets.push(cet);
        self.entries.push(EventCets { event_id, cets });
        proof {
            assert(cet_views(cets@) =~= seq![cet@]);
            assert(self.entries() =~= before.push((event_id, seq![cet@])));
            lemma_entries_push_absent(before, event_id, cet@);
        }
    }
}

impl View for Cets {
    type V = Map<BitMexPriceEventId, Seq<CetView>>;

    open spec fn view(&self) -> Map<BitMexPriceEventId, Seq<CetView>> {
        entries_map(self.entries())
    }
}

/// A mapping with one more CET at the end of an event's list.
pub open spec fn map_push(
    m: Map<BitMexPriceEventId, Seq<CetView>>,
    event_id: BitMexPriceEventId,
    cet: CetView,
) -> Map<BitMexPriceEventId, Seq<CetView>> {
    if m.contains_key(event_id) {
        m.insert(event_id, m[event_id].push(cet))
    } else {
        m.insert(event_id, seq![cet])
    }
}

/// The entries with one more CET at the end of an event's list, a new entry
/// at the end where the event has none.
pub open spec fn entries_push(
    entries: Seq<(BitMexPriceEventId, Seq<CetView>)>,
    event_id: BitMexPriceEventId,
    cet: CetView,
) -> Seq<(BitMexPriceEventId, Seq<CetView>)> {
    match position_of(entries, event_id) {
        Some(i) => entries.update(i, (event_id, entries[i].1.push(cet))),
        None => entries.push((event_id, seq![cet])),
    }
}

/// An event found in a prefix is found at the same place in the whole.
pub proof fn lemma_position_prefix(
    entries: Seq<(BitMexPriceEventId, Seq<CetView>)>,
    n: int,
    event_id: BitMexPriceEventId,
)
    requires
        0 <= n <= entries.len(),
        position_of(entries.subrange(0, n), event_id).is_some(),
    ensures
        position_of(entries, event_id) == position_of(entries.subrange(0, n), event_id),
    decreases entries.len() - n,
{
    if n < entries.len() {
        let next = entries.subrange(0, n + 1);
        assert(next.drop_last() =~= entries.subrange(0, n));
        lemma_position_prefix(entries, n + 1, event_id);
    } else {
        assert(entries.subrange(0, n) =~= entries);
    }
}

proof fn lemma_entries_push_found(
    entries: Seq<(BitMexPriceEventId, Seq<CetView>)>,
    i: int,
    event_id: BitMexPriceEventId,
    cet: CetView,
)
    requires
        entries_wf(entries),
        position_of(entries, event_id) == Some(i),
    ensures
        entries_wf(entries_push(entries, event_id, cet)),
        entries_map(entries_push(entries, event_id, cet)) == map_push(
            entries_map(entries),
            event_id,
            cet,
        ),
{
    lemma_position_of(entries, event_id);
    let after = entries_push(entries, event_id, cet);
    assert forall|e: BitMexPriceEventId| position_of(after, e) == position_of(entries, e) by {
        lemma_position_of(entries, e);
        lemma_position_of(after, e);
        if position_of(entries, e).is_some() {
            assert(after[position_of(entries, e).unwrap()].0 == e);
        }
    }
    let target = map_push(entries_map(entries), event_id, cet);
    assert forall|e: BitMexPriceEventId| #[trigger]
        entries_map(after).contains_key(e) implies entries_map(after)[e] == target[e] by {
        lemma_position_of(entries, e);
    }
}

proof fn lemma_entries_push_absent(
    entries: Seq<(BitMexPriceEventId, Seq<CetView>)>,
    event_id: BitMexPriceEventId,
    cet: CetView,
)
    requires
        entries_wf(entries),
        position_of(entries, event_id).is_none(),
    ensures
        entries_wf(entries_push(entries, event_id, cet)),
        entries_map(entries_push(entries, event_id, cet)) == map_push(
            entries_map(entries),
            event_id,
            cet,
        ),
{
    lemma_position_of(entries, event_id);
    let after = entries.push((event_id, seq![cet]));
    assert(after.drop_last() =~= entries);
    let target = map_push(entries_map(entries), event_id, cet);
    assert forall|e: BitMexPriceEventId| #[trigger]
        entries_map(after).contains_key(e) implies entries_map(after)[e] == target[e] by {
        lemma_position_of(entries, e);
    }
}

/// The transaction that locks both parties' funds, and the descriptor of its
/// output.
#[derive(Clone, Debug, PartialEq, Eq)]
pub struct Lock {
    pub tx: Transaction,
    pub descriptor: Descriptor,
}

/// The commit transaction, our adaptor signature on it and the descriptor of
/// its output.
#[derive(Clone, Debug, PartialEq, Eq)]
pub struct Commit {
    pub tx: Transaction,
    pub adaptor_signature: AdaptorSignature,
    pub descriptor: Descriptor,
}

/// The refund transaction and the counterparty's signature on it.
#[derive(Clone, Debug, PartialEq, Eq)]
pub struct Refund {
    pub tx: Transaction,
    pub signature: Signature,
}

/// The fully negotiated contract of one CFD.
#[derive(Clone, Debug, PartialEq)]
pub struct Dlc {
    pub identity: SecretKey,
    pub identity_counterparty: PublicKey,
    pub revocation: SecretKey,
    pub revocation_pk_counterparty: PublicKey,
    pub publish: SecretKey,
    pub publish_pk_counterparty: PublicKey,
    pub maker_address: Address,
    pub taker_address: Address,
    pub lock: Lock,
    pub commit: Commit,
    pub refund: Refund,
    pub cets: Cets,
    pub maker_lock_amount: Amount,
    pub taker_lock_amount: Amount,
    pub revoked_commit: Vec<RevokedCommit>,
    pub settlement_event_id: BitMexPriceEventId,
    pub refund_timelock: u32,
}

pub ghost struct DlcView {
    pub identity: Seq<u8>,
    pub identity_counterparty: Seq<u8>,
    pub revocation: Seq<u8>,
    pub revocation_pk_counterparty: Seq<u8>,
    pub publish: Seq<u8>,
    pub publish_pk_counterparty: Seq<u8>,
    pub maker_address: Seq<char>,
    pub taker_address: Seq<char>,
    pub lock_tx: Seq<u8>,
    pub lock_descriptor: Seq<char>,
    pub commit_tx: Seq<u8>,
    pub commit_adaptor_signature: Seq<u8>,
    pub commit_descriptor: Seq<char>,
    pub refund_tx: Seq<u8>,
    pub refund_signature: Seq<char>,
    /// The CETs by event, in the order in which the events were added.
    pub cets: Seq<(BitMexPriceEventId, Seq<CetView>)>,
    pub maker_lock_amount: Amount,
    pub taker_lock_amount: Amount,
    pub revoked_commit: Seq<RevokedCommitView>,
    pub settlement_event_id: BitMexPriceEventId,
    pub refund_timelock: u32,
}

impl View for Dlc {
    type V = DlcView;

    open spec fn view(&self) -> DlcView {
        DlcView {
            identity: self.identity@,
            identity_counterparty: self.identity_counterparty@,
            revocation: self.revocation@,
            revocation_pk_counterparty: self.revocation_pk_counterparty@,
            publish: self.publish@,
            publish_pk_counterparty: self.publish_pk_counterparty@,
            maker_address: self.maker_address@,
            taker_address: self.taker_address@,
            lock_tx: self.lock.tx@,
            lock_descriptor: self.lock.descriptor@,
            commit_tx: self.commit.tx@,
            commit_adaptor_signature: self.commit.adaptor_signature@,
            commit_descriptor: self.commit.descriptor@,
            refund_tx: self.refund.tx@,
            refund_signature: self.refund.signature@,
            cets: self.cets.entries(),
            maker_lock_amount: self.maker_lock_amount,
            taker_lock_amount: self.taker_lock_amount,
            revoked_commit: revoked_views(self.revoked_commit@),
            settlement_event_id: self.settlement_event_id,
            refund_timelock: self.refund_timelock,
        }
    }
}

impl DlcView {
    /// The texts are in the form in which they are kept, and among the CETs
    /// each event occurs once, with at least one CET.
    pub open spec fn wf(self) -> bool {
        &&& is_address(self.maker_address)
        &&& is_address(self.taker_address)
        &&& is_descriptor(self.lock_descriptor)
        &&& is_descriptor(self.commit_descriptor)
        &&& is_signature(self.refund_signature)
        &&& entries_wf(self.cets)
    }

    /// The CETs as a mapping from the event to its list.
    pub open spec fn cets_by_event(self) -> Map<BitMexPriceEventId, Seq<CetView>> {
        entries_map(self.cets)
    }
}

/// What happened to a CFD.
#[derive(Clone, Debug, PartialEq)]
#[non_exhaustive]
pub enum EventKind {
    /// The maker accepted the order and contract setup began.
    ContractSetupStarted,
    /// Contract setup ended without a contract.
    ContractSetupFailed,
    /// A contract was agreed, at setup or at a rollover. Without a contract
    /// there is nothing to keep.
    RolloverCompleted { dlc: Option<Dlc>, funding_fee: FundingFee },
    /// The contract was settled.
    SettlementCompleted,
}

/// One entry of a CFD's history.
#[derive(Clone, Debug, PartialEq)]
pub struct CfdEvent {
    pub id: OrderId,
    pub event: EventKind,
    pub timestamp: SystemTime,
}

} // verus!
