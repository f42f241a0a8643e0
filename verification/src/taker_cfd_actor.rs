//! The taker's trading controller: the one place that decides what happens
//! to the taker's CFDs.
//!
//! The controller takes one command at a time and answers with the effects
//! that follow from it: what to keep in the store, what to show on the
//! feeds, what to send to the maker and what to tell the contract setup.
//! Whoever drives it performs them in order.
//!
//! Two things come from outside while a command is applied: the time, which
//! `handle` reads from the clock and `handle_at` is given, and the keys of a
//! contract setup, which are made afresh unless `order_accepted` is given
//! them.

use crate::cfd::{
    applied, history_of, lemma_replayed_own_history, replayed, taken, Cfd, CfdState, Order,
};
use crate::keypair::public_key_of;
use crate::model::{CfdEvent, Dlc, EventKind, FundingFee, PublicKey, Usd};
use crate::models::{OrderId, SecretKey};
use crate::wire::{MakerToTaker, SetupMsg, TakerToMaker};
use std::time::SystemTime;
use vstd::prelude::*;

verus! {

/// The contract that a setup ended with.
#[derive(Clone, Debug, PartialEq)]
pub struct FinalizedCfd {
    pub order_id: OrderId,
    pub dlc: Dlc,
    pub funding_fee: FundingFee,
}

/// What the controller is told.
#[derive(Debug)]
pub enum Command {
    SyncWallet,
    TakeOrder { order_id: OrderId, quantity: Usd },
    NewOrder(Option<Order>),
    OrderAccepted(OrderId),
    IncProtocolMsg(SetupMsg),
    CfdSetupCompleted(FinalizedCfd),
}

impl Command {
    /// The command that a message of the maker stands for.
    pub fn from_maker(msg: MakerToTaker) -> (command: Command)
        ensures
            command == match msg {
                MakerToTaker::OrderAccepted(order_id) => Command::OrderAccepted(order_id),
                MakerToTaker::NewOrder(order) => Command::NewOrder(order),
                MakerToTaker::Protocol(setup_msg) => Command::IncProtocolMsg(setup_msg),
            },
    {
        match msg {
            MakerToTaker::OrderAccepted(order_id) => Command::OrderAccepted(order_id),
            MakerToTaker::NewOrder(order) => Command::NewOrder(order),
            MakerToTaker::Protocol(setup_msg) => Command::IncProtocolMsg(setup_msg),
        }
    }
}

/// Why a command was not applied. The controller is then as it was.
#[derive(Clone, Copy, Debug, PartialEq, Eq, Structural)]
pub enum Error {
    /// There is no order with the identifier.
    OrderNotFound,
    /// There is an order with the identifier already.
    OrderAlreadyExists,
    /// There is a CFD for the order already.
    CfdAlreadyExists,
    /// There is no CFD for the order.
    CfdNotFound,
    /// An event belongs to no CFD.
    UnknownCfd,
    /// The CFD is not in the state that the command is for.
    InvalidTransition,
    /// A message or a result of contract setup came while none was running.
    NoActiveContractSetup,
    /// The maker accepted an order while a contract setup was running.
    ContractSetupInProgress,
    /// A contract setup ended for another order than the one that is set up.
    UnexpectedContractSetup,
    /// The history cannot take another event.
    TooManyEvents,
}

/// What follows from a command.
#[derive(Debug)]
pub enum Effect {
    /// Sync the wallet and show what it holds on the wallet feed.
    SyncWallet,
    /// Keep the order in the store.
    InsertOrder(Order),
    /// Show the order, or that there is none, on the order feed.
    OrderFeed(Option<Order>),
    /// Keep the new CFD in the store.
    InsertCfd(Cfd),
    /// Show these CFDs, which are all there are, on the CFD feed.
    CfdFeed(Vec<Cfd>),
    /// Send the message to the maker.
    SendToMaker(TakerToMaker),
    /// Keep the event of the history that has this row id in the store. The
    /// row ids count the events from one.
    AppendEvent { event_id: i64 },
    /// Start the contract setup for the CFD with these keys of our own, and
    /// report its end with `Command::CfdSetupCompleted`.
    StartContractSetup { cfd: Cfd, sk: SecretKey, pk: PublicKey },
    /// Hand the message to the contract setup that is running.
    ForwardToSetup(SetupMsg),
    /// Let go of the contract setup: it is over.
    DropContractSetup,
}

/// The controller's state.
#[derive(Debug)]
pub struct TakerCfdActor {
    orders: Vec<Order>,
    cfds: Vec<Cfd>,
    events: Vec<CfdEvent>,
    current_contract_setup: Option<OrderId>,
}

pub ghost struct ActorView {
    /// The orders that the maker published.
    pub orders: Seq<Order>,
    /// The CFDs, in the order in which they were taken.
    pub cfds: Seq<Cfd>,
    /// The history of all CFDs, in the order in which it happened.
    pub events: Seq<CfdEvent>,
    /// The order whose contract is being set up.
    pub current_contract_setup: Option<OrderId>,
}

/// The first order with an identifier.
pub open spec fn find_order(orders: Seq<Order>, id: OrderId) -> Option<Order>
    decreases orders.len(),
{
    if orders.len() == 0 {
        None
    } else {
        match find_order(orders.drop_last(), id) {
            Some(order) => Some(order),
            None => if orders.last().id == id {
                Some(orders.last())
            } else {
                None
            },
        }
    }
}

/// The place of the first CFD of an order.
pub open spec fn find_cfd(cfds: Seq<Cfd>, id: OrderId) -> Option<int>
    decreases cfds.len(),
{
    if cfds.len() == 0 {
        None
    } else {
        match find_cfd(cfds.drop_last(), id) {
            Some(i) => Some(i),
            None => if cfds.last().order.id == id {
                Some(cfds.len() - 1)
            } else {
                None
            },
        }
    }
}

/// What `find_cfd` finds is a place of a CFD of the order, and without one
/// there is none.
pub proof fn lemma_find_cfd(cfds: Seq<Cfd>, id: OrderId)
    ensures
        match find_cfd(cfds, id) {
            Some(i) => 0 <= i < cfds.len() && cfds[i].order.id == id,
            None => forall|j: int| 0 <= j < cfds.len() ==> (#[trigger] cfds[j]).order.id != id,
        },
    decreases cfds.len(),
{
    if cfds.len() > 0 {
        let init = cfds.drop_last();
        lemma_find_cfd(init, id);
        if find_cfd(init, id).is_none() {
            assert forall|j: int| 0 <= j < cfds.len() - 1 implies (#[trigger] cfds[j]).order.id
                != id by {
                assert(init[j] == cfds[j]);
            }
        }
    }
}

/// What `find_order` finds is an order with the identifier.
pub proof fn lemma_find_order(orders: Seq<Order>, id: OrderId)
    ensures
        match find_order(orders, id) {
            Some(order) => order.id == id && orders.contains(order),
            None => forall|j: int| 0 <= j < orders.len() ==> (#[trigger] orders[j]).id != id,
        },
    decreases orders.len(),
{
    if orders.len() > 0 {
        let init = orders.drop_last();
        lemma_find_order(init, id);
        if find_order(init, id).is_none() {
            assert forall|j: int| 0 <= j < orders.len() - 1 implies (#[trigger] orders[j]).id
                != id by {
                assert(init[j] == orders[j]);
            }
        }
    }
}

/// A history without events of a CFD leaves the CFD as it is.
pub proof fn lemma_replayed_without_events(cfd: Cfd, events: Seq<CfdEvent>)
    requires
        forall|k: int| 0 <= k < events.len() ==> (#[trigger] events[k]).id != cfd.order.id,
    ensures
        replayed(cfd, events) == cfd,
    decreases events.len(),
{
    if events.len() > 0 {
        let init = events.drop_last();
        lemma_replayed_without_events(cfd, init);
    }
}

/// Whether no two CFDs are for one order.
pub open spec fn distinct_orders(cfds: Seq<Cfd>) -> bool {
    forall|i: int, j: int|
        0 <= i < j < cfds.len() ==> (#[trigger] cfds[i]).order.id != (#[trigger] cfds[j]).order.id
}

/// Whether each event belongs to one of the CFDs.
pub open spec fn events_belong(cfds: Seq<Cfd>, events: Seq<CfdEvent>) -> bool {
    forall|k: int| 0 <= k < events.len() ==> find_cfd(cfds, (#[trigger] events[k]).id).is_some()
}

impl ActorView {
    /// To an order belongs at most one CFD.
    pub open spec fn distinct_cfds(self) -> bool {
        distinct_orders(self.cfds)
    }

    /// Each CFD is what the history makes of the CFD as it was taken.
    pub open spec fn cfds_follow_history(self) -> bool {
        forall|i: int|
            0 <= i < self.cfds.len() ==> #[trigger] self.cfds[i] == replayed(
                taken(self.cfds[i].order, self.cfds[i].quantity, self.cfds[i].created),
                self.events,
            )
    }

    /// Each event of the history belongs to a CFD.
    pub open spec fn events_have_cfds(self) -> bool {
        events_belong(self.cfds, self.events)
    }

    /// The contract that is being set up is that of a CFD in contract setup.
    pub open spec fn setup_has_cfd(self) -> bool {
        match self.current_contract_setup {
            Some(id) => match find_cfd(self.cfds, id) {
                Some(i) => self.cfds[i].state is ContractSetup,
                None => false,
            },
            None => true,
        }
    }

    pub open spec fn wf(self) -> bool {
        &&& self.distinct_cfds()
        &&& self.cfds_follow_history()
        &&& self.events_have_cfds()
        &&& self.setup_has_cfd()
    }

    /// The controller with one more event in its history, applied to the CFD
    /// at a place.
    pub open spec fn with_event(self, i: int, event: CfdEvent) -> ActorView {
        ActorView {
            cfds: self.cfds.update(i, applied(self.cfds[i], event)),
            events: self.events.push(event),
            ..self
        }
    }
}

/// For any CFD of a controller in order, replaying its history from the
/// CFD as it was taken gives the CFD that the controller shows; and so does
/// replaying the history of all CFDs.
pub proof fn lemma_replay_is_projection(actor: ActorView, i: int)
    requires
        actor.wf(),
        0 <= i < actor.cfds.len(),
    ensures
        replayed(
            taken(actor.cfds[i].order, actor.cfds[i].quantity, actor.cfds[i].created),
            history_of(actor.events, actor.cfds[i].order.id),
        ) == actor.cfds[i],
        replayed(
            taken(actor.cfds[i].order, actor.cfds[i].quantity, actor.cfds[i].created),
            actor.events,
        ) == actor.cfds[i],
{
    lemma_replayed_own_history(
        taken(actor.cfds[i].order, actor.cfds[i].quantity, actor.cfds[i].created),
        actor.events,
    );
}

/// One more event for the CFD at a place keeps every CFD what the history
/// makes of it.
pub proof fn lemma_with_event(actor: ActorView, i: int, event: CfdEvent)
    requires
        actor.distinct_cfds(),
        actor.cfds_follow_history(),
        actor.events_have_cfds(),
        0 <= i < actor.cfds.len(),
        event.id == actor.cfds[i].order.id,
    ensures
        actor.with_event(i, event).distinct_cfds(),
        actor.with_event(i, event).cfds_follow_history(),
        actor.with_event(i, event).events_have_cfds(),
        forall|id: OrderId| find_cfd(actor.with_event(i, event).cfds, id) == find_cfd(actor.cfds, id),
{
    let after = actor.with_event(i, event);
    assert(after.events.drop_last() =~= actor.events);
    assert forall|id: OrderId| find_cfd(after.cfds, id) == find_cfd(actor.cfds, id) by {
        lemma_find_cfd_same_ids(actor.cfds, after.cfds, id);
    }
    assert forall|k: int| 0 <= k < after.events.len() implies find_cfd(
        after.cfds,
        (#[trigger] after.events[k]).id,
    ).is_some() by {
        if k >= actor.events.len() {
            lemma_find_cfd(actor.cfds, event.id);
        }
    }
}

/// Where two lists of CFDs are for the same orders at the same places, an
/// order's CFD is found at the same place in both.
pub proof fn lemma_find_cfd_same_ids(a: Seq<Cfd>, b: Seq<Cfd>, id: OrderId)
    requires
        a.len() == b.len(),
        forall|j: int| 0 <= j < a.len() ==> (#[trigger] a[j]).order.id == b[j].order.id,
    ensures
        find_cfd(a, id) == find_cfd(b, id),
    decreases a.len(),
{
    if a.len() > 0 {
        lemma_find_cfd_same_ids(a.drop_last(), b.drop_last(), id);
    }
}

/// Whether an effect shows exactly these CFDs on the CFD feed.
pub open spec fn is_cfd_feed(effect: Effect, cfds: Seq<Cfd>) -> bool {
    effect matches Effect::CfdFeed(shown) && shown@ == cfds
}

/// What `Command::TakeOrder` does.
pub open spec fn take_order_post(
    before: ActorView,
    after: ActorView,
    order_id: OrderId,
    quantity: Usd,
    now: SystemTime,
    outcome: Result<Vec<Effect>, Error>,
) -> bool {
    match find_order(before.orders, order_id) {
        None => outcome matches Err(e) && e == Error::OrderNotFound && after == before,
        Some(order) => if find_cfd(before.cfds, order_id).is_some() {
            outcome matches Err(e) && e == Error::CfdAlreadyExists && after == before
        } else {
            &&& after == (ActorView {
                cfds: before.cfds.push(taken(order, quantity, now)),
                ..before
            })
            &&& outcome matches Ok(effects)
            &&& effects@.len() == 3
            &&& effects@[0] == Effect::InsertCfd(taken(order, quantity, now))
            &&& is_cfd_feed(effects@[1], after.cfds)
            &&& effects@[2] == Effect::SendToMaker(TakerToMaker::TakeOrder { order_id, quantity })
        },
    }
}

/// What `Command::NewOrder` does.
pub open spec fn new_order_post(
    before: ActorView,
    after: ActorView,
    order: Option<Order>,
    outcome: Result<Vec<Effect>, Error>,
) -> bool {
    match order {
        None => {
            &&& after == before
            &&& outcome matches Ok(effects)
            &&& effects@ == seq![Effect::OrderFeed(None)]
        },
        Some(order) => if find_order(before.orders, order.id).is_some() {
            outcome matches Err(e) && e == Error::OrderAlreadyExists && after == before
        } else {
            &&& after == (ActorView { orders: before.orders.push(order), ..before })
            &&& outcome matches Ok(effects)
            &&& effects@ == seq![Effect::InsertOrder(order), Effect::OrderFeed(Some(order))]
        },
    }
}

/// What the acceptance of an order does, with the keys that were made for
/// its contract setup.
pub open spec fn order_accepted_with_post(
    before: ActorView,
    after: ActorView,
    order_id: OrderId,
    now: SystemTime,
    sk: SecretKey,
    pk: PublicKey,
    outcome: Result<Vec<Effect>, Error>,
) -> bool {
    if before.current_contract_setup.is_some() {
        outcome matches Err(e) && e == Error::ContractSetupInProgress && after == before
    } else {
        match find_cfd(before.cfds, order_id) {
            None => outcome matches Err(e) && e == Error::CfdNotFound && after == before,
            Some(i) => if !(before.cfds[i].state is PendingTakeRequest) {
                outcome matches Err(e) && e == Error::InvalidTransition && after == before
            } else if before.events.len() >= i64::MAX {
                outcome matches Err(e) && e == Error::TooManyEvents && after == before
            } else {
                let event = CfdEvent {
                    id: order_id,
                    event: EventKind::ContractSetupStarted,
                    timestamp: now,
                };
                &&& after == (ActorView {
                    current_contract_setup: Some(order_id),
                    ..before.with_event(i, event)
                })
                &&& after.cfds[i].state is ContractSetup
                &&& outcome matches Ok(effects)
                &&& effects@.len() == 3
                &&& effects@[0] == Effect::AppendEvent { event_id: after.events.len() as i64 }
                &&& is_cfd_feed(effects@[1], after.cfds)
                &&& effects@[2] == Effect::StartContractSetup { cfd: after.cfds[i], sk, pk }
            },
        }
    }
}

/// What `Command::OrderAccepted` does: what the acceptance of the order
/// does with some secret key and the public key that belongs to it.
pub open spec fn order_accepted_post(
    before: ActorView,
    after: ActorView,
    order_id: OrderId,
    now: SystemTime,
    outcome: Result<Vec<Effect>, Error>,
) -> bool {
    exists|sk: SecretKey, pk: PublicKey|
        pk@ == public_key_of(sk@) && #[trigger] order_accepted_with_post(
            before,
            after,
            order_id,
            now,
            sk,
            pk,
            outcome,
        )
}

/// What `Command::IncProtocolMsg` does.
pub open spec fn inc_protocol_msg_post(
    before: ActorView,
    after: ActorView,
    msg: SetupMsg,
    outcome: Result<Vec<Effect>, Error>,
) -> bool {
    &&& after == before
    &&& match before.current_contract_setup {
        None => outcome matches Err(e) && e == Error::NoActiveContractSetup,
        Some(_) => outcome matches Ok(effects) && effects@ == seq![Effect::ForwardToSetup(msg)],
    }
}

/// What `Command::CfdSetupCompleted` does.
pub open spec fn cfd_setup_completed_post(
    before: ActorView,
    after: ActorView,
    finalized: FinalizedCfd,
    now: SystemTime,
    outcome: Result<Vec<Effect>, Error>,
) -> bool {
    match before.current_contract_setup {
        None => outcome matches Err(e) && e == Error::NoActiveContractSetup && after == before,
        Some(id) => if id != finalized.order_id {
            outcome matches Err(e) && e == Error::UnexpectedContractSetup && after == before
        } else if before.events.len() >= i64::MAX {
            outcome matches Err(e) && e == Error::TooManyEvents && after == before
        } else {
            let event = CfdEvent {
                id,
                event: EventKind::RolloverCompleted {
                    dlc: Some(finalized.dlc),
                    funding_fee: finalized.funding_fee,
                },
                timestamp: now,
            };
            &&& find_cfd(before.cfds, id) matches Some(i)
            &&& after == (ActorView { current_contract_setup: None, ..before.with_event(i, event) })
            &&& after.cfds[i].state is Open
            &&& outcome matches Ok(effects)
            &&& effects@.len() == 3
            &&& effects@[0] == Effect::AppendEvent { event_id: after.events.len() as i64 }
            &&& is_cfd_feed(effects@[1], after.cfds)
            &&& effects@[2] == Effect::DropContractSetup
        },
    }
}

/// What a command does to the controller and what follows from it.
pub open spec fn handle_post(
    before: ActorView,
    after: ActorView,
    command: Command,
    now: SystemTime,
    outcome: Result<Vec<Effect>, Error>,
) -> bool {
    match command {
        Command::SyncWallet => {
            &&& after == before
            &&& outcome matches Ok(effects)
            &&& effects@ == seq![Effect::SyncWallet]
        },
        Command::TakeOrder { order_id, quantity } => take_order_post(
            before,
            after,
            order_id,
            quantity,
            now,
            outcome,
        ),
        Command::NewOrder(order) => new_order_post(before, after, order, outcome),
        Command::OrderAccepted(order_id) => order_accepted_post(
            before,
            after,
            order_id,
            now,
            outcome,
        ),
        Command::IncProtocolMsg(msg) => inc_protocol_msg_post(before, after, msg, outcome),
        Command::CfdSetupCompleted(finalized) => cfd_setup_completed_post(
            before,
            after,
            finalized,
            now,
            outcome,
        ),
    }
}

impl View for TakerCfdActor {
    type V = ActorView;

    closed spec fn view(&self) -> ActorView {
        ActorView {
            orders: self.orders@,
            cfds: self.cfds@,
            events: self.events@,
            current_contract_setup: self.current_contract_setup,
        }
    }
}

/// Makes a controller for the CFDs that were taken before, with the history
/// of what happened to them since: each CFD is given as it was taken and
/// comes out as its history makes it. The CFD feed is to show them at once.
///
/// Refused where two CFDs are for one order, or where an event belongs to
/// none of them.
pub fn new(cfds: Vec<Cfd>, events: Vec<CfdEvent>) -> (made: Result<
    (TakerCfdActor, Vec<Effect>),
    Error,
>)
    ensures
        !distinct_orders(cfds@) ==> (made matches Err(e) && e == Error::CfdAlreadyExists),
        distinct_orders(cfds@) && !events_belong(cfds@, events@) ==> (made matches Err(e) && e
            == Error::UnknownCfd),
        distinct_orders(cfds@) && events_belong(cfds@, events@) ==> made is Ok,
        made matches Ok(pair) ==> {
            &&& pair.0@.wf()
            &&& pair.0@.orders == Seq::<Order>::empty()
            &&& pair.0@.events == events@
            &&& pair.0@.current_contract_setup.is_none()
            &&& pair.0@.cfds.len() == cfds@.len()
            &&& forall|i: int|
                0 <= i < cfds@.len() ==> #[trigger] pair.0@.cfds[i] == replayed(
                    taken(cfds@[i].order, cfds@[i].quantity, cfds@[i].created),
                    events@,
                )
            &&& pair.1@.len() == 1
            &&& is_cfd_feed(pair.1@[0], pair.0@.cfds)
        },
{
    // to an order belongs at most one CFD
    let mut j: usize = 0;
    while j < cfds.len()
        invariant
            j <= cfds.len(),
            forall|a: int, b: int|
                0 <= a < b < j ==> (#[trigger] cfds@[a]).order.id != (#[trigger] cfds@[b]).order.id,
        decreases cfds.len() - j,
    {
        let mut i: usize = 0;
        while i < j
            invariant
                i <= j,
                j < cfds.len(),
                forall|a: int| 0 <= a < i ==> (#[trigger] cfds@[a]).order.id != cfds@[j as int].order.id,
            decreases j - i,
        {
            if cfds[i].order.id == cfds[j].order.id {
                return Err(Error::CfdAlreadyExists);
            }
            i += 1;
        }
        j += 1;
    }
    // each event belongs to a CFD
    let mut k: usize = 0;
    while k < events.len()
        invariant
            k <= events.len(),
            distinct_orders(cfds@),
            forall|a: int| 0 <= a < k ==> find_cfd(cfds@, (#[trigger] events@[a]).id).is_some(),
        decreases events.len() - k,
    {
        if position_of_cfd(&cfds, events[k].id).is_none() {
            return Err(Error::UnknownCfd);
        }
        k += 1;
    }
    let mut projected: Vec<Cfd> = Vec::new();
    let mut i: usize = 0;
    while i < cfds.len()
        invariant
            i <= cfds.len(),
            projected@.len() == i,
            forall|a: int|
                0 <= a < i ==> #[trigger] projected@[a] == replayed(
                    taken(cfds@[a].order, cfds@[a].quantity, cfds@[a].created),
                    events@,
                ),
        decreases cfds.len() - i,
    {
        let cfd = Cfd::replay(cfds[i].order, cfds[i].quantity, cfds[i].created, &events);
        projected.push(cfd);
        i += 1;
    }
    proof {
        assert forall|a: int| 0 <= a < cfds@.len() implies (#[trigger] projected@[a]).order
            == cfds@[a].order && projected@[a].quantity == cfds@[a].quantity
            && projected@[a].created == cfds@[a].created by {
            crate::cfd::lemma_replayed_keeps_terms(
                taken(cfds@[a].order, cfds@[a].quantity, cfds@[a].created),
                events@,
            );
        }
        assert forall|id: OrderId| find_cfd(projected@, id) == find_cfd(cfds@, id) by {
            lemma_find_cfd_same_ids(projected@, cfds@, id);
        }
    }
    let shown = copy_cfds(&projected);
    let actor = TakerCfdActor {
        orders: Vec::new(),
        cfds: projected,
        events,
        current_contract_setup: None,
    };
    let mut effects: Vec<Effect> = Vec::new();
    effects.push(Effect::CfdFeed(shown));
    Ok((actor, effects))
}

/// A copy of a list of CFDs.
fn copy_cfds(cfds: &Vec<Cfd>) -> (copy: Vec<Cfd>)
    ensures
        copy@ == cfds@,
{
    let mut copy: Vec<Cfd> = Vec::new();
    let mut i: usize = 0;
    while i < cfds.len()
        invariant
            i <= cfds.len(),
            copy@ == cfds@.subrange(0, i as int),
        decreases cfds.len() - i,
    {
        copy.push(cfds[i]);
        i += 1;
    }
    copy
}

/// The place of the first CFD of an order.
fn position_of_cfd(cfds: &Vec<Cfd>, id: OrderId) -> (place: Option<usize>)
    ensures
        match place {
            Some(i) => find_cfd(cfds@, id) == Some(i as int) && i < cfds@.len(),
            None => find_cfd(cfds@, id).is_none(),
        },
{
    let mut i: usize = 0;
    while i < cfds.len()
        invariant
            i <= cfds.len(),
            find_cfd(cfds@.subrange(0, i as int), id).is_none(),
        decreases cfds.len() - i,
    {
        proof {
            let next = cfds@.subrange(0, i + 1);
            assert(next.drop_last() =~= cfds@.subrange(0, i as int));
        }
        if cfds[i].order.id == id {
            proof {
                lemma_find_cfd_prefix(cfds@, i + 1, id);
            }
            return Some(i);
        }
        i += 1;
    }
    assert(cfds@.subrange(0, i as int) =~= cfds@);
    None
}

/// A CFD found among the first is found at the same place among all.
pub proof fn lemma_find_cfd_prefix(cfds: Seq<Cfd>, n: int, id: OrderId)
    requires
        0 <= n <= cfds.len(),
        find_cfd(cfds.subrange(0, n), id).is_some(),
    ensures
        find_cfd(cfds, id) == find_cfd(cfds.subrange(0, n), id),
    decreases cfds.len() - n,
{
    if n < cfds.len() {
        let next = cfds.subrange(0, n + 1);
        assert(next.drop_last() =~= cfds.subrange(0, n));
        lemma_find_cfd_prefix(cfds, n + 1, id);
    } else {
        assert(cfds.subrange(0, n) =~= cfds);
    }
}

impl TakerCfdActor {
    /// The CFD of an order, as the controller shows it.
    pub fn cfd(&self, order_id: OrderId) -> (cfd: Option<Cfd>)
        ensures
            match find_cfd(self@.cfds, order_id) {
                Some(i) => cfd == Some(self@.cfds[i]),
                None => cfd.is_none(),
            },
    {
        match position_of_cfd(&self.cfds, order_id) {
            Some(i) => Some(self.cfds[i]),
            None => None,
        }
    }

    /// The CFDs, in the order in which they were taken.
    pub fn cfds(&self) -> (cfds: Vec<Cfd>)
        ensures
            cfds@ == self@.cfds,
    {
        copy_cfds(&self.cfds)
    }

    /// The history of all CFDs.
    pub fn events(&self) -> (events: &Vec<CfdEvent>)
        ensures
            events@ == self@.events,
    {
        &self.events
    }

    /// The history of an order's CFD: its events, in the order in which
    /// they happened.
    pub fn history(&self, order_id: OrderId) -> (history: Vec<&CfdEvent>)
        ensures
            history@.map_values(|event: &CfdEvent| *event) == history_of(self@.events, order_id),
    {
        let mut history: Vec<&CfdEvent> = Vec::new();
        let mut i: usize = 0;
        while i < self.events.len()
            invariant
                i <= self.events.len(),
                history@.map_values(|event: &CfdEvent| *event) == history_of(
                    self.events@.subrange(0, i as int),
                    order_id,
                ),
            decreases self.events.len() - i,
        {
            let ghost before = history@.map_values(|event: &CfdEvent| *event);
            proof {
                let next = self.events@.subrange(0, i + 1);
                assert(next.drop_last() =~= self.events@.subrange(0, i as int));
            }
            if self.events[i].id == order_id {
                history.push(&self.events[i]);
                assert(history@.map_values(|event: &CfdEvent| *event) =~= before.push(
                    self.events@[i as int],
                ));
            }
            i += 1;
        }
        assert(self.events@.subrange(0, i as int) =~= self.events@);
        history
    }

    /// The event of the history with a row id; the row ids count from one.
    pub fn event(&self, event_id: i64) -> (event: Option<&CfdEvent>)
        ensures
            1 <= event_id <= self@.events.len() ==> event == Some(&self@.events[event_id - 1]),
            !(1 <= event_id <= self@.events.len()) ==> event.is_none(),
    {
        if event_id < 1 {
            return None;
        }
        let place = (event_id - 1) as u64;
        if place >= self.events.len() as u64 {
            return None;
        }
        Some(&self.events[place as usize])
    }

    /// The order whose contract is being set up.
    pub fn current_contract_setup(&self) -> (order_id: Option<OrderId>)
        ensures
            order_id == self@.current_contract_setup,
    {
        self.current_contract_setup
    }

    /// The first order with an identifier.
    fn load_order_by_id(&self, order_id: OrderId) -> (order: Option<Order>)
        ensures
            order == find_order(self@.orders, order_id),
    {
        let mut i: usize = 0;
        while i < self.orders.len()
            invariant
                i <= self.orders.len(),
                find_order(self.orders@.subrange(0, i as int), order_id).is_none(),
            decreases self.orders.len() - i,
        {
            proof {
                let next = self.orders@.subrange(0, i + 1);
                assert(next.drop_last() =~= self.orders@.subrange(0, i as int));
            }
            if self.orders[i].id == order_id {
                proof {
                    lemma_find_order_prefix(self.orders@, i + 1, order_id);
                }
                return Some(self.orders[i]);
            }
            i += 1;
        }
        assert(self.orders@.subrange(0, i as int) =~= self.orders@);
        None
    }

    /// Applies a command at the time that the clock shows. What follows from
    /// it is to be done in the order given; a command that cannot be applied
    /// changes nothing.
    pub fn handle(&mut self, command: Command) -> (outcome: Result<Vec<Effect>, Error>)
        requires
            old(self)@.wf(),
        ensures
            final(self)@.wf(),
            exists|now: SystemTime| #[trigger] handle_post(old(self)@, final(self)@, command, now, outcome),
    {
        let now = crate::clock::now();
        self.handle_at(command, now)
    }

    /// Applies a command at a given time.
    pub fn handle_at(&mut self, command: Command, now: SystemTime) -> (outcome: Result<
        Vec<Effect>,
        Error,
    >)
        requires
            old(self)@.wf(),
        ensures
            final(self)@.wf(),
            handle_post(old(self)@, final(self)@, command, now, outcome),
    {
        match command {
            Command::SyncWallet => {
                let mut effects: Vec<Effect> = Vec::new();
                effects.push(Effect::SyncWallet);
                Ok(effects)
            },
            Command::TakeOrder { order_id, quantity } => self.take_order(order_id, quantity, now),
            Command::NewOrder(order) => self.new_order(order),
            Command::OrderAccepted(order_id) => {
                let (sk, pk) = crate::keypair::new();
                self.order_accepted(order_id, now, sk, pk)
            },
            Command::IncProtocolMsg(msg) => self.inc_protocol_msg(msg),
            Command::CfdSetupCompleted(finalized) => self.cfd_setup_completed(finalized, now),
        }
    }

    /// Takes an order: a CFD for it waits for the maker's answer, and the
    /// maker is asked.
    pub fn take_order(&mut self, order_id: OrderId, quantity: Usd, now: SystemTime) -> (outcome:
        Result<Vec<Effect>, Error>)
        requires
            old(self)@.wf(),
        ensures
            final(self)@.wf(),
            take_order_post(old(self)@, final(self)@, order_id, quantity, now, outcome),
    {
        let current_order = match self.load_order_by_id(order_id) {
            Some(order) => order,
            None => {
                return Err(Error::OrderNotFound);
            },
        };
        if position_of_cfd(&self.cfds, order_id).is_some() {
            return Err(Error::CfdAlreadyExists);
        }
        let cfd = Cfd::new(current_order, quantity, now);
        proof {
            lemma_find_order(self@.orders, order_id);
            lemma_find_cfd(self@.cfds, order_id);
            let after = ActorView { cfds: self@.cfds.push(cfd), ..self@ };
            assert forall|id: OrderId| find_cfd(self@.cfds, id).is_some() implies find_cfd(
                after.cfds,
                id,
            ) == find_cfd(self@.cfds, id) by {
                assert(after.cfds.drop_last() =~= self@.cfds);
            }
            lemma_replayed_without_events(cfd, self@.events);
            assert(after.setup_has_cfd()) by {
                match self@.current_contract_setup {
                    Some(id) => {
                        lemma_find_cfd(self@.cfds, id);
                    },
                    None => {},
                }
            }
        }
        self.cfds.push(cfd);
        let mut effects: Vec<Effect> = Vec::new();
        effects.push(Effect::InsertCfd(cfd));
        effects.push(Effect::CfdFeed(copy_cfds(&self.cfds)));
        effects.push(Effect::SendToMaker(TakerToMaker::TakeOrder { order_id, quantity }));
        Ok(effects)
    }

    /// Takes note of the order that the maker offers, or of there being
    /// none.
    pub fn new_order(&mut self, order: Option<Order>) -> (outcome: Result<Vec<Effect>, Error>)
        requires
            old(self)@.wf(),
        ensures
            final(self)@.wf(),
            new_order_post(old(self)@, final(self)@, order, outcome),
    {
        let mut effects: Vec<Effect> = Vec::new();
        match order {
            Some(order) => {
                if self.load_order_by_id(order.id).is_some() {
                    return Err(Error::OrderAlreadyExists);
                }
                self.orders.push(order);
                effects.push(Effect::InsertOrder(order));
                effects.push(Effect::OrderFeed(Some(order)));
                assert(effects@ =~= seq![Effect::InsertOrder(order), Effect::OrderFeed(Some(order))]);
            },
            None => {
                effects.push(Effect::OrderFeed(None));
            },
        }
        Ok(effects)
    }

    /// The maker accepted an order: its CFD goes into contract setup, and
    /// the setup is to be started with the keys given.
    pub fn order_accepted(
        &mut self,
        order_id: OrderId,
        now: SystemTime,
        sk: SecretKey,
        pk: PublicKey,
    ) -> (outcome: Result<Vec<Effect>, Error>)
        requires
            old(self)@.wf(),
        ensures
            final(self)@.wf(),
            order_accepted_with_post(old(self)@, final(self)@, order_id, now, sk, pk, outcome),
    {
        if self.current_contract_setup.is_some() {
            return Err(Error::ContractSetupInProgress);
        }
        let i = match position_of_cfd(&self.cfds, order_id) {
            Some(i) => i,
            None => {
                return Err(Error::CfdNotFound);
            },
        };
        if !matches!(self.cfds[i].state, CfdState::PendingTakeRequest { .. }) {
            return Err(Error::InvalidTransition);
        }
        if self.events.len() as u64 >= 0x7fff_ffff_ffff_ffff {
            return Err(Error::TooManyEvents);
        }
        let event = CfdEvent { id: order_id, event: EventKind::ContractSetupStarted, timestamp: now };
        proof {
            lemma_find_cfd(self@.cfds, order_id);
            lemma_with_event(self@, i as int, event);
        }
        let cfd = self.cfds[i].apply(&event);
        self.cfds.set(i, cfd);
        self.events.push(event);
        self.current_contract_setup = Some(order_id);
        let event_id = self.events.len() as i64;
        let mut effects: Vec<Effect> = Vec::new();
        effects.push(Effect::AppendEvent { event_id });
        effects.push(Effect::CfdFeed(copy_cfds(&self.cfds)));
        effects.push(Effect::StartContractSetup { cfd, sk, pk });
        Ok(effects)
    }

    /// A message of contract setup came from the maker: it goes to the setup
    /// that is running.
    pub fn inc_protocol_msg(&mut self, msg: SetupMsg) -> (outcome: Result<Vec<Effect>, Error>)
        requires
            old(self)@.wf(),
        ensures
            final(self)@.wf(),
            inc_protocol_msg_post(old(self)@, final(self)@, msg, outcome),
    {
        match self.current_contract_setup {
            None => Err(Error::NoActiveContractSetup),
            Some(_) => {
                let mut effects: Vec<Effect> = Vec::new();
                effects.push(Effect::ForwardToSetup(msg));
                Ok(effects)
            },
        }
    }

    /// The contract setup ended with a contract: the contract enters the
    /// history, the CFD is open and the setup is let go.
    pub fn cfd_setup_completed(&mut self, finalized: FinalizedCfd, now: SystemTime) -> (outcome:
        Result<Vec<Effect>, Error>)
        requires
            old(self)@.wf(),
        ensures
            final(self)@.wf(),
            cfd_setup_completed_post(old(self)@, final(self)@, finalized, now, outcome),
    {
        let id = match self.current_contract_setup {
            Some(id) => id,
            None => {
                return Err(Error::NoActiveContractSetup);
            },
        };
        if id != finalized.order_id {
            return Err(Error::UnexpectedContractSetup);
        }
        if self.events.len() as u64 >= 0x7fff_ffff_ffff_ffff {
            return Err(Error::TooManyEvents);
        }
        let i = match position_of_cfd(&self.cfds, id) {
            Some(i) => i,
            None => {
                // a setup that is running has its CFD
                return Err(Error::CfdNotFound);
            },
        };
        let event = CfdEvent {
            id,
            event: EventKind::RolloverCompleted {
                dlc: Some(finalized.dlc),
                funding_fee: finalized.funding_fee,
            },
            timestamp: now,
        };
        proof {
            lemma_find_cfd(self@.cfds, id);
            lemma_with_event(self@, i as int, event);
        }
        let cfd = self.cfds[i].apply(&event);
        self.cfds.set(i, cfd);
        self.events.push(event);
        self.current_contract_setup = None;
        let event_id = self.events.len() as i64;
        let mut effects: Vec<Effect> = Vec::new();
        effects.push(Effect::AppendEvent { event_id });
        effects.push(Effect::CfdFeed(copy_cfds(&self.cfds)));
        effects.push(Effect::DropContractSetup);
        Ok(effects)
    }
}

/// An order found among the first is the order found among all.
pub proof fn lemma_find_order_prefix(orders: Seq<Order>, n: int, id: OrderId)
    requires
        0 <= n <= orders.len(),
        find_order(orders.subrange(0, n), id).is_some(),
    ensures
        find_order(orders, id) == find_order(orders.subrange(0, n), id),
    decreases orders.len() - n,
{
    if n < orders.len() {
        let next = orders.subrange(0, n + 1);
        assert(next.drop_last() =~= orders.subrange(0, n));
        lemma_find_order_prefix(orders, n + 1, id);
    } else {
        assert(orders.subrange(0, n) =~= orders);
    }
}

} // verus!
