//! A CFD and its lifecycle: the state of a CFD is what its history makes of
//! the state it was taken in.

use crate::model::{
    BitMexPriceEventId, CfdEvent, EventKind, FundingRate, Usd,
};
use crate::models::OrderId;
use std::time::SystemTime;
use vstd::prelude::*;

verus! {

/// An offer of the maker.
#[derive(Clone, Copy, Debug, PartialEq, Eq, Structural)]
pub struct Order {
    pub id: OrderId,
    pub price: Usd,
    pub min_quantity: Usd,
    pub max_quantity: Usd,
    pub leverage: u8,
    pub settlement_event_id: BitMexPriceEventId,
    pub funding_rate: FundingRate,
}

/// What every state of a CFD records.
#[derive(Clone, Copy, Debug, PartialEq, Eq)]
pub struct CfdStateCommon {
    /// When the CFD came into the state.
    pub transition_timestamp: SystemTime,
}

/// Where a CFD stands.
#[derive(Clone, Copy, Debug, PartialEq, Eq)]
#[non_exhaustive]
pub enum CfdState {
    /// The taker asked for the order; the maker has not answered.
    PendingTakeRequest { common: CfdStateCommon },
    /// The maker accepted; the contract is being set up.
    ContractSetup { common: CfdStateCommon },
    /// There is a contract.
    Open { common: CfdStateCommon },
    /// The contract was settled.
    Settled { common: CfdStateCommon },
    /// Contract setup ended without a contract.
    SetupFailed { common: CfdStateCommon },
}

/// A CFD: the order it was taken against, the quantity the taker chose, when
/// it was taken and where it stands.
#[derive(Clone, Copy, Debug, PartialEq, Eq)]
pub struct Cfd {
    pub order: Order,
    pub quantity: Usd,
    pub created: SystemTime,
    pub state: CfdState,
}

/// Whether a state can be followed by an event.
pub open spec fn accepts(state: CfdState, event: EventKind) -> bool {
    match event {
        EventKind::ContractSetupStarted => state is PendingTakeRequest,
        EventKind::ContractSetupFailed => state is ContractSetup,
        EventKind::RolloverCompleted { .. } => state is ContractSetup || state is Open,
        EventKind::SettlementCompleted => state is Open,
    }
}

/// The state that follows a state on an event at a time. An event that the
/// state cannot be followed by, and the completion of a rollover without a
/// contract, leave the state as it is.
pub open spec fn next_state(state: CfdState, event: EventKind, timestamp: SystemTime) -> CfdState {
    let common = CfdStateCommon { transition_timestamp: timestamp };
    if !accepts(state, event) {
        state
    } else {
        match event {
            EventKind::ContractSetupStarted => CfdState::ContractSetup { common },
            EventKind::ContractSetupFailed => CfdState::SetupFailed { common },
            EventKind::RolloverCompleted { dlc: Some(_), .. } => CfdState::Open { common },
            EventKind::RolloverCompleted { dlc: None, .. } => state,
            EventKind::SettlementCompleted => CfdState::Settled { common },
        }
    }
}

/// A CFD as it was taken.
pub open spec fn taken(order: Order, quantity: Usd, created: SystemTime) -> Cfd {
    Cfd {
        order,
        quantity,
        created,
        state: CfdState::PendingTakeRequest {
            common: CfdStateCommon { transition_timestamp: created },
        },
    }
}

/// A CFD after an event of a history: the events of other CFDs pass it by.
pub open spec fn applied(cfd: Cfd, event: CfdEvent) -> Cfd {
    if event.id == cfd.order.id {
        Cfd { state: next_state(cfd.state, event.event, event.timestamp), ..cfd }
    } else {
        cfd
    }
}

/// A CFD after the events of a history, in order.
pub open spec fn replayed(cfd: Cfd, events: Seq<CfdEvent>) -> Cfd
    decreases events.len(),
{
    if events.len() == 0 {
        cfd
    } else {
        applied(replayed(cfd, events.drop_last()), events.last())
    }
}

/// The events of an order among the events of all, in order: the history of
/// the order's CFD.
pub open spec fn history_of(events: Seq<CfdEvent>, id: OrderId) -> Seq<CfdEvent>
    decreases events.len(),
{
    if events.len() == 0 {
        events
    } else if events.last().id == id {
        history_of(events.drop_last(), id).push(events.last())
    } else {
        history_of(events.drop_last(), id)
    }
}

/// What the events of all CFDs make of a CFD is what its own history makes
/// of it.
pub proof fn lemma_replayed_own_history(cfd: Cfd, events: Seq<CfdEvent>)
    ensures
        replayed(cfd, history_of(events, cfd.order.id)) == replayed(cfd, events),
    decreases events.len(),
{
    if events.len() > 0 {
        lemma_replayed_own_history(cfd, events.drop_last());
        lemma_replayed_keeps_terms(cfd, events.drop_last());
        let own = history_of(events.drop_last(), cfd.order.id);
        if events.last().id == cfd.order.id {
            assert(own.push(events.last()).drop_last() =~= own);
        }
    }
}

/// Replaying does not touch what a CFD was taken with.
pub proof fn lemma_replayed_keeps_terms(cfd: Cfd, events: Seq<CfdEvent>)
    ensures
        replayed(cfd, events).order == cfd.order,
        replayed(cfd, events).quantity == cfd.quantity,
        replayed(cfd, events).created == cfd.created,
    decreases events.len(),
{
    if events.len() > 0 {
        lemma_replayed_keeps_terms(cfd, events.drop_last());
    }
}

impl CfdState {
    /// Whether the state can be followed by an event.
    pub fn accepts(&self, event: &EventKind) -> (accepted: bool)
        ensures
            accepted == accepts(*self, *event),
    {
        match event {
            EventKind::ContractSetupStarted => matches!(self, CfdState::PendingTakeRequest { .. }),
            EventKind::ContractSetupFailed => matches!(self, CfdState::ContractSetup { .. }),
            EventKind::RolloverCompleted { .. } => matches!(self, CfdState::ContractSetup { .. })
                || matches!(self, CfdState::Open { .. }),
            EventKind::SettlementCompleted => matches!(self, CfdState::Open { .. }),
        }
    }

    /// The state that follows on an event at a time.
    pub fn next(self, event: &EventKind, timestamp: SystemTime) -> (next: CfdState)
        ensures
            next == next_state(self, *event, timestamp),
    {
        let common = CfdStateCommon { transition_timestamp: timestamp };
        if !self.accepts(event) {
            return self;
        }
        match event {
            EventKind::ContractSetupStarted => CfdState::ContractSetup { common },
            EventKind::ContractSetupFailed => CfdState::SetupFailed { common },
            EventKind::RolloverCompleted { dlc: Some(_), .. } => CfdState::Open { common },
            EventKind::RolloverCompleted { dlc: None, .. } => self,
            EventKind::SettlementCompleted => CfdState::Settled { common },
        }
    }
}

impl Cfd {
    /// A CFD that was just taken: it waits for the maker's answer.
    pub fn new(order: Order, quantity: Usd, created: SystemTime) -> (cfd: Cfd)
        ensures
            cfd == taken(order, quantity, created),
    {
        Cfd {
            order,
            quantity,
            created,
            state: CfdState::PendingTakeRequest {
                common: CfdStateCommon { transition_timestamp: created },
            },
        }
    }

    /// The CFD after an event of a history.
    pub fn apply(self, event: &CfdEvent) -> (cfd: Cfd)
        ensures
            cfd == applied(self, *event),
    {
        if event.id == self.order.id {
            Cfd { state: self.state.next(&event.event, event.timestamp), ..self }
        } else {
            self
        }
    }

    /// The CFD that a history makes of an order taken at a time: each of its
    /// events in order, from the state in which the CFD was taken.
    pub fn replay(order: Order, quantity: Usd, created: SystemTime, events: &Vec<CfdEvent>) -> (cfd:
        Cfd)
        ensures
            cfd == replayed(taken(order, quantity, created), events@),
    {
        let mut cfd = Cfd::new(order, quantity, created);
        let mut i: usize = 0;
        while i < events.len()
            invariant
                i <= events.len(),
                cfd == replayed(taken(order, quantity, created), events@.subrange(0, i as int)),
            decreases events.len() - i,
        {
            proof {
                let next = events@.subrange(0, i + 1);
                assert(next.drop_last() =~= events@.subrange(0, i as int));
            }
            cfd = cfd.apply(&events[i]);
            i += 1;
        }
        assert(events@.subrange(0, i as int) =~= events@);
        cfd
    }
}

} // verus!
