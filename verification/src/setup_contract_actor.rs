//! The order of the rounds of contract setup.
//!
//! The two parties exchange one message for each of three rounds. The
//! messages of the peer are taken in the order in which they arrive, and
//! they have to arrive in the order of the rounds.

use crate::wire::SetupMsg;
use vstd::prelude::*;

verus! {

/// How far a contract setup has come.
#[derive(Clone, Copy, Debug, PartialEq, Eq, Structural)]
pub enum Phase {
    /// The message of the first round is awaited.
    AwaitingMsg0,
    /// The message of the second round is awaited.
    AwaitingMsg1,
    /// The message of the third round is awaited.
    AwaitingMsg2,
    /// All three rounds are done: there is a contract.
    Completed,
    /// A message came out of order: the setup is over, without a contract.
    Aborted,
    /// The one who waited for the contract gave up: the inbox is closed.
    Cancelled,
}

/// What became of a message that was delivered.
#[derive(Clone, Copy, Debug, PartialEq, Eq, Structural)]
pub enum Delivery {
    /// It was the message awaited; the next round is awaited now.
    Accepted,
    /// It was the message of the last round: the setup resolves with the
    /// contract.
    Completed,
    /// It was not the message awaited: the setup resolves with an error.
    Aborted,
    /// The setup was over already.
    Discarded,
}

/// The round that a message belongs to, counted from zero.
pub open spec fn round_of(msg: SetupMsg) -> int {
    match msg {
        SetupMsg::Msg0(_) => 0,
        SetupMsg::Msg1(_) => 1,
        SetupMsg::Msg2(_) => 2,
    }
}

/// The round whose message a phase awaits, if it awaits one.
pub open spec fn awaited(phase: Phase) -> Option<int> {
    match phase {
        Phase::AwaitingMsg0 => Some(0),
        Phase::AwaitingMsg1 => Some(1),
        Phase::AwaitingMsg2 => Some(2),
        _ => None,
    }
}

/// Whether a setup is over.
pub open spec fn is_over(phase: Phase) -> bool {
    awaited(phase).is_none()
}

/// What becomes of a message that is delivered in a phase.
pub open spec fn delivery(phase: Phase, msg: SetupMsg) -> Delivery {
    match awaited(phase) {
        None => Delivery::Discarded,
        Some(round) => if round_of(msg) != round {
            Delivery::Aborted
        } else if round == 2 {
            Delivery::Completed
        } else {
            Delivery::Accepted
        },
    }
}

/// The phase after a message is delivered in a phase.
pub open spec fn phase_after(phase: Phase, msg: SetupMsg) -> Phase {
    match delivery(phase, msg) {
        Delivery::Discarded => phase,
        Delivery::Aborted => Phase::Aborted,
        Delivery::Completed => Phase::Completed,
        Delivery::Accepted => if phase == Phase::AwaitingMsg0 {
            Phase::AwaitingMsg1
        } else {
            Phase::AwaitingMsg2
        },
    }
}

/// Whether a delivery resolves the setup, with a contract or with an error.
pub open spec fn resolves(delivery: Delivery) -> bool {
    delivery == Delivery::Completed || delivery == Delivery::Aborted
}

/// The phase after the messages of a list are delivered in order.
pub open spec fn phase_after_all(phase: Phase, msgs: Seq<SetupMsg>) -> Phase
    decreases msgs.len(),
{
    if msgs.len() == 0 {
        phase
    } else {
        phase_after(phase_after_all(phase, msgs.drop_last()), msgs.last())
    }
}

/// How many of the messages of a list resolve the setup when they are
/// delivered in order.
pub open spec fn resolutions(phase: Phase, msgs: Seq<SetupMsg>) -> nat
    decreases msgs.len(),
{
    if msgs.len() == 0 {
        0
    } else {
        let before = phase_after_all(phase, msgs.drop_last());
        let earlier = resolutions(phase, msgs.drop_last());
        if resolves(delivery(before, msgs.last())) {
            earlier + 1
        } else {
            earlier
        }
    }
}

/// A setup resolves at most once, whatever is delivered: a message that
/// resolves it ends it, and what is delivered after its end is discarded.
pub proof fn lemma_resolves_at_most_once(phase: Phase, msgs: Seq<SetupMsg>)
    ensures
        resolutions(phase, msgs) <= 1,
        resolutions(phase, msgs) == 1 ==> is_over(phase_after_all(phase, msgs)),
        is_over(phase) ==> resolutions(phase, msgs) == 0 && phase_after_all(phase, msgs) == phase,
    decreases msgs.len(),
{
    if msgs.len() > 0 {
        lemma_resolves_at_most_once(phase, msgs.drop_last());
    }
}

/// The three messages in the order of their rounds complete a setup.
pub proof fn lemma_rounds_in_order_complete(a: Vec<u8>, b: Vec<u8>, c: Vec<u8>)
    ensures
        phase_after_all(
            Phase::AwaitingMsg0,
            seq![SetupMsg::Msg0(a), SetupMsg::Msg1(b), SetupMsg::Msg2(c)],
        ) == Phase::Completed,
{
    let msgs = seq![SetupMsg::Msg0(a), SetupMsg::Msg1(b), SetupMsg::Msg2(c)];
    let two = msgs.drop_last();
    let one = two.drop_last();
    assert(phase_after_all(Phase::AwaitingMsg0, one.drop_last()) == Phase::AwaitingMsg0);
    assert(phase_after_all(Phase::AwaitingMsg0, one) == Phase::AwaitingMsg1);
    assert(phase_after_all(Phase::AwaitingMsg0, two) == Phase::AwaitingMsg2);
}

/// The inbox of a contract setup: it knows which round is awaited.
#[derive(Clone, Copy, Debug, PartialEq, Eq)]
pub struct Inbox {
    phase: Phase,
}

impl View for Inbox {
    type V = Phase;

    closed spec fn view(&self) -> Phase {
        self.phase
    }
}

impl Inbox {
    /// The inbox of a setup that begins.
    pub fn new() -> (inbox: Inbox)
        ensures
            inbox@ == Phase::AwaitingMsg0,
    {
        Inbox { phase: Phase::AwaitingMsg0 }
    }

    /// How far the setup has come.
    pub fn phase(&self) -> (phase: Phase)
        ensures
            phase == self@,
    {
        self.phase
    }

    /// Whether the setup is over.
    pub fn is_over(&self) -> (over: bool)
        ensures
            over == is_over(self@),
    {
        match self.phase {
            Phase::AwaitingMsg0 | Phase::AwaitingMsg1 | Phase::AwaitingMsg2 => false,
            _ => true,
        }
    }

    /// Takes a message of the peer.
    pub fn deliver(&mut self, msg: &SetupMsg) -> (delivery: Delivery)
        ensures
            delivery == self::delivery(old(self)@, *msg),
            final(self)@ == phase_after(old(self)@, *msg),
    {
        let round: u8 = match msg {
            SetupMsg::Msg0(_) => 0,
            SetupMsg::Msg1(_) => 1,
            SetupMsg::Msg2(_) => 2,
        };
        let awaited: u8 = match self.phase {
            Phase::AwaitingMsg0 => 0,
            Phase::AwaitingMsg1 => 1,
            Phase::AwaitingMsg2 => 2,
            _ => {
                return Delivery::Discarded;
            },
        };
        if round != awaited {
            self.phase = Phase::Aborted;
            Delivery::Aborted
        } else if round == 2 {
            self.phase = Phase::Completed;
            Delivery::Completed
        } else if round == 0 {
            self.phase = Phase::AwaitingMsg1;
            Delivery::Accepted
        } else {
            self.phase = Phase::AwaitingMsg2;
            Delivery::Accepted
        }
    }

    /// Closes the inbox of a setup that nobody waits for any more. A setup
    /// that is over stays as it ended.
    pub fn cancel(&mut self)
        ensures
            final(self)@ == if is_over(old(self)@) {
                old(self)@
            } else {
                Phase::Cancelled
            },
    {
        if !self.is_over() {
            self.phase = Phase::Cancelled;
        }
    }
}

} // verus!
