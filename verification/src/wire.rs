//! What the taker and the maker send each other.

use crate::cfd::Order;
use crate::model::Usd;
use crate::models::OrderId;
use vstd::prelude::*;

verus! {

/// A message of contract setup: one of its three rounds, with a payload that
/// only the two setup actors read.
#[derive(Clone, Debug, PartialEq, Eq)]
pub enum SetupMsg {
    Msg0(Vec<u8>),
    Msg1(Vec<u8>),
    Msg2(Vec<u8>),
}

/// What the taker sends the maker.
#[derive(Clone, Debug, PartialEq, Eq)]
pub enum TakerToMaker {
    TakeOrder { order_id: OrderId, quantity: Usd },
    Protocol(SetupMsg),
}

/// What the maker sends the taker.
#[derive(Clone, Debug, PartialEq, Eq)]
pub enum MakerToTaker {
    OrderAccepted(OrderId),
    NewOrder(Option<Order>),
    Protocol(SetupMsg),
}

} // verus!
