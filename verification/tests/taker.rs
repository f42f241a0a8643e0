use cfd_daemon::cfd::{Cfd, CfdState, CfdStateCommon, Order};
use cfd_daemon::chain::{Address, Descriptor, Signature};
use cfd_daemon::keypair;
use cfd_daemon::model::{
    AdaptorSignature, Amount, BitMexPriceEventId, Cet, Cets, CfdEvent, Commit, Dlc, EventKind,
    FundingFee, FundingRate, Lock, PriceRange, PublicKey, Refund, Transaction, Txid, Usd,
};
use cfd_daemon::models::{OrderId, SecretKey};
use cfd_daemon::rollover::insert::insert;
use cfd_daemon::rollover::load::load;
use cfd_daemon::rollover::store::Store;
use cfd_daemon::taker_cfd_actor::{new, Command, Effect, Error, FinalizedCfd, TakerCfdActor};
use cfd_daemon::setup_contract_actor::{Delivery, Inbox, Phase};
use cfd_daemon::wire::{MakerToTaker, SetupMsg, TakerToMaker};
use std::time::{Duration, SystemTime};

fn u() -> OrderId {
    OrderId(0x936da01f9abd4d9d80c702af85c822a8)
}

fn at(seconds: u64) -> SystemTime {
    SystemTime::UNIX_EPOCH + Duration::from_secs(seconds)
}

fn order(id: OrderId) -> Order {
    Order {
        id,
        price: Usd { value: 40000 },
        min_quantity: Usd { value: 100 },
        max_quantity: Usd { value: 1000 },
        leverage: 5,
        settlement_event_id: BitMexPriceEventId {
            timestamp: 1_633_485_600,
            digits: 20,
        },
        funding_rate: FundingRate { value: 5 },
    }
}

fn pending(id: OrderId, quantity: u64, seconds: u64) -> Cfd {
    Cfd {
        order: order(id),
        quantity: Usd { value: quantity },
        created: at(seconds),
        state: CfdState::PendingTakeRequest {
            common: CfdStateCommon {
                transition_timestamp: at(seconds),
            },
        },
    }
}

fn in_state(cfd: Cfd, state: CfdState) -> Cfd {
    Cfd { state, ..cfd }
}

fn contract_setup(seconds: u64) -> CfdState {
    CfdState::ContractSetup {
        common: CfdStateCommon {
            transition_timestamp: at(seconds),
        },
    }
}

fn open(seconds: u64) -> CfdState {
    CfdState::Open {
        common: CfdStateCommon {
            transition_timestamp: at(seconds),
        },
    }
}

fn fresh() -> TakerCfdActor {
    let (actor, effects) = new(vec![], vec![]).unwrap();
    assert!(matches!(&effects[..], [Effect::CfdFeed(cfds)] if cfds.is_empty()));
    actor
}

fn a_dlc() -> Dlc {
    let key = "0279be667ef9dcbbac55a06295ce870b07029bfcdb2dce28d959f2815b16f81798";
    let secret = "0000000000000000000000000000000000000000000000000000000000000001";
    let mut cets = Cets::new();
    cets.push(
        BitMexPriceEventId {
            timestamp: 1_633_485_600,
            digits: 20,
        },
        Cet {
            adaptor_sig: AdaptorSignature { bytes: vec![1, 2] },
            maker_amount: Amount::from_sat(1000),
            taker_amount: Amount::from_sat(2000),
            n_bits: 20,
            range: PriceRange {
                start: 0,
                end: 39_999,
            },
            txid: Txid { bytes: vec![7; 32] },
        },
    );
    Dlc {
        identity: SecretKey::from_str(secret).unwrap(),
        identity_counterparty: PublicKey { bytes: vec![2, 1] },
        revocation: SecretKey::from_str(secret).unwrap(),
        revocation_pk_counterparty: PublicKey { bytes: vec![2, 2] },
        publish: SecretKey::from_str(secret).unwrap(),
        publish_pk_counterparty: PublicKey { bytes: vec![2, 3] },
        maker_address: Address::parse("bc1qw508d6qejxtdg4y5r3zarvary0c5xw7kv8f3t4").unwrap(),
        taker_address: Address::parse("1A1zP1eP5QGefi2DMPTfTL5SLmv7DivfNa").unwrap(),
        lock: Lock {
            tx: Transaction { bytes: vec![1] },
            descriptor: Descriptor::parse(&format!("wpkh({key})")).unwrap(),
        },
        commit: Commit {
            tx: Transaction { bytes: vec![2] },
            adaptor_signature: AdaptorSignature { bytes: vec![3] },
            descriptor: Descriptor::parse(&format!("wpkh({key})")).unwrap(),
        },
        refund: Refund {
            tx: Transaction { bytes: vec![4] },
            signature: Signature::parse("300602010a02010b").unwrap(),
        },
        cets,
        maker_lock_amount: Amount::from_sat(1_250_000),
        taker_lock_amount: Amount::from_sat(250_000),
        revoked_commit: vec![],
        settlement_event_id: BitMexPriceEventId {
            timestamp: 1_633_485_600,
            digits: 20,
        },
        refund_timelock: 4032,
    }
}

fn fee() -> FundingFee {
    FundingFee {
        fee: Amount::from_sat(0),
        rate: FundingRate { value: 5 },
    }
}

fn finalized(id: OrderId) -> FinalizedCfd {
    FinalizedCfd {
        order_id: id,
        dlc: a_dlc(),
        funding_fee: fee(),
    }
}

/// The controller after `NewOrder`, `TakeOrder` of 500 and `OrderAccepted`.
fn in_contract_setup() -> TakerCfdActor {
    let mut actor = fresh();
    actor.handle_at(Command::NewOrder(Some(order(u()))), at(1)).unwrap();
    actor
        .handle_at(
            Command::TakeOrder {
                order_id: u(),
                quantity: Usd { value: 500 },
            },
            at(2),
        )
        .unwrap();
    actor.handle_at(Command::OrderAccepted(u()), at(3)).unwrap();
    actor
}

#[test]
fn take_flow() {
    let mut actor = fresh();

    let effects = actor
        .handle_at(Command::NewOrder(Some(order(u()))), at(1))
        .unwrap();
    assert!(matches!(
        &effects[..],
        [Effect::InsertOrder(kept), Effect::OrderFeed(Some(shown))]
            if *kept == order(u()) && *shown == order(u())
    ));
    assert!(actor.cfds().is_empty());

    let effects = actor
        .handle_at(
            Command::TakeOrder {
                order_id: u(),
                quantity: Usd { value: 500 },
            },
            at(2),
        )
        .unwrap();

    let cfd = pending(u(), 500, 2);
    assert_eq!(effects.len(), 3);
    assert!(matches!(&effects[0], Effect::InsertCfd(kept) if *kept == cfd));
    assert!(matches!(&effects[1], Effect::CfdFeed(shown) if *shown == vec![cfd]));
    assert!(matches!(
        &effects[2],
        Effect::SendToMaker(TakerToMaker::TakeOrder { order_id, quantity })
            if *order_id == u() && *quantity == Usd { value: 500 }
    ));
    assert_eq!(actor.cfds(), vec![cfd]);
    assert_eq!(actor.cfd(u()), Some(cfd));
    assert!(actor.events().is_empty());
}

#[test]
fn accept_and_setup() {
    let mut actor = fresh();
    let mut store = Store::new();
    actor.handle_at(Command::NewOrder(Some(order(u()))), at(1)).unwrap();
    let effects = actor
        .handle_at(
            Command::TakeOrder {
                order_id: u(),
                quantity: Usd { value: 500 },
            },
            at(2),
        )
        .unwrap();
    assert!(matches!(&effects[0], Effect::InsertCfd(_)));
    assert!(store.insert_cfd(1, u()));

    let effects = actor.handle_at(Command::OrderAccepted(u()), at(3)).unwrap();

    let setting_up = in_state(pending(u(), 500, 2), contract_setup(3));
    assert_eq!(effects.len(), 3);
    assert!(matches!(&effects[0], Effect::AppendEvent { event_id: 1 }));
    assert!(matches!(&effects[1], Effect::CfdFeed(shown) if *shown == vec![setting_up]));
    assert!(matches!(&effects[2], Effect::StartContractSetup { cfd, .. } if *cfd == setting_up));
    assert_eq!(actor.current_contract_setup(), Some(u()));

    for (n, msg) in [
        SetupMsg::Msg0(vec![0]),
        SetupMsg::Msg1(vec![1, 1]),
        SetupMsg::Msg2(vec![2, 2, 2]),
    ]
    .into_iter()
    .enumerate()
    {
        let effects = actor
            .handle_at(Command::IncProtocolMsg(msg.clone()), at(4 + n as u64))
            .unwrap();
        assert!(matches!(&effects[..], [Effect::ForwardToSetup(passed)] if *passed == msg));
    }

    let effects = actor
        .handle_at(Command::CfdSetupCompleted(finalized(u())), at(10))
        .unwrap();

    let opened = in_state(pending(u(), 500, 2), open(10));
    assert_eq!(effects.len(), 3);
    assert!(matches!(&effects[1], Effect::CfdFeed(shown) if *shown == vec![opened]));
    assert!(matches!(&effects[2], Effect::DropContractSetup));
    assert_eq!(actor.current_contract_setup(), None);
    assert_eq!(actor.cfd(u()), Some(opened));

    // whoever drives the controller keeps the event in the store
    let event_id = match &effects[0] {
        Effect::AppendEvent { event_id } => *event_id,
        other => panic!("unexpected effect {other:?}"),
    };
    assert_eq!(event_id, 2);
    let event = actor.event(event_id).unwrap().clone();
    assert_eq!(event.id, u());
    assert_eq!(event.timestamp, at(10));
    insert(&mut store, event_id, event).unwrap();

    assert_eq!(load(&store, 1, event_id), Ok(Some((a_dlc(), fee()))));
}

#[test]
fn replaying_the_history_gives_the_cfd_that_is_shown() {
    let mut actor = in_contract_setup();
    actor
        .handle_at(Command::CfdSetupCompleted(finalized(u())), at(10))
        .unwrap();

    let shown = actor.cfd(u()).unwrap();

    let replayed = Cfd::replay(shown.order, shown.quantity, shown.created, actor.events());
    assert_eq!(replayed, shown);
    assert_eq!(replayed.state, open(10));
    assert_eq!(
        Cfd::replay(shown.order, shown.quantity, shown.created, &vec![]),
        pending(u(), 500, 2)
    );
}

#[test]
fn a_controller_is_made_of_the_cfds_and_their_history() {
    let other = OrderId(77);
    let events = vec![
        CfdEvent {
            id: u(),
            event: EventKind::ContractSetupStarted,
            timestamp: at(3),
        },
        CfdEvent {
            id: u(),
            event: EventKind::RolloverCompleted {
                dlc: Some(a_dlc()),
                funding_fee: fee(),
            },
            timestamp: at(10),
        },
        CfdEvent {
            id: other,
            event: EventKind::ContractSetupStarted,
            timestamp: at(11),
        },
        CfdEvent {
            id: u(),
            event: EventKind::RolloverCompleted {
                dlc: None,
                funding_fee: fee(),
            },
            timestamp: at(12),
        },
    ];

    let (actor, effects) = new(
        vec![pending(u(), 500, 2), pending(other, 100, 5)],
        events.clone(),
    )
    .unwrap();

    let expected = vec![
        in_state(pending(u(), 500, 2), open(10)),
        in_state(pending(other, 100, 5), contract_setup(11)),
    ];
    assert_eq!(actor.cfds(), expected);
    assert!(matches!(&effects[..], [Effect::CfdFeed(shown)] if *shown == expected));
    assert_eq!(actor.events(), &events);
    assert_eq!(actor.current_contract_setup(), None);
    assert_eq!(actor.event(0), None);
    assert_eq!(actor.event(1), Some(&events[0]));
    assert_eq!(actor.event(4), Some(&events[3]));
    assert_eq!(actor.event(5), None);
    assert_eq!(actor.event(-1), None);
}

#[test]
fn two_cfds_for_one_order_are_refused() {
    let made = new(vec![pending(u(), 500, 2), pending(u(), 100, 5)], vec![]);
    assert_eq!(made.err(), Some(Error::CfdAlreadyExists));
}

#[test]
fn an_event_without_cfd_is_refused() {
    let made = new(
        vec![pending(u(), 500, 2)],
        vec![CfdEvent {
            id: OrderId(5),
            event: EventKind::ContractSetupStarted,
            timestamp: at(3),
        }],
    );
    assert_eq!(made.err(), Some(Error::UnknownCfd));
}

#[test]
fn an_order_is_taken_once() {
    let mut actor = fresh();
    actor.handle_at(Command::NewOrder(Some(order(u()))), at(1)).unwrap();
    let take = || Command::TakeOrder {
        order_id: u(),
        quantity: Usd { value: 500 },
    };
    actor.handle_at(take(), at(2)).unwrap();

    let again = actor.handle_at(take(), at(3));

    assert_eq!(again.err(), Some(Error::CfdAlreadyExists));
    assert_eq!(actor.cfds(), vec![pending(u(), 500, 2)]);
}

#[test]
fn an_unknown_order_cannot_be_taken() {
    let mut actor = fresh();
    let outcome = actor.handle_at(
        Command::TakeOrder {
            order_id: u(),
            quantity: Usd { value: 500 },
        },
        at(2),
    );
    assert_eq!(outcome.err(), Some(Error::OrderNotFound));
    assert!(actor.cfds().is_empty());
}

#[test]
fn an_order_is_published_once() {
    let mut actor = fresh();
    actor.handle_at(Command::NewOrder(Some(order(u()))), at(1)).unwrap();
    let mut changed = order(u());
    changed.price = Usd { value: 1 };

    let outcome = actor.handle_at(Command::NewOrder(Some(changed)), at(2));

    assert_eq!(outcome.err(), Some(Error::OrderAlreadyExists));
    // the order is as it was published
    actor
        .handle_at(
            Command::TakeOrder {
                order_id: u(),
                quantity: Usd { value: 500 },
            },
            at(3),
        )
        .unwrap();
    assert_eq!(actor.cfd(u()).unwrap().order.price, Usd { value: 40000 });
}

#[test]
fn no_order_clears_the_order_feed() {
    let mut actor = fresh();
    let effects = actor.handle_at(Command::NewOrder(None), at(1)).unwrap();
    assert!(matches!(&effects[..], [Effect::OrderFeed(None)]));
}

#[test]
fn sync_wallet_asks_for_the_wallet_to_be_synced() {
    let mut actor = fresh();
    let effects = actor.handle_at(Command::SyncWallet, at(1)).unwrap();
    assert!(matches!(&effects[..], [Effect::SyncWallet]));
}

#[test]
fn a_protocol_message_without_setup_is_an_error() {
    let mut actor = fresh();
    let outcome = actor.handle_at(Command::IncProtocolMsg(SetupMsg::Msg0(vec![])), at(1));
    assert_eq!(outcome.err(), Some(Error::NoActiveContractSetup));

    // nor after the setup is over
    let mut actor = in_contract_setup();
    actor
        .handle_at(Command::CfdSetupCompleted(finalized(u())), at(10))
        .unwrap();
    let outcome = actor.handle_at(Command::IncProtocolMsg(SetupMsg::Msg0(vec![])), at(11));
    assert_eq!(outcome.err(), Some(Error::NoActiveContractSetup));
}

#[test]
fn a_setup_result_without_setup_is_an_error() {
    let mut actor = fresh();
    let outcome = actor.handle_at(Command::CfdSetupCompleted(finalized(u())), at(1));
    assert_eq!(outcome.err(), Some(Error::NoActiveContractSetup));
    assert!(actor.events().is_empty());
}

#[test]
fn a_setup_result_for_another_order_is_an_error() {
    let mut actor = in_contract_setup();

    let outcome = actor.handle_at(Command::CfdSetupCompleted(finalized(OrderId(5))), at(10));

    assert_eq!(outcome.err(), Some(Error::UnexpectedContractSetup));
    assert_eq!(actor.current_contract_setup(), Some(u()));
    assert_eq!(actor.events().len(), 1);
    assert_eq!(
        actor.cfd(u()),
        Some(in_state(pending(u(), 500, 2), contract_setup(3)))
    );
}

#[test]
fn only_one_contract_is_set_up_at_a_time() {
    let other = OrderId(77);
    let mut actor = in_contract_setup();
    actor.handle_at(Command::NewOrder(Some(order(other))), at(4)).unwrap();
    actor
        .handle_at(
            Command::TakeOrder {
                order_id: other,
                quantity: Usd { value: 100 },
            },
            at(5),
        )
        .unwrap();

    let outcome = actor.handle_at(Command::OrderAccepted(other), at(6));

    assert_eq!(outcome.err(), Some(Error::ContractSetupInProgress));
    assert_eq!(actor.current_contract_setup(), Some(u()));
    assert_eq!(actor.cfd(other), Some(pending(other, 100, 5)));

    // once the first is over the second can begin
    actor
        .handle_at(Command::CfdSetupCompleted(finalized(u())), at(10))
        .unwrap();
    let effects = actor.handle_at(Command::OrderAccepted(other), at(11)).unwrap();
    assert!(matches!(&effects[0], Effect::AppendEvent { event_id: 3 }));
    assert_eq!(actor.current_contract_setup(), Some(other));
}

#[test]
fn an_order_is_accepted_once() {
    let mut actor = in_contract_setup();
    actor
        .handle_at(Command::CfdSetupCompleted(finalized(u())), at(10))
        .unwrap();

    let outcome = actor.handle_at(Command::OrderAccepted(u()), at(11));

    assert_eq!(outcome.err(), Some(Error::InvalidTransition));
    assert_eq!(actor.cfd(u()), Some(in_state(pending(u(), 500, 2), open(10))));
}

#[test]
fn an_order_that_was_not_taken_cannot_be_accepted() {
    let mut actor = fresh();
    actor.handle_at(Command::NewOrder(Some(order(u()))), at(1)).unwrap();
    let outcome = actor.handle_at(Command::OrderAccepted(u()), at(2));
    assert_eq!(outcome.err(), Some(Error::CfdNotFound));
}

#[test]
fn a_cfd_follows_its_events() {
    let cfd = Cfd::new(order(u()), Usd { value: 500 }, at(2));
    assert_eq!(cfd, pending(u(), 500, 2));
    let event = |kind: EventKind, seconds: u64| CfdEvent {
        id: u(),
        event: kind,
        timestamp: at(seconds),
    };

    let setting_up = cfd.apply(&event(EventKind::ContractSetupStarted, 3));
    assert_eq!(setting_up.state, contract_setup(3));
    let failed = setting_up.apply(&event(EventKind::ContractSetupFailed, 4));
    assert_eq!(
        failed.state,
        CfdState::SetupFailed {
            common: CfdStateCommon {
                transition_timestamp: at(4)
            }
        }
    );
    let opened = setting_up.apply(&event(
        EventKind::RolloverCompleted {
            dlc: Some(a_dlc()),
            funding_fee: fee(),
        },
        5,
    ));
    assert_eq!(opened.state, open(5));
    let rolled_over = opened.apply(&event(
        EventKind::RolloverCompleted {
            dlc: Some(a_dlc()),
            funding_fee: fee(),
        },
        6,
    ));
    assert_eq!(rolled_over.state, open(6));
    let settled = rolled_over.apply(&event(EventKind::SettlementCompleted, 7));
    assert_eq!(
        settled.state,
        CfdState::Settled {
            common: CfdStateCommon {
                transition_timestamp: at(7)
            }
        }
    );
}

#[test]
fn events_that_do_not_fit_leave_a_cfd_as_it_is() {
    let cfd = pending(u(), 500, 2);
    let event = |id: OrderId, kind: EventKind| CfdEvent {
        id,
        event: kind,
        timestamp: at(9),
    };
    assert!(cfd.state.accepts(&EventKind::ContractSetupStarted));
    assert!(!cfd.state.accepts(&EventKind::SettlementCompleted));
    assert_eq!(cfd.apply(&event(u(), EventKind::SettlementCompleted)), cfd);
    assert_eq!(cfd.apply(&event(u(), EventKind::ContractSetupFailed)), cfd);
    // an event of another CFD
    assert_eq!(cfd.apply(&event(OrderId(5), EventKind::ContractSetupStarted)), cfd);
    // a rollover without contract changes nothing
    let opened = in_state(cfd, open(5));
    assert_eq!(
        opened.apply(&event(
            u(),
            EventKind::RolloverCompleted {
                dlc: None,
                funding_fee: fee()
            }
        )),
        opened
    );
    let settled = opened.apply(&event(u(), EventKind::SettlementCompleted));
    assert_eq!(settled.apply(&event(u(), EventKind::ContractSetupStarted)), settled);
}

#[test]
fn messages_of_the_maker_become_commands() {
    assert!(matches!(
        Command::from_maker(MakerToTaker::OrderAccepted(u())),
        Command::OrderAccepted(id) if id == u()
    ));
    assert!(matches!(
        Command::from_maker(MakerToTaker::NewOrder(Some(order(u())))),
        Command::NewOrder(Some(published)) if published == order(u())
    ));
    assert!(matches!(
        Command::from_maker(MakerToTaker::NewOrder(None)),
        Command::NewOrder(None)
    ));
    assert!(matches!(
        Command::from_maker(MakerToTaker::Protocol(SetupMsg::Msg1(vec![1]))),
        Command::IncProtocolMsg(SetupMsg::Msg1(payload)) if payload == vec![1]
    ));
}

#[test]
fn the_rounds_of_a_setup_in_order_complete_it() {
    let mut inbox = Inbox::new();
    assert_eq!(inbox.phase(), Phase::AwaitingMsg0);
    assert_eq!(inbox.deliver(&SetupMsg::Msg0(vec![])), Delivery::Accepted);
    assert_eq!(inbox.phase(), Phase::AwaitingMsg1);
    assert_eq!(inbox.deliver(&SetupMsg::Msg1(vec![])), Delivery::Accepted);
    assert_eq!(inbox.phase(), Phase::AwaitingMsg2);
    assert!(!inbox.is_over());
    assert_eq!(inbox.deliver(&SetupMsg::Msg2(vec![])), Delivery::Completed);
    assert_eq!(inbox.phase(), Phase::Completed);
    assert!(inbox.is_over());
    // what comes after the end is discarded
    assert_eq!(inbox.deliver(&SetupMsg::Msg0(vec![])), Delivery::Discarded);
    assert_eq!(inbox.deliver(&SetupMsg::Msg2(vec![])), Delivery::Discarded);
    assert_eq!(inbox.phase(), Phase::Completed);
    inbox.cancel();
    assert_eq!(inbox.phase(), Phase::Completed);
}

#[test]
fn a_message_out_of_order_aborts_the_setup() {
    for (first, second) in [
        (None, SetupMsg::Msg1(vec![])),
        (None, SetupMsg::Msg2(vec![])),
        (Some(SetupMsg::Msg0(vec![])), SetupMsg::Msg0(vec![])),
        (Some(SetupMsg::Msg0(vec![])), SetupMsg::Msg2(vec![])),
    ] {
        let mut inbox = Inbox::new();
        if let Some(msg) = first {
            assert_eq!(inbox.deliver(&msg), Delivery::Accepted);
        }
        assert_eq!(inbox.deliver(&second), Delivery::Aborted);
        assert_eq!(inbox.phase(), Phase::Aborted);
        // it resolves once
        assert_eq!(inbox.deliver(&second), Delivery::Discarded);
        assert_eq!(inbox.deliver(&SetupMsg::Msg0(vec![])), Delivery::Discarded);
        assert_eq!(inbox.phase(), Phase::Aborted);
    }
}

#[test]
fn a_cancelled_setup_discards_what_is_delivered() {
    let mut inbox = Inbox::new();
    assert_eq!(inbox.deliver(&SetupMsg::Msg0(vec![])), Delivery::Accepted);
    inbox.cancel();
    assert_eq!(inbox.phase(), Phase::Cancelled);
    assert!(inbox.is_over());
    assert_eq!(inbox.deliver(&SetupMsg::Msg1(vec![])), Delivery::Discarded);
    assert_eq!(inbox.phase(), Phase::Cancelled);
}

fn public_key_of(sk: &SecretKey) -> Vec<u8> {
    let secp = bdk::bitcoin::secp256k1::Secp256k1::new();
    let sk = bdk::bitcoin::secp256k1::SecretKey::from_slice(&sk.secret_bytes()).unwrap();
    bdk::bitcoin::secp256k1::PublicKey::from_secret_key(&secp, &sk)
        .serialize()
        .to_vec()
}

#[test]
fn a_fresh_keypair_is_a_secret_key_with_its_public_key() {
    let (sk, pk) = keypair::new();
    assert_eq!(pk.bytes.len(), 33);
    assert_eq!(pk.bytes, public_key_of(&sk));
    // the secret key is a key
    assert_eq!(SecretKey::from_str(&sk.to_string()), Ok(sk));
    let (another, _) = keypair::new();
    assert_ne!(another, sk);
}

#[test]
fn a_contract_setup_starts_with_fresh_keys() {
    let mut actor = fresh();
    actor.handle_at(Command::NewOrder(Some(order(u()))), at(1)).unwrap();
    actor
        .handle_at(
            Command::TakeOrder {
                order_id: u(),
                quantity: Usd { value: 500 },
            },
            at(2),
        )
        .unwrap();

    let effects = actor.handle_at(Command::OrderAccepted(u()), at(3)).unwrap();

    match &effects[2] {
        Effect::StartContractSetup { cfd, sk, pk } => {
            assert_eq!(*cfd, in_state(pending(u(), 500, 2), contract_setup(3)));
            assert_eq!(pk.bytes, public_key_of(sk));
        }
        other => panic!("unexpected effect {other:?}"),
    }
}

#[test]
fn the_keys_of_a_contract_setup_can_be_given() {
    let mut actor = fresh();
    actor.new_order(Some(order(u()))).unwrap();
    actor.take_order(u(), Usd { value: 500 }, at(2)).unwrap();
    let sk =
        SecretKey::from_str("0000000000000000000000000000000000000000000000000000000000000001")
            .unwrap();
    let pk = PublicKey {
        bytes: public_key_of(&sk),
    };

    let effects = actor.order_accepted(u(), at(3), sk, pk.clone()).unwrap();

    assert!(matches!(
        &effects[2],
        Effect::StartContractSetup { sk: given_sk, pk: given_pk, .. }
            if *given_sk == sk && *given_pk == pk
    ));
    assert_eq!(actor.current_contract_setup(), Some(u()));
}

#[test]
fn commands_are_stamped_with_the_time_of_the_clock() {
    let mut actor = fresh();
    actor.handle(Command::NewOrder(Some(order(u())))).unwrap();
    let before = SystemTime::now();

    actor
        .handle(Command::TakeOrder {
            order_id: u(),
            quantity: Usd { value: 500 },
        })
        .unwrap();
    actor.handle(Command::OrderAccepted(u())).unwrap();

    let after = SystemTime::now();
    let cfd = actor.cfd(u()).unwrap();
    assert!(before <= cfd.created && cfd.created <= after);
    match cfd.state {
        CfdState::ContractSetup { common } => {
            assert!(cfd.created <= common.transition_timestamp);
            assert!(common.transition_timestamp <= after);
        }
        other => panic!("unexpected state {other:?}"),
    }
    assert_eq!(actor.events()[0].timestamp, match cfd.state {
        CfdState::ContractSetup { common } => common.transition_timestamp,
        _ => before,
    });
}

#[test]
fn replaying_its_own_history_gives_the_cfd_that_is_shown() {
    let other = OrderId(77);
    let mut actor = in_contract_setup();
    actor.handle_at(Command::NewOrder(Some(order(other))), at(4)).unwrap();
    actor
        .handle_at(
            Command::TakeOrder {
                order_id: other,
                quantity: Usd { value: 100 },
            },
            at(5),
        )
        .unwrap();
    actor
        .handle_at(Command::CfdSetupCompleted(finalized(u())), at(10))
        .unwrap();
    actor.handle_at(Command::OrderAccepted(other), at(11)).unwrap();
    assert_eq!(actor.events().len(), 3);

    for id in [u(), other] {
        let shown = actor.cfd(id).unwrap();
        let history: Vec<CfdEvent> = actor.history(id).into_iter().cloned().collect();
        assert!(history.iter().all(|event| event.id == id));
        assert_eq!(
            Cfd::replay(shown.order, shown.quantity, shown.created, &history),
            shown
        );
    }
    assert_eq!(actor.history(u()).len(), 2);
    assert_eq!(actor.history(other).len(), 1);
    assert_eq!(actor.history(other)[0].timestamp, at(11));
    assert!(actor.history(OrderId(5)).is_empty());
}
