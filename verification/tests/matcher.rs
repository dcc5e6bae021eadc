use sync_endpoint::actor_party_matcher::{
    ActorPartyMatcher, Handled, RequestMsg, RespMsg, INBOX_CAPACITY,
};
use std::collections::BTreeMap;
use tokio::sync::oneshot;
use tokio::sync::oneshot::error::TryRecvError;
use tokio::sync::oneshot::Receiver;

fn id(text: &str) -> String {
    text.to_string()
}

#[test]
fn inbox_holds_sixteen_messages() {
    assert_eq!(INBOX_CAPACITY, 16);
}

#[test]
fn new_matcher_has_nobody_waiting() {
    let matcher = ActorPartyMatcher::spawn();
    assert_eq!(matcher.waiting_count(), 0);
    assert!(!matcher.is_waiting(&id("123")));
    assert!(!matcher.is_waiting(&id("")));
}

#[test]
fn first_check_in_is_parked_and_not_fired() {
    let mut matcher = ActorPartyMatcher::spawn();
    let (tx, mut rx) = oneshot::channel::<()>();
    let pair = matcher.check_in(id("a"), tx);
    assert!(pair.is_none());
    assert!(matcher.is_waiting(&id("a")));
    assert_eq!(rx.try_recv(), Err(TryRecvError::Empty));
}

#[test]
fn second_check_in_hands_back_both_sinks_without_firing() {
    let mut matcher = ActorPartyMatcher::spawn();
    let (tx1, mut rx1) = oneshot::channel::<()>();
    let (tx2, mut rx2) = oneshot::channel::<()>();
    assert!(matcher.check_in(id("a"), tx1).is_none());
    let pair = matcher.check_in(id("a"), tx2).expect("the counterpart waits");
    assert!(!matcher.is_waiting(&id("a")));
    assert_eq!(rx1.try_recv(), Err(TryRecvError::Empty));
    assert_eq!(rx2.try_recv(), Err(TryRecvError::Empty));
    // the waiting sink is the first one, the incoming sink the second
    assert!(pair.waiting.send(()).is_ok());
    assert_eq!(rx1.try_recv(), Ok(()));
    assert_eq!(rx2.try_recv(), Err(TryRecvError::Empty));
    assert!(pair.incoming.send(()).is_ok());
    assert_eq!(rx2.try_recv(), Ok(()));
}

#[test]
fn handle_parks_then_pairs_and_fires_both() {
    let mut matcher = ActorPartyMatcher::spawn();
    let (tx1, mut rx1) = oneshot::channel::<()>();
    let (tx2, mut rx2) = oneshot::channel::<()>();

    let done = matcher.handle(RequestMsg::CheckIn { id: id("123"), tx_resp: tx1 });
    assert_eq!(done, Handled::Parked);
    assert_eq!(done.resp(), Some(RespMsg::NoOtherPartyWaiting));
    assert!(matcher.is_waiting(&id("123")));
    assert_eq!(rx1.try_recv(), Err(TryRecvError::Empty));

    let done = matcher.handle(RequestMsg::CheckIn { id: id("123"), tx_resp: tx2 });
    assert_eq!(done, Handled::Paired { waiting_reached: true, incoming_reached: true });
    assert_eq!(done.resp(), Some(RespMsg::OtherPartyReady));
    assert!(!matcher.is_waiting(&id("123")));
    assert_eq!(rx1.try_recv(), Ok(()));
    assert_eq!(rx2.try_recv(), Ok(()));
}

#[test]
fn third_check_in_gets_no_stale_match() {
    let mut matcher = ActorPartyMatcher::spawn();
    let (tx1, _rx1) = oneshot::channel::<()>();
    let (tx2, _rx2) = oneshot::channel::<()>();
    let (tx3, mut rx3) = oneshot::channel::<()>();
    matcher.handle(RequestMsg::CheckIn { id: id("x"), tx_resp: tx1 });
    matcher.handle(RequestMsg::CheckIn { id: id("x"), tx_resp: tx2 });
    let done = matcher.handle(RequestMsg::CheckIn { id: id("x"), tx_resp: tx3 });
    assert_eq!(done, Handled::Parked);
    assert!(matcher.is_waiting(&id("x")));
    assert_eq!(rx3.try_recv(), Err(TryRecvError::Empty));
}

#[test]
fn fourth_check_in_pairs_with_the_third() {
    let mut matcher = ActorPartyMatcher::spawn();
    let (tx1, mut rx1) = oneshot::channel::<()>();
    let (tx2, mut rx2) = oneshot::channel::<()>();
    let (tx3, mut rx3) = oneshot::channel::<()>();
    let (tx4, mut rx4) = oneshot::channel::<()>();
    matcher.handle(RequestMsg::CheckIn { id: id("x"), tx_resp: tx1 });
    matcher.handle(RequestMsg::CheckIn { id: id("x"), tx_resp: tx2 });
    assert_eq!(rx1.try_recv(), Ok(()));
    assert_eq!(rx2.try_recv(), Ok(()));
    matcher.handle(RequestMsg::CheckIn { id: id("x"), tx_resp: tx3 });
    let done = matcher.handle(RequestMsg::CheckIn { id: id("x"), tx_resp: tx4 });
    assert_eq!(done.resp(), Some(RespMsg::OtherPartyReady));
    assert_eq!(rx3.try_recv(), Ok(()));
    assert_eq!(rx4.try_recv(), Ok(()));
    assert!(!matcher.is_waiting(&id("x")));
}

#[test]
fn stale_send_is_reported_and_does_not_stop_the_matcher() {
    let mut matcher = ActorPartyMatcher::spawn();
    let (tx1, rx1) = oneshot::channel::<()>();
    let (tx2, mut rx2) = oneshot::channel::<()>();
    matcher.handle(RequestMsg::CheckIn { id: id("gone"), tx_resp: tx1 });
    // the waiting party vanishes without checking out
    drop(rx1);
    let done = matcher.handle(RequestMsg::CheckIn { id: id("gone"), tx_resp: tx2 });
    assert_eq!(done, Handled::Paired { waiting_reached: false, incoming_reached: true });
    assert_eq!(done.resp(), Some(RespMsg::OtherPartyReady));
    assert_eq!(rx2.try_recv(), Ok(()));
    // the matcher goes on with the next message
    let (tx3, _rx3) = oneshot::channel::<()>();
    let done = matcher.handle(RequestMsg::CheckIn { id: id("next"), tx_resp: tx3 });
    assert_eq!(done, Handled::Parked);
}

#[test]
fn check_out_drops_the_entry_without_firing() {
    let mut matcher = ActorPartyMatcher::spawn();
    let (tx, mut rx) = oneshot::channel::<()>();
    matcher.handle(RequestMsg::CheckIn { id: id("a"), tx_resp: tx });
    let done = matcher.handle(RequestMsg::CheckOut { id: id("a") });
    assert_eq!(done, Handled::CheckedOut { was_waiting: true });
    assert_eq!(done.resp(), None);
    assert!(!matcher.is_waiting(&id("a")));
    // the sink was dropped, never fired
    assert_eq!(rx.try_recv(), Err(TryRecvError::Closed));
}

#[test]
fn check_out_of_absent_id_is_a_no_op() {
    let mut matcher = ActorPartyMatcher::spawn();
    let (tx, mut rx) = oneshot::channel::<()>();
    matcher.handle(RequestMsg::CheckIn { id: id("a"), tx_resp: tx });

    let done = matcher.handle(RequestMsg::CheckOut { id: id("b") });
    assert_eq!(done, Handled::CheckedOut { was_waiting: false });
    assert!(matcher.is_waiting(&id("a")));
    assert!(!matcher.is_waiting(&id("b")));
    assert_eq!(rx.try_recv(), Err(TryRecvError::Empty));

    assert!(!matcher.check_out(id("b")));
    assert!(matcher.check_out(id("a")));
    assert!(!matcher.check_out(id("a")));
    assert!(!matcher.is_waiting(&id("a")));
}

#[test]
fn check_out_on_empty_matcher_never_fails() {
    let mut matcher = ActorPartyMatcher::spawn();
    for _ in 0..3 {
        let done = matcher.handle(RequestMsg::CheckOut { id: id("nobody") });
        assert_eq!(done, Handled::CheckedOut { was_waiting: false });
    }
    assert!(!matcher.is_waiting(&id("nobody")));
}

#[test]
fn checked_out_id_is_fresh_again() {
    let mut matcher = ActorPartyMatcher::spawn();
    let (tx1, _rx1) = oneshot::channel::<()>();
    let (tx2, mut rx2) = oneshot::channel::<()>();
    matcher.handle(RequestMsg::CheckIn { id: id("x"), tx_resp: tx1 });
    matcher.handle(RequestMsg::CheckOut { id: id("x") });
    let done = matcher.handle(RequestMsg::CheckIn { id: id("x"), tx_resp: tx2 });
    assert_eq!(done, Handled::Parked);
    assert_eq!(rx2.try_recv(), Err(TryRecvError::Empty));
}

#[test]
fn ids_are_compared_exactly() {
    let mut matcher = ActorPartyMatcher::spawn();
    let (tx1, mut rx1) = oneshot::channel::<()>();
    let (tx2, mut rx2) = oneshot::channel::<()>();
    let (tx3, mut rx3) = oneshot::channel::<()>();
    let (tx4, mut rx4) = oneshot::channel::<()>();
    assert_eq!(matcher.handle(RequestMsg::CheckIn { id: id("abc"), tx_resp: tx1 }), Handled::Parked);
    assert_eq!(matcher.handle(RequestMsg::CheckIn { id: id("ABC"), tx_resp: tx2 }), Handled::Parked);
    assert_eq!(matcher.handle(RequestMsg::CheckIn { id: id("abc "), tx_resp: tx3 }), Handled::Parked);
    assert_eq!(matcher.handle(RequestMsg::CheckIn { id: id(""), tx_resp: tx4 }), Handled::Parked);
    assert!(matcher.is_waiting(&id("abc")));
    assert!(matcher.is_waiting(&id("ABC")));
    assert!(matcher.is_waiting(&id("abc ")));
    assert!(matcher.is_waiting(&id("")));
    assert!(!matcher.is_waiting(&id("ab")));
    assert_eq!(matcher.waiting_count(), 4);
    assert_eq!(rx1.try_recv(), Err(TryRecvError::Empty));
    assert_eq!(rx2.try_recv(), Err(TryRecvError::Empty));
    assert_eq!(rx3.try_recv(), Err(TryRecvError::Empty));
    assert_eq!(rx4.try_recv(), Err(TryRecvError::Empty));
}

#[test]
fn other_ids_do_not_disturb_a_waiting_entry() {
    let mut matcher = ActorPartyMatcher::spawn();
    let (tx, mut rx) = oneshot::channel::<()>();
    matcher.handle(RequestMsg::CheckIn { id: id("mine"), tx_resp: tx });
    for n in 0..20 {
        let (a, _ra) = oneshot::channel::<()>();
        let (b, _rb) = oneshot::channel::<()>();
        let (c, _rc) = oneshot::channel::<()>();
        let other = format!("other-{n}");
        matcher.handle(RequestMsg::CheckIn { id: other.clone(), tx_resp: a });
        matcher.handle(RequestMsg::CheckIn { id: other.clone(), tx_resp: b });
        matcher.handle(RequestMsg::CheckIn { id: other.clone(), tx_resp: c });
        matcher.handle(RequestMsg::CheckOut { id: other });
    }
    assert!(matcher.is_waiting(&id("mine")));
    assert_eq!(rx.try_recv(), Err(TryRecvError::Empty));
    let (tx2, mut rx2) = oneshot::channel::<()>();
    let done = matcher.handle(RequestMsg::CheckIn { id: id("mine"), tx_resp: tx2 });
    assert_eq!(done, Handled::Paired { waiting_reached: true, incoming_reached: true });
    assert_eq!(rx.try_recv(), Ok(()));
    assert_eq!(rx2.try_recv(), Ok(()));
}

#[test]
fn stale_send_to_the_incoming_party_is_reported() {
    let mut matcher = ActorPartyMatcher::spawn();
    let (tx1, mut rx1) = oneshot::channel::<()>();
    let (tx2, rx2) = oneshot::channel::<()>();
    matcher.handle(RequestMsg::CheckIn { id: id("gone"), tx_resp: tx1 });
    drop(rx2);
    let done = matcher.handle(RequestMsg::CheckIn { id: id("gone"), tx_resp: tx2 });
    assert_eq!(done, Handled::Paired { waiting_reached: true, incoming_reached: false });
    assert_eq!(rx1.try_recv(), Ok(()));
    assert_eq!(matcher.waiting_count(), 0);
}

/// A small generator of numbers that look random and are the same in every
/// run.
fn next(seed: &mut u64) -> u64 {
    *seed = seed.wrapping_mul(6364136223846793005).wrapping_add(1442695040888963407);
    *seed >> 33
}

#[test]
fn long_runs_agree_with_an_ordered_map() {
    let mut seed: u64 = 42;
    let mut matcher = ActorPartyMatcher::spawn();
    // the same run on a plain map from id to the number of the waiting call
    let mut waiting: BTreeMap<String, usize> = BTreeMap::new();
    let mut receivers: Vec<Receiver<()>> = Vec::new();
    let mut settled: Vec<bool> = Vec::new();

    for _ in 0..5000 {
        let id = format!("id-{}", next(&mut seed) % 12);
        if next(&mut seed) % 10 < 7 {
            let (tx, rx) = oneshot::channel::<()>();
            let me = receivers.len();
            receivers.push(rx);
            settled.push(false);
            let done = matcher.handle(RequestMsg::CheckIn { id: id.clone(), tx_resp: tx });
            match waiting.remove(&id) {
                Some(other) => {
                    assert_eq!(
                        done,
                        Handled::Paired { waiting_reached: true, incoming_reached: true }
                    );
                    assert_eq!(receivers[other].try_recv(), Ok(()));
                    assert_eq!(receivers[me].try_recv(), Ok(()));
                    settled[other] = true;
                    settled[me] = true;
                }
                None => {
                    assert_eq!(done, Handled::Parked);
                    waiting.insert(id, me);
                }
            }
        } else {
            let done = matcher.handle(RequestMsg::CheckOut { id: id.clone() });
            match waiting.remove(&id) {
                Some(gone) => {
                    assert_eq!(done, Handled::CheckedOut { was_waiting: true });
                    assert_eq!(receivers[gone].try_recv(), Err(TryRecvError::Closed));
                    settled[gone] = true;
                }
                None => assert_eq!(done, Handled::CheckedOut { was_waiting: false }),
            }
        }
        assert_eq!(matcher.waiting_count(), waiting.len());
        for n in 0..12 {
            let id = format!("id-{n}");
            assert_eq!(matcher.is_waiting(&id), waiting.contains_key(&id));
        }
    }
    // whoever still waits was never fired, and nobody else is left
    for (me, receiver) in receivers.iter_mut().enumerate() {
        if !settled[me] {
            assert!(waiting.values().any(|&who| who == me));
            assert_eq!(receiver.try_recv(), Err(TryRecvError::Empty));
        }
    }
}
