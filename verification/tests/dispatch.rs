use rq_tower::service::builder::{RQServiceBuilder, DEFAULT_CAPACITY};
use rq_tower::event::{
    Admission, Directive, Envelope, EventKind, HandlerFailed, Invocation, Phase, ServiceError,
};
use rq_tower::service::RQService;

fn group(id: u64) -> Envelope<u64> {
    Envelope::new(EventKind::GroupMessage, id)
}

fn call(kind: EventKind, slot: usize, payload: u64) -> Directive<u64> {
    Directive::Invoke(Invocation { kind, slot, payload })
}

/// Runs the consumer until it parks or halts, every handler succeeding, and
/// returns the calls it was given as (handler, payload).
fn run_to_rest(
    service: &mut RQService<&'static str, u64>,
) -> (Vec<(&'static str, u64)>, Directive<u64>) {
    let mut calls = Vec::new();
    let mut directive = service.poll();
    loop {
        match directive {
            Directive::Invoke(inv) => {
                let handler = *service.handler(inv.kind, inv.slot).expect("a registered handler");
                calls.push((handler, inv.payload));
                directive = service.complete(Ok(()));
            }
            other => return (calls, other),
        }
    }
}

#[test]
fn two_handlers_two_messages_give_the_expected_call_trace() {
    let mut service: RQService<&'static str, u64> = RQServiceBuilder::new()
        .on_group_message("H1")
        .on_group_message("H2")
        .build();
    assert_eq!(service.submit(group(1)), Ok(Admission::Accepted));
    assert_eq!(service.submit(group(2)), Ok(Admission::Accepted));

    assert_eq!(service.poll(), call(EventKind::GroupMessage, 0, 1));
    assert_eq!(service.handler(EventKind::GroupMessage, 0), Some(&"H1"));
    assert_eq!(service.phase(), Phase::Dispatching);
    assert_eq!(service.complete(Ok(())), call(EventKind::GroupMessage, 1, 1));
    assert_eq!(service.handler(EventKind::GroupMessage, 1), Some(&"H2"));
    assert_eq!(service.complete(Ok(())), call(EventKind::GroupMessage, 0, 2));
    assert_eq!(service.complete(Ok(())), call(EventKind::GroupMessage, 1, 2));
    assert_eq!(service.complete(Ok(())), Directive::Park);
    assert_eq!(service.phase(), Phase::Idle);
    assert_eq!(service.pending(), 0);
}

#[test]
fn call_trace_by_handler_name() {
    let mut service: RQService<&'static str, u64> = RQServiceBuilder::new()
        .on_group_message("H1")
        .on_group_message("H2")
        .build();
    service.submit(group(1)).unwrap();
    service.submit(group(2)).unwrap();
    let (calls, rest) = run_to_rest(&mut service);
    assert_eq!(calls, vec![("H1", 1), ("H2", 1), ("H1", 2), ("H2", 2)]);
    assert_eq!(rest, Directive::Park);
}

#[test]
fn second_submission_waits_until_the_first_is_dequeued() {
    let mut service: RQService<&'static str, u64> =
        RQServiceBuilder::new().on_group_message("H").build_with_capacity(1);
    assert_eq!(service.capacity(), 1);
    assert_eq!(service.submit(group(10)), Ok(Admission::Accepted));
    // A is still in the queue: B is handed back, and again on a second try.
    assert_eq!(service.submit(group(11)), Ok(Admission::Deferred(group(11))));
    assert_eq!(service.submit(group(11)), Ok(Admission::Deferred(group(11))));
    assert_eq!(service.pending(), 1);
    // The consumer dequeues A; its handler has not returned yet.
    assert_eq!(service.poll(), call(EventKind::GroupMessage, 0, 10));
    assert_eq!(service.pending(), 0);
    assert_eq!(service.submit(group(11)), Ok(Admission::Accepted));
    assert_eq!(service.pending(), 1);
    assert_eq!(service.complete(Ok(())), call(EventKind::GroupMessage, 0, 11));
    assert_eq!(service.complete(Ok(())), Directive::Park);
}

#[test]
fn one_submission_over_capacity_is_deferred_until_a_dequeue() {
    let capacity = 3;
    let mut service: RQService<&'static str, u64> =
        RQServiceBuilder::new().on_login("L").build_with_capacity(capacity);
    for id in 0..capacity as u64 {
        assert_eq!(
            service.submit(Envelope::new(EventKind::Login, id)),
            Ok(Admission::Accepted)
        );
    }
    assert_eq!(service.pending(), capacity);
    let extra = Envelope::new(EventKind::Login, 99);
    assert_eq!(service.submit(extra.clone()), Ok(Admission::Deferred(extra.clone())));
    assert_eq!(service.pending(), capacity);
    assert_eq!(service.poll(), call(EventKind::Login, 0, 0));
    assert_eq!(service.pending(), capacity - 1);
    assert_eq!(service.submit(extra), Ok(Admission::Accepted));
    let (calls, _) = {
        assert_eq!(service.complete(Ok(())), call(EventKind::Login, 0, 1));
        assert_eq!(service.complete(Ok(())), call(EventKind::Login, 0, 2));
        assert_eq!(service.complete(Ok(())), call(EventKind::Login, 0, 99));
        assert_eq!(service.complete(Ok(())), Directive::Park);
        run_to_rest(&mut service)
    };
    assert!(calls.is_empty());
}

#[test]
fn default_capacity_is_ten() {
    assert_eq!(DEFAULT_CAPACITY, 10);
    let mut service: RQService<&'static str, u64> = RQServiceBuilder::new().build();
    assert_eq!(service.capacity(), 10);
    for id in 0..10 {
        assert_eq!(service.submit(group(id)), Ok(Admission::Accepted));
    }
    assert_eq!(service.submit(group(10)), Ok(Admission::Deferred(group(10))));
    assert_eq!(service.pending(), 10);
}

#[test]
fn a_queue_without_slots_defers_everything() {
    let mut service: RQService<&'static str, u64> =
        RQServiceBuilder::new().on_group_message("H").build_with_capacity(0);
    assert_eq!(service.submit(group(1)), Ok(Admission::Deferred(group(1))));
    assert_eq!(service.poll(), Directive::Park);
    assert_eq!(service.submit(group(1)), Ok(Admission::Deferred(group(1))));
}

#[test]
fn submission_does_not_wait_for_handlers() {
    let mut service: RQService<&'static str, u64> =
        RQServiceBuilder::new().on_group_message("H").build();
    assert_eq!(service.submit(group(1)), Ok(Admission::Accepted));
    assert_eq!(service.poll(), call(EventKind::GroupMessage, 0, 1));
    // The handler of the first envelope is still running.
    assert_eq!(service.submit(group(2)), Ok(Admission::Accepted));
    assert_eq!(service.submit(group(3)), Ok(Admission::Accepted));
    assert_eq!(service.pending(), 2);
    assert_eq!(service.phase(), Phase::Dispatching);
}

#[test]
fn a_failing_handler_stops_neither_its_siblings_nor_later_events() {
    let mut service: RQService<&'static str, u64> = RQServiceBuilder::new()
        .on_group_message("first")
        .on_group_message("second")
        .on_group_message("third")
        .build();
    service.submit(group(1)).unwrap();
    service.submit(group(2)).unwrap();
    assert_eq!(service.poll(), call(EventKind::GroupMessage, 0, 1));
    assert_eq!(service.failures(), 0);
    assert_eq!(service.complete(Err(HandlerFailed)), call(EventKind::GroupMessage, 1, 1));
    assert_eq!(service.failures(), 1);
    assert_eq!(service.complete(Err(HandlerFailed)), call(EventKind::GroupMessage, 2, 1));
    assert_eq!(service.complete(Err(HandlerFailed)), call(EventKind::GroupMessage, 0, 2));
    assert_eq!(service.complete(Ok(())), call(EventKind::GroupMessage, 1, 2));
    assert_eq!(service.complete(Ok(())), call(EventKind::GroupMessage, 2, 2));
    assert_eq!(service.complete(Err(HandlerFailed)), Directive::Park);
    assert_eq!(service.failures(), 4);
    assert_eq!(service.phase(), Phase::Idle);
    // The service still takes and dispatches events.
    assert_eq!(service.submit(group(3)), Ok(Admission::Accepted));
    assert_eq!(service.poll(), call(EventKind::GroupMessage, 0, 3));
}

#[test]
fn failure_and_success_give_the_same_next_call() {
    let build = || -> RQService<&'static str, u64> {
        let mut s = RQServiceBuilder::new()
            .on_friend_request("a")
            .on_friend_request("b")
            .build();
        s.submit(Envelope::new(EventKind::FriendRequest, 7)).unwrap();
        s.submit(Envelope::new(EventKind::FriendRequest, 8)).unwrap();
        s
    };
    let mut fine = build();
    let mut failing = build();
    let mut a = fine.poll();
    let mut b = failing.poll();
    for _ in 0..6 {
        assert_eq!(a, b);
        assert_eq!(fine.pending(), failing.pending());
        assert_eq!(fine.phase(), failing.phase());
        a = fine.complete(Ok(()));
        b = failing.complete(Err(HandlerFailed));
    }
    assert_eq!(fine.failures(), 0);
    assert_eq!(failing.failures(), 4);
}

#[test]
fn an_event_without_handlers_is_absorbed() {
    let mut service: RQService<&'static str, u64> =
        RQServiceBuilder::new().on_group_message("H").build();
    assert_eq!(service.handler_count(EventKind::Login), 0);
    assert_eq!(service.submit(Envelope::new(EventKind::Login, 42)), Ok(Admission::Accepted));
    assert_eq!(service.pending(), 1);
    assert_eq!(service.poll(), Directive::Park);
    assert_eq!(service.pending(), 0);
    assert_eq!(service.phase(), Phase::Idle);
    assert_eq!(service.failures(), 0);
}

#[test]
fn events_without_handlers_do_not_block_those_behind_them() {
    let mut service: RQService<&'static str, u64> =
        RQServiceBuilder::new().on_group_message("H").build_with_capacity(3);
    service.submit(Envelope::new(EventKind::Login, 1)).unwrap();
    service.submit(Envelope::new(EventKind::NewFriend, 2)).unwrap();
    service.submit(group(3)).unwrap();
    assert_eq!(service.submit(group(4)), Ok(Admission::Deferred(group(4))));
    assert_eq!(service.poll(), call(EventKind::GroupMessage, 0, 3));
    assert_eq!(service.pending(), 0);
    assert_eq!(service.complete(Ok(())), Directive::Park);
}

#[test]
fn unknown_events_are_absorbed() {
    assert!(!EventKind::Unknown.is_routed());
    assert!(EventKind::Login.is_routed());
    let mut service: RQService<&'static str, u64> = RQServiceBuilder::new()
        .on_login("l")
        .on_group_message("g")
        .build();
    assert_eq!(service.handler_count(EventKind::Unknown), 0);
    assert_eq!(service.handler(EventKind::Unknown, 0), None);
    service.submit(Envelope::new(EventKind::Unknown, 5)).unwrap();
    service.submit(Envelope::new(EventKind::Unknown, 6)).unwrap();
    let (calls, rest) = run_to_rest(&mut service);
    assert!(calls.is_empty());
    assert_eq!(rest, Directive::Park);
    assert_eq!(service.pending(), 0);
}

#[test]
fn after_teardown_submit_is_refused() {
    let mut service: RQService<&'static str, u64> =
        RQServiceBuilder::new().on_group_message("H").build();
    assert!(!service.is_stopped());
    assert!(!service.is_closing());
    service.teardown();
    assert!(service.is_stopped());
    assert!(service.is_closing());
    assert_eq!(service.phase(), Phase::Stopped);
    for id in 0..20 {
        assert_eq!(service.submit(group(id)), Err(ServiceError::ServiceUnavailable));
    }
    assert_eq!(service.pending(), 0);
    assert_eq!(service.poll(), Directive::Halt);
    assert_eq!(service.complete(Ok(())), Directive::Halt);
    service.teardown();
    assert_eq!(service.phase(), Phase::Stopped);
}

#[test]
fn teardown_leaves_queued_envelopes_undelivered() {
    let mut service: RQService<&'static str, u64> =
        RQServiceBuilder::new().on_group_message("H").build();
    service.submit(group(1)).unwrap();
    service.submit(group(2)).unwrap();
    service.teardown();
    assert_eq!(service.poll(), Directive::Halt);
    assert_eq!(service.pending(), 2);
    assert_eq!(service.submit(group(3)), Err(ServiceError::ServiceUnavailable));
    assert_eq!(service.pending(), 2);
}

#[test]
fn teardown_during_dispatch_lets_the_chain_finish() {
    let mut service: RQService<&'static str, u64> = RQServiceBuilder::new()
        .on_group_message("H1")
        .on_group_message("H2")
        .on_group_message("H3")
        .build();
    service.submit(group(1)).unwrap();
    service.submit(group(2)).unwrap();
    assert_eq!(service.poll(), call(EventKind::GroupMessage, 0, 1));
    assert!(!service.is_closing());
    service.teardown();
    assert!(service.is_closing());
    assert!(!service.is_stopped());
    assert_eq!(service.phase(), Phase::Dispatching);
    // The door is shut at once.
    assert_eq!(service.submit(group(3)), Err(ServiceError::ServiceUnavailable));
    assert_eq!(service.poll(), Directive::Busy);
    // The handlers of the envelope in progress are still run, failures or not.
    assert_eq!(service.complete(Err(HandlerFailed)), call(EventKind::GroupMessage, 1, 1));
    assert_eq!(service.complete(Ok(())), call(EventKind::GroupMessage, 2, 1));
    assert_eq!(service.submit(group(4)), Err(ServiceError::ServiceUnavailable));
    // After the last of them the core stops; the second envelope stays where it is.
    assert_eq!(service.complete(Ok(())), Directive::Halt);
    assert!(service.is_stopped());
    assert_eq!(service.phase(), Phase::Stopped);
    assert_eq!(service.pending(), 1);
    assert_eq!(service.failures(), 1);
    assert_eq!(service.poll(), Directive::Halt);
    assert_eq!(service.complete(Ok(())), Directive::Halt);
}

#[test]
fn abandon_during_dispatch_orders_no_further_call() {
    let mut service: RQService<&'static str, u64> = RQServiceBuilder::new()
        .on_group_message("H1")
        .on_group_message("H2")
        .build();
    service.submit(group(1)).unwrap();
    service.submit(group(2)).unwrap();
    assert_eq!(service.poll(), call(EventKind::GroupMessage, 0, 1));
    service.abandon();
    assert!(service.is_stopped());
    assert!(service.is_closing());
    assert_eq!(service.complete(Err(HandlerFailed)), Directive::Halt);
    assert_eq!(service.failures(), 0);
    assert_eq!(service.poll(), Directive::Halt);
    assert_eq!(service.pending(), 1);
    assert_eq!(service.submit(group(3)), Err(ServiceError::ServiceUnavailable));
}

#[test]
fn abandon_after_teardown_cuts_the_chain_short() {
    let mut service: RQService<&'static str, u64> = RQServiceBuilder::new()
        .on_group_message("H1")
        .on_group_message("H2")
        .on_group_message("H3")
        .build();
    service.submit(group(1)).unwrap();
    assert_eq!(service.poll(), call(EventKind::GroupMessage, 0, 1));
    service.teardown();
    assert_eq!(service.complete(Ok(())), call(EventKind::GroupMessage, 1, 1));
    service.abandon();
    assert_eq!(service.phase(), Phase::Stopped);
    assert_eq!(service.complete(Ok(())), Directive::Halt);
    assert_eq!(service.poll(), Directive::Halt);
}

#[test]
fn abandon_of_an_idle_service_stops_it() {
    let mut service: RQService<&'static str, u64> =
        RQServiceBuilder::new().on_group_message("H").build();
    service.submit(group(1)).unwrap();
    service.abandon();
    assert!(service.is_stopped());
    assert_eq!(service.poll(), Directive::Halt);
    assert_eq!(service.submit(group(2)), Err(ServiceError::ServiceUnavailable));
    assert_eq!(service.pending(), 1);
}

#[test]
fn poll_during_a_call_answers_busy_and_changes_nothing() {
    let mut service: RQService<&'static str, u64> = RQServiceBuilder::new()
        .on_group_message("H1")
        .on_group_message("H2")
        .build();
    service.submit(group(1)).unwrap();
    service.submit(group(2)).unwrap();
    assert_eq!(service.poll(), call(EventKind::GroupMessage, 0, 1));
    assert_eq!(service.poll(), Directive::Busy);
    assert_eq!(service.poll(), Directive::Busy);
    assert_eq!(service.pending(), 1);
    assert_eq!(service.phase(), Phase::Dispatching);
    assert_eq!(service.complete(Ok(())), call(EventKind::GroupMessage, 1, 1));
}

#[test]
fn a_report_without_a_call_counts_for_nothing() {
    let mut service: RQService<&'static str, u64> =
        RQServiceBuilder::new().on_group_message("H").build();
    assert_eq!(service.complete(Err(HandlerFailed)), Directive::Park);
    assert_eq!(service.failures(), 0);
    service.submit(group(1)).unwrap();
    assert_eq!(service.complete(Err(HandlerFailed)), call(EventKind::GroupMessage, 0, 1));
    assert_eq!(service.failures(), 0);
    assert_eq!(service.complete(Err(HandlerFailed)), Directive::Park);
    assert_eq!(service.failures(), 1);
}

#[test]
fn a_new_service_is_idle_and_empty() {
    let mut service: RQService<&'static str, u64> = RQServiceBuilder::new().build();
    assert_eq!(service.phase(), Phase::Idle);
    assert!(!service.is_stopped());
    assert_eq!(service.pending(), 0);
    assert_eq!(service.failures(), 0);
    assert_eq!(service.poll(), Directive::Park);
    assert_eq!(service.phase(), Phase::Idle);
}

#[test]
fn every_handler_gets_exactly_its_variant_in_submission_order() {
    let mut service: RQService<&'static str, u64> = RQServiceBuilder::new()
        .on_group_message("g1")
        .on_private_message("p1")
        .on_group_message("g2")
        .on_friend_poke("k1")
        .build_with_capacity(4);
    let kinds = [
        EventKind::GroupMessage,
        EventKind::PrivateMessage,
        EventKind::Login,
        EventKind::GroupMessage,
        EventKind::FriendPoke,
        EventKind::PrivateMessage,
        EventKind::Unknown,
        EventKind::GroupMessage,
        EventKind::FriendPoke,
    ];
    let submitted: Vec<Envelope<u64>> = kinds
        .iter()
        .enumerate()
        .map(|(i, k)| Envelope::new(*k, 100 + i as u64))
        .collect();
    let mut calls: Vec<(&'static str, u64)> = Vec::new();
    for envelope in submitted.iter() {
        let mut offer = envelope.clone();
        loop {
            match service.submit(offer).unwrap() {
                Admission::Accepted => break,
                Admission::Deferred(back) => {
                    // Full: let the consumer work off what waits.
                    let (more, rest) = run_to_rest(&mut service);
                    assert_eq!(rest, Directive::Park);
                    calls.extend(more);
                    offer = back;
                }
            }
        }
    }
    let (more, rest) = run_to_rest(&mut service);
    assert_eq!(rest, Directive::Park);
    calls.extend(more);

    let of = |kind: EventKind| -> Vec<u64> {
        submitted.iter().filter(|e| e.kind == kind).map(|e| e.payload).collect()
    };
    let got = |name: &str| -> Vec<u64> {
        calls.iter().filter(|c| c.0 == name).map(|c| c.1).collect()
    };
    assert_eq!(got("g1"), of(EventKind::GroupMessage));
    assert_eq!(got("g2"), of(EventKind::GroupMessage));
    assert_eq!(got("p1"), of(EventKind::PrivateMessage));
    assert_eq!(got("k1"), of(EventKind::FriendPoke));
    assert_eq!(got("g1"), vec![100, 103, 107]);
    assert_eq!(got("p1"), vec![101, 105]);
    assert_eq!(got("k1"), vec![104, 108]);
    assert_eq!(calls.len(), 3 * 2 + 2 + 2);
}

#[test]
fn each_handler_gets_its_own_copy_of_the_payload() {
    let mut service: RQService<u8, Vec<u8>> = RQServiceBuilder::new()
        .on_new_member(1)
        .on_new_member(2)
        .build();
    service.submit(Envelope::new(EventKind::NewMember, vec![1, 2, 3])).unwrap();
    let first = match service.poll() {
        Directive::Invoke(inv) => inv,
        other => panic!("expected a call, got {:?}", other),
    };
    let mut mine = first.payload;
    assert_eq!(mine, vec![1, 2, 3]);
    mine.push(4);
    mine[0] = 9;
    let second = match service.complete(Ok(())) {
        Directive::Invoke(inv) => inv,
        other => panic!("expected a call, got {:?}", other),
    };
    assert_eq!(second.slot, 1);
    assert_eq!(second.payload, vec![1, 2, 3]);
}
