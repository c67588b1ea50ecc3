//! What holds of the service over whole runs: the laws of delivery,
//! backpressure, fault isolation and teardown, stated over the state machine
//! that the service's own contracts speak of, and proved.

use vstd::prelude::*;
use crate::event::{Admission, Directive, Envelope, EventKind, HandlerFailed, Invocation, Phase,
    ServiceError};
use crate::registry::{handlers_in, valid_lists};
use crate::state::ServiceState;
use crate::trace::{fanout, lemma_received_concat, lemma_received_fanout_prefix,
    lemma_received_trace, lemma_tagged_prefix, received, tagged, trace_of};

verus! {

/// One call into the service.
pub enum Op<P> {
    Submit(Envelope<P>),
    Poll,
    Complete(Result<(), HandlerFailed>),
    Teardown,
    Abandon,
}

/// What a call into the service answers.
pub enum Reply<P> {
    Submitted(Result<Admission<P>, ServiceError>),
    Directed(Directive<P>),
    Done,
}

/// The state after `op` and the answer to it.
pub open spec fn step<H, P>(state: ServiceState<H, P>, op: Op<P>) -> (ServiceState<H, P>, Reply<P>) {
    match op {
        Op::Submit(envelope) => (
            state.submit(envelope).0,
            Reply::Submitted(state.submit(envelope).1),
        ),
        Op::Poll => (state.poll().0, Reply::Directed(state.poll().1)),
        Op::Complete(outcome) => (
            state.complete(outcome).0,
            Reply::Directed(state.complete(outcome).1),
        ),
        Op::Teardown => (state.teardown(), Reply::Done),
        Op::Abandon => (state.abandon(), Reply::Done),
    }
}

/// The state after the calls `ops`, made one after the other.
pub open spec fn run<H, P>(state: ServiceState<H, P>, ops: Seq<Op<P>>) -> ServiceState<H, P>
    decreases ops.len(),
{
    if ops.len() == 0 {
        state
    } else {
        step(run(state, ops.drop_last()), ops.last()).0
    }
}

/// The state after `envelopes` were submitted one after the other, with no
/// other call in between.
pub open spec fn submit_all<H, P>(state: ServiceState<H, P>, envelopes: Seq<Envelope<P>>)
    -> ServiceState<H, P>
    decreases envelopes.len(),
{
    if envelopes.len() == 0 {
        state
    } else {
        submit_all(state, envelopes.drop_last()).submit(envelopes.last()).0
    }
}

/// The state after the outstanding call and those that follow it were
/// reported with `outcomes`, with no other call in between.
pub open spec fn complete_all<H, P>(
    state: ServiceState<H, P>,
    outcomes: Seq<Result<(), HandlerFailed>>,
) -> ServiceState<H, P>
    decreases outcomes.len(),
{
    if outcomes.len() == 0 {
        state
    } else {
        complete_all(state, outcomes.drop_last()).complete(outcomes.last()).0
    }
}

/// What a stopped service answers to `op`.
pub open spec fn refusal<P>(op: Op<P>) -> Reply<P> {
    match op {
        Op::Submit(_) => Reply::Submitted(Err(ServiceError::ServiceUnavailable)),
        Op::Poll => Reply::Directed(Directive::Halt),
        Op::Complete(_) => Reply::Directed(Directive::Halt),
        Op::Teardown => Reply::Done,
        Op::Abandon => Reply::Done,
    }
}

/// `state` with its count of failures replaced.
pub open spec fn with_failures<H, P>(state: ServiceState<H, P>, failures: nat) -> ServiceState<
    H,
    P,
> {
    ServiceState { failures, ..state }
}

/// Every call keeps the state valid.
pub proof fn law_step_keeps_invariant<H, P>(state: ServiceState<H, P>, op: Op<P>)
    requires
        state.inv(),
    ensures
        step(state, op).0.inv(),
{
    match op {
        Op::Submit(envelope) => state.lemma_submit_inv(envelope),
        Op::Poll => state.lemma_poll_inv(),
        Op::Complete(outcome) => state.lemma_complete_inv(outcome),
        Op::Teardown => state.lemma_teardown_inv(),
        Op::Abandon => state.lemma_abandon_inv(),
    }
}

/// Whatever calls are made on a service, in whatever order, from the moment
/// it is built, its state is valid.
pub proof fn law_reachable_states_are_valid<H, P>(
    lists: Map<EventKind, Seq<H>>,
    capacity: nat,
    ops: Seq<Op<P>>,
)
    requires
        valid_lists(lists),
    ensures
        run(ServiceState::<H, P>::init(lists, capacity), ops).inv(),
    decreases ops.len(),
{
    if ops.len() == 0 {
        ServiceState::<H, P>::lemma_init_inv(lists, capacity);
    } else {
        law_reachable_states_are_valid::<H, P>(lists, capacity, ops.drop_last());
        law_step_keeps_invariant(
            run(ServiceState::<H, P>::init(lists, capacity), ops.drop_last()),
            ops.last(),
        );
    }
}

/// What an idle core does leaves the registry, the capacity and the
/// teardown flag as they are, and accepts nothing.
pub proof fn lemma_drain_keeps<H, P>(state: ServiceState<H, P>)
    ensures
        state.drain().0.lists == state.lists,
        state.drain().0.capacity == state.capacity,
        state.drain().0.closing == state.closing,
        state.drain().0.admitted == state.admitted,
    decreases state.queue.len(),
{
    if state.queue.len() > 0 && state.handlers(state.queue[0].kind).len() == 0 {
        lemma_drain_keeps(state.absorb());
    }
}

/// The registry is frozen and the capacity fixed: no call changes either.
pub proof fn law_registry_is_frozen<H, P>(state: ServiceState<H, P>, ops: Seq<Op<P>>)
    ensures
        run(state, ops).lists == state.lists,
        run(state, ops).capacity == state.capacity,
    decreases ops.len(),
{
    if ops.len() > 0 {
        law_registry_is_frozen(state, ops.drop_last());
        let before = run(state, ops.drop_last());
        match ops.last() {
            Op::Poll => {
                lemma_drain_keeps(before);
            },
            Op::Complete(outcome) => {
                lemma_drain_keeps(before);
                lemma_drain_keeps(before.note(outcome).finish());
            },
            _ => {},
        }
    }
}

/// What an idle core does adds to the history exactly the call it orders.
pub proof fn lemma_drain_is_recorded<H, P>(state: ServiceState<H, P>)
    ensures
        match state.drain().1 {
            Directive::Invoke(call) => state.drain().0.delivered == state.delivered.push(call),
            _ => state.drain().0.delivered == state.delivered,
        },
    decreases state.queue.len(),
{
    if state.queue.len() > 0 && state.handlers(state.queue[0].kind).len() == 0 {
        lemma_drain_is_recorded(state.absorb());
    }
}

/// The history is what the answers say. A call adds an envelope to the
/// accepted ones exactly when it is a submission answered `Accepted`, and
/// that envelope; it adds a handler call to the ordered ones exactly when it
/// is answered `Invoke`, and that call.
pub proof fn law_history_records_answers<H, P>(state: ServiceState<H, P>, op: Op<P>)
    ensures
        match (op, step(state, op).1) {
            (Op::Submit(envelope), Reply::Submitted(Ok(Admission::Accepted))) => step(
                state,
                op,
            ).0.admitted == state.admitted.push(envelope),
            _ => step(state, op).0.admitted == state.admitted,
        },
        match step(state, op).1 {
            Reply::Directed(Directive::Invoke(call)) => step(state, op).0.delivered
                == state.delivered.push(call),
            _ => step(state, op).0.delivered == state.delivered,
        },
{
    match op {
        Op::Poll => {
            lemma_drain_is_recorded(state);
            lemma_drain_keeps(state);
        },
        Op::Complete(outcome) => {
            lemma_drain_is_recorded(state);
            lemma_drain_keeps(state);
            lemma_drain_is_recorded(state.note(outcome).finish());
            lemma_drain_keeps(state.note(outcome).finish());
        },
        _ => {},
    }
}

/// First in, first out. In every valid state what waits in the queue is the
/// tail of the accepted envelopes, in the order of their acceptance: the
/// consumer has taken them up in that order, and none out of turn.
pub proof fn law_first_in_first_out<H, P>(state: ServiceState<H, P>)
    requires
        state.inv(),
    ensures
        state.queue.len() <= state.admitted.len(),
        state.admitted == state.admitted.take(state.admitted.len() - state.queue.len())
            + state.queue,
        state.current matches Some(envelope) ==> envelope == state.admitted[state.admitted.len()
            - state.queue.len() - 1],
{
    let at = state.admitted.len() - state.queue.len();
    assert(state.admitted =~= state.admitted.take(at) + state.admitted.skip(at));
}

/// Delivery is in order and exactly once. In every valid state, what the
/// handler at `slot` of `kind` has been handed so far is a prefix of the
/// payloads of the accepted envelopes of that variant, in the order of their
/// acceptance, each once. Once nothing waits and nothing is in progress it
/// has been handed all of them.
pub proof fn law_in_order_exactly_once<H, P>(state: ServiceState<H, P>, kind: EventKind, slot: usize)
    requires
        state.inv(),
        slot < state.handlers(kind).len(),
    ensures
        received(state.delivered, kind, slot).is_prefix_of(tagged(state.admitted, kind)),
        state.settled() ==> received(state.delivered, kind, slot) == tagged(state.admitted, kind),
{
    let done = state.done();
    let finished = state.admitted.take(done);
    let base = trace_of(state.lists, finished);
    lemma_received_trace(state.lists, finished, kind, slot);
    lemma_tagged_prefix(state.admitted, done, kind);
    match state.current {
        Some(envelope) => {
            let part = fanout(state.lists, envelope).take((state.cursor + 1) as int);
            lemma_received_concat(base, part, kind, slot);
            lemma_received_fanout_prefix(
                state.lists,
                envelope,
                (state.cursor + 1) as int,
                kind,
                slot,
            );
            let longer = state.admitted.take(done + 1);
            assert(longer.drop_last() =~= finished);
            assert(longer.last() == envelope);
            lemma_tagged_prefix(state.admitted, done + 1, kind);
            let so_far = received(state.delivered, kind, slot);
            if envelope.kind == kind && slot < state.cursor + 1 {
                assert(so_far =~= tagged(finished, kind).push(envelope.payload));
                assert(so_far == tagged(longer, kind));
            } else {
                assert(so_far =~= tagged(finished, kind));
            }
        },
        None => {
            if state.settled() {
                assert(finished =~= state.admitted);
            }
        },
    }
}

/// Delivery over a whole run. Whatever calls are made on a service from the
/// moment it is built, each registered handler has been handed a prefix of
/// the payloads of the accepted envelopes of its variant, in the order of
/// their acceptance, each once; and all of them once nothing waits and
/// nothing is in progress.
pub proof fn law_delivery_over_runs<H, P>(
    lists: Map<EventKind, Seq<H>>,
    capacity: nat,
    ops: Seq<Op<P>>,
    kind: EventKind,
    slot: usize,
)
    requires
        valid_lists(lists),
        slot < handlers_in(lists, kind).len(),
    ensures
        ({
            let end = run(ServiceState::<H, P>::init(lists, capacity), ops);
            &&& received(end.delivered, kind, slot).is_prefix_of(tagged(end.admitted, kind))
            &&& end.settled() ==> received(end.delivered, kind, slot) == tagged(
                end.admitted,
                kind,
            )
        }),
{
    law_reachable_states_are_valid::<H, P>(lists, capacity, ops);
    law_registry_is_frozen(ServiceState::<H, P>::init(lists, capacity), ops);
    law_in_order_exactly_once(run(ServiceState::<H, P>::init(lists, capacity), ops), kind, slot);
}

/// Submitted one after the other to a service that is not being torn down
/// and whose queue is empty, as many envelopes as the queue has slots are
/// all accepted, in order.
pub proof fn law_queue_fills<H, P>(state: ServiceState<H, P>, envelopes: Seq<Envelope<P>>)
    requires
        !state.closing,
        state.queue.len() == 0,
        envelopes.len() <= state.capacity,
    ensures
        submit_all(state, envelopes) == (ServiceState {
            queue: envelopes,
            admitted: state.admitted + envelopes,
            ..state
        }),
    decreases envelopes.len(),
{
    let after = submit_all(state, envelopes);
    if envelopes.len() == 0 {
        assert(after.queue =~= envelopes);
        assert(after.admitted =~= state.admitted + envelopes);
    } else {
        law_queue_fills(state, envelopes.drop_last());
        let before = submit_all(state, envelopes.drop_last());
        assert(before.queue.push(envelopes.last()) =~= envelopes);
        assert(before.admitted.push(envelopes.last()) =~= state.admitted + envelopes);
    }
    assert(after =~= (ServiceState {
        queue: envelopes,
        admitted: state.admitted + envelopes,
        ..state
    }));
}

/// Backpressure. When as many envelopes as the queue has slots have been
/// submitted to a service that is not being torn down and whose queue was
/// empty, and none has left the queue, one more submission is deferred: the
/// envelope comes back and nothing changes.
pub proof fn law_backpressure<H, P>(
    state: ServiceState<H, P>,
    envelopes: Seq<Envelope<P>>,
    extra: Envelope<P>,
)
    requires
        !state.closing,
        state.queue.len() == 0,
        envelopes.len() == state.capacity,
    ensures
        submit_all(state, envelopes).submit(extra) == (
            submit_all(state, envelopes),
            Ok::<Admission<P>, ServiceError>(Admission::Deferred(extra)),
        ),
        submit_all(state, envelopes.push(extra)) == submit_all(state, envelopes),
{
    law_queue_fills(state, envelopes);
    assert(envelopes.push(extra).drop_last() =~= envelopes);
}

/// A submission is deferred exactly while no teardown has begun and the
/// queue is full, accepted exactly while none has begun and the queue has a
/// free slot, and a deferred or refused submission changes nothing.
pub proof fn law_deferred_while_full<H, P>(state: ServiceState<H, P>, envelope: Envelope<P>)
    ensures
        state.submit(envelope).1 == Ok::<Admission<P>, ServiceError>(Admission::Deferred(envelope))
            <==> !state.closing && state.queue.len() >= state.capacity,
        state.submit(envelope).1 == Ok::<Admission<P>, ServiceError>(Admission::Accepted)
            <==> !state.closing && state.queue.len() < state.capacity,
        state.submit(envelope).1 == Err::<Admission<P>, ServiceError>(
            ServiceError::ServiceUnavailable,
        ) <==> state.closing,
        state.submit(envelope).1 != Ok::<Admission<P>, ServiceError>(Admission::Accepted)
            ==> state.submit(envelope).0 == state,
{
}

/// The queue only ever shrinks by the consumer's calls: a submission or a
/// teardown never takes an envelope out of it.
pub proof fn law_only_the_consumer_dequeues<H, P>(state: ServiceState<H, P>, op: Op<P>)
    requires
        step(state, op).0.queue.len() < state.queue.len(),
    ensures
        op is Poll || op is Complete,
{
}

/// What an idle core does with a queue that is not empty takes at least one
/// envelope out of it.
pub proof fn lemma_drain_shrinks<H, P>(state: ServiceState<H, P>)
    requires
        state.queue.len() > 0,
    ensures
        state.drain().0.queue.len() < state.queue.len(),
    decreases state.queue.len(),
{
    if state.handlers(state.queue[0].kind).len() == 0 {
        if state.absorb().queue.len() > 0 {
            lemma_drain_shrinks(state.absorb());
        } else {
            assert(state.absorb().drain().0 == state.absorb());
        }
    }
}

/// When the idle consumer of a service asks for work while envelopes wait,
/// at least one leaves the queue, and the next submission is accepted.
pub proof fn law_dequeue_releases<H, P>(state: ServiceState<H, P>, envelope: Envelope<P>)
    requires
        state.inv(),
        state.phase == Phase::Idle,
        state.queue.len() > 0,
    ensures
        state.poll().0.queue.len() < state.queue.len(),
        state.poll().0.submit(envelope).1 == Ok::<Admission<P>, ServiceError>(Admission::Accepted),
{
    lemma_drain_shrinks(state);
    lemma_drain_keeps(state);
}

/// What an idle core does never looks at the count of failures.
pub proof fn lemma_drain_ignores_failures<H, P>(state: ServiceState<H, P>, failures: nat)
    ensures
        with_failures(state, failures).drain().0 == with_failures(state.drain().0, failures),
        with_failures(state, failures).drain().1 == state.drain().1,
    decreases state.queue.len(),
{
    let other = with_failures(state, failures);
    if state.queue.len() == 0 {
    } else if state.handlers(state.queue[0].kind).len() == 0 {
        lemma_drain_ignores_failures(state.absorb(), failures);
        assert(other.absorb() =~= with_failures(state.absorb(), failures));
    } else {
        assert(other.begin() =~= with_failures(state.begin(), failures));
    }
}

/// Fault isolation, at the call that fails. Whether the outstanding handler
/// call is reported as failed or not, the answer is the same and so is the
/// state that follows, but for the count of failures: the handlers behind
/// it are called all the same.
pub proof fn law_failure_is_contained<H, P>(state: ServiceState<H, P>)
    ensures
        state.complete(Err(HandlerFailed)).1 == state.complete(Ok(())).1,
        state.complete(Err(HandlerFailed)).0 == with_failures(
            state.complete(Ok(())).0,
            state.complete(Err(HandlerFailed)).0.failures,
        ),
{
    let failed = state.complete(Err(HandlerFailed));
    let fine = state.complete(Ok(()));
    match state.phase {
        Phase::Dispatching => {
            let a = state.note(Err(HandlerFailed));
            let b = state.note(Ok(()));
            assert(a =~= with_failures(b, a.failures));
            if state.cursor + 1 < state.handlers(state.current.unwrap().kind).len() {
                assert(a.advance() =~= with_failures(b.advance(), a.failures));
            } else if state.closing {
                assert(a.retire() =~= with_failures(b.retire(), a.failures));
            } else {
                assert(a.finish() =~= with_failures(b.finish(), a.failures));
                lemma_drain_ignores_failures(b.finish(), a.failures);
            }
        },
        _ => {
            assert(failed.0 =~= with_failures(fine.0, failed.0.failures));
        },
    }
}

/// Fault isolation, ever after. Two states that differ in nothing but the
/// count of failures answer every call alike and differ in nothing else
/// afterwards: a failure has no bearing on any later event.
pub proof fn law_failures_steer_nothing<H, P>(state: ServiceState<H, P>, failures: nat, op: Op<P>)
    ensures
        step(with_failures(state, failures), op).1 == step(state, op).1,
        step(with_failures(state, failures), op).0 == with_failures(
            step(state, op).0,
            step(with_failures(state, failures), op).0.failures,
        ),
{
    let other = with_failures(state, failures);
    let a = step(other, op).0;
    let b = step(state, op).0;
    match op {
        Op::Submit(envelope) => {
            if !state.closing && state.queue.len() < state.capacity {
                assert(other.accept(envelope) =~= with_failures(state.accept(envelope), failures));
            }
            assert(a =~= with_failures(b, a.failures));
        },
        Op::Poll => {
            lemma_drain_ignores_failures(state, failures);
            assert(a =~= with_failures(b, a.failures));
        },
        Op::Complete(outcome) => {
            match state.phase {
                Phase::Stopped => {
                    assert(a =~= with_failures(b, a.failures));
                },
                Phase::Idle => {
                    lemma_drain_ignores_failures(state, failures);
                    assert(a =~= with_failures(b, a.failures));
                },
                Phase::Dispatching => {
                    let x = other.note(outcome);
                    let y = state.note(outcome);
                    assert(x =~= with_failures(y, x.failures));
                    if state.cursor + 1 < state.handlers(state.current.unwrap().kind).len() {
                        assert(x.advance() =~= with_failures(y.advance(), x.failures));
                    } else if state.closing {
                        assert(x.retire() =~= with_failures(y.retire(), x.failures));
                    } else {
                        assert(x.finish() =~= with_failures(y.finish(), x.failures));
                        lemma_drain_ignores_failures(y.finish(), x.failures);
                    }
                },
            }
        },
        Op::Teardown => {
            assert(a =~= with_failures(b, a.failures));
        },
        Op::Abandon => {
            assert(a =~= with_failures(b, a.failures));
        },
    }
}

/// An envelope whose variant has no handler is passed over: the idle core
/// takes it out of the queue, orders no call for it, and goes on with what
/// waits behind it as if it had never been there.
pub proof fn law_unhandled_is_passed_over<H, P>(state: ServiceState<H, P>)
    requires
        state.phase == Phase::Idle,
        state.queue.len() > 0,
        state.handlers(state.queue[0].kind).len() == 0,
    ensures
        state.poll() == state.absorb().poll(),
        state.absorb() == (ServiceState { queue: state.queue.skip(1), ..state }),
        fanout(state.lists, state.queue[0]) == Seq::<Invocation<P>>::empty(),
{
    assert(fanout(state.lists, state.queue[0]) =~= Seq::empty());
}

/// In a valid state an event outside the routed set has no handler, so it
/// is passed over like any other event without handlers.
pub proof fn law_unknown_has_no_handler<H, P>(state: ServiceState<H, P>, envelope: Envelope<P>)
    requires
        state.inv(),
        envelope.kind == EventKind::Unknown,
    ensures
        state.handlers(envelope.kind).len() == 0,
        fanout(state.lists, envelope) == Seq::<Invocation<P>>::empty(),
{
    assert(fanout(state.lists, envelope) =~= Seq::empty());
}

/// After the idle consumer asked for work, no envelope is left at the head
/// of the queue for want of a handler: either a call is outstanding or the
/// queue is empty.
pub proof fn law_queue_is_never_blocked<H, P>(state: ServiceState<H, P>)
    requires
        state.phase == Phase::Idle,
    ensures
        state.poll().1 is Invoke || state.poll().1 is Park,
        state.poll().1 is Invoke ==> state.poll().0.phase == Phase::Dispatching,
        state.poll().1 is Park ==> state.poll().0.phase == Phase::Idle && state.poll().0.queue.len()
            == 0 && state.poll().0.delivered == state.delivered,
    decreases state.queue.len(),
{
    if state.queue.len() > 0 && state.handlers(state.queue[0].kind).len() == 0 {
        law_queue_is_never_blocked(state.absorb());
    }
}

/// The dispatch core moves between its phases in these ways only. It leaves
/// idle for dispatching when the consumer is given a call; it leaves
/// dispatching for idle when the last handler of the envelope in progress
/// has been reported; it stops by a teardown, by being given up, or at the
/// end of the handlers in progress once teardown has begun; and once stopped
/// it stays stopped.
pub proof fn law_phase_moves<H, P>(state: ServiceState<H, P>, op: Op<P>)
    requires
        state.inv(),
    ensures
        ({
            let before = state.phase;
            let after = step(state, op).0.phase;
            let answer = step(state, op).1;
            &&& before == Phase::Stopped ==> after == Phase::Stopped
            &&& before != Phase::Stopped && after == Phase::Stopped ==> {
                ||| op is Teardown
                ||| op is Abandon
                ||| op is Complete && state.closing
            }
            &&& before == Phase::Idle && after == Phase::Dispatching ==> {
                &&& op is Poll || op is Complete
                &&& answer matches Reply::Directed(Directive::Invoke(_))
            }
            &&& before == Phase::Dispatching && after == Phase::Idle ==> {
                &&& op is Complete
                &&& state.cursor + 1 == state.handlers(state.current.unwrap().kind).len()
                &&& answer == Reply::<P>::Directed(Directive::Park)
            }
        }),
{
    match op {
        Op::Poll => {
            if state.phase == Phase::Idle {
                law_queue_is_never_blocked(state);
            }
        },
        Op::Complete(outcome) => {
            if state.phase == Phase::Idle {
                law_queue_is_never_blocked(state);
            } else if state.phase == Phase::Dispatching {
                law_queue_is_never_blocked(state.note(outcome).finish());
            }
        },
        _ => {},
    }
}

/// Once teardown has begun, every submission is refused, and no call accepts
/// an envelope, takes one out of the queue or undoes the teardown. The one
/// handler call that may still be ordered is the next one for the envelope
/// that was in progress.
pub proof fn law_closing_accepts_nothing<H, P>(state: ServiceState<H, P>, op: Op<P>)
    requires
        state.inv(),
        state.closing,
    ensures
        step(state, op).0.closing,
        step(state, op).0.admitted == state.admitted,
        step(state, op).0.queue == state.queue,
        op is Submit ==> step(state, op).1 == Reply::<P>::Submitted(
            Err(ServiceError::ServiceUnavailable),
        ),
        step(state, op).1 matches Reply::Directed(Directive::Invoke(call)) ==> {
            &&& state.phase == Phase::Dispatching
            &&& step(state, op).0.current == state.current
            &&& call == ServiceState::<H, P>::call(state.current.unwrap(), state.cursor + 1)
        },
{
}

/// Teardown over a whole run. After teardown has begun, whatever calls are
/// made, the accepted envelopes and the queue stay as they were: no handler
/// is ever called for an envelope submitted later.
pub proof fn law_teardown_shuts_the_door<H, P>(state: ServiceState<H, P>, ops: Seq<Op<P>>)
    requires
        state.inv(),
    ensures
        run(state.teardown(), ops).inv(),
        run(state.teardown(), ops).closing,
        run(state.teardown(), ops).admitted == state.admitted,
        run(state.teardown(), ops).queue == state.queue,
    decreases ops.len(),
{
    if ops.len() == 0 {
        state.lemma_teardown_inv();
    } else {
        law_teardown_shuts_the_door(state, ops.drop_last());
        let before = run(state.teardown(), ops.drop_last());
        law_step_keeps_invariant(before, ops.last());
        law_closing_accepts_nothing(before, ops.last());
    }
}

/// A graceful teardown runs out. When teardown has begun while the handler
/// at position `cursor` of the current envelope was running, the reports of
/// that call and of those behind it, as many as there are handlers left,
/// bring the core to a stop; before the last of them it is still at work on
/// the same envelope.
pub proof fn law_teardown_runs_out<H, P>(
    state: ServiceState<H, P>,
    outcomes: Seq<Result<(), HandlerFailed>>,
)
    requires
        state.inv(),
        state.closing,
        state.phase == Phase::Dispatching,
        outcomes.len() <= state.handlers(state.current.unwrap().kind).len() - state.cursor,
    ensures
        ({
            let left = state.handlers(state.current.unwrap().kind).len() - state.cursor;
            let end = complete_all(state, outcomes);
            &&& end.inv()
            &&& end.closing
            &&& end.lists == state.lists
            &&& outcomes.len() < left ==> end.phase == Phase::Dispatching && end.current
                == state.current && end.cursor == state.cursor + outcomes.len()
            &&& outcomes.len() == left ==> end.stopped() && end.current.is_none()
        }),
    decreases outcomes.len(),
{
    if outcomes.len() > 0 {
        law_teardown_runs_out(state, outcomes.drop_last());
        let before = complete_all(state, outcomes.drop_last());
        before.lemma_complete_inv(outcomes.last());
    }
}

/// A stopped service answers every call with a refusal and does not change.
pub proof fn law_stopped_refuses<H, P>(state: ServiceState<H, P>, op: Op<P>)
    requires
        state.inv(),
        state.stopped(),
    ensures
        step(state, op) == (state, refusal(op)),
{
    assert(state.teardown() =~= state);
    assert(state.abandon() =~= state);
}

/// Stopped is final. Whatever calls are made on a stopped service, it stays
/// exactly as it is: no envelope is accepted and no handler call is ordered.
pub proof fn law_stopped_is_final<H, P>(state: ServiceState<H, P>, ops: Seq<Op<P>>)
    requires
        state.inv(),
        state.stopped(),
    ensures
        run(state, ops) == state,
    decreases ops.len(),
{
    if ops.len() > 0 {
        law_stopped_is_final(state, ops.drop_last());
        law_stopped_refuses(state, ops.last());
    }
}

/// Teardown of an idle service, and giving up wherever the service stands,
/// stop it for good at once.
pub proof fn law_teardown_stops<H, P>(state: ServiceState<H, P>, ops: Seq<Op<P>>)
    requires
        state.inv(),
    ensures
        state.phase == Phase::Idle ==> run(state.teardown(), ops) == state.teardown()
            && state.teardown().stopped(),
        run(state.abandon(), ops) == state.abandon() && state.abandon().stopped(),
{
    state.lemma_teardown_inv();
    state.lemma_abandon_inv();
    if state.phase == Phase::Idle {
        law_stopped_is_final(state.teardown(), ops);
    }
    law_stopped_is_final(state.abandon(), ops);
}

} // verus!
