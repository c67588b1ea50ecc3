//! The service as a mathematical state machine: its state, the transitions
//! that producers and the consumer drive, and the invariant that every
//! reachable state keeps.

use vstd::prelude::*;
use crate::event::{Admission, Directive, Envelope, EventKind, HandlerFailed, Invocation, Phase,
    ServiceError};
use crate::registry::{handlers_in, valid_lists};
use crate::trace::{fanout, lemma_trace_unhandled, trace_of};

verus! {

/// Everything the service's behaviour depends on, and its history.
#[verifier::ext_equal]
pub struct ServiceState<H, P> {
    /// The frozen registry.
    pub lists: Map<EventKind, Seq<H>>,
    /// The capacity of the admission queue.
    pub capacity: nat,
    /// The envelopes that wait in the admission queue, oldest first.
    pub queue: Seq<Envelope<P>>,
    /// Where the dispatch core stands.
    pub phase: Phase,
    /// Whether teardown has begun. From then on nothing is accepted.
    pub closing: bool,
    /// The envelope whose handlers are being run. In a stopped core, the
    /// envelope whose handlers were given up, if any.
    pub current: Option<Envelope<P>>,
    /// The position of the handler of `current` that was called last.
    pub cursor: nat,
    /// How many handler calls were reported as failed, up to `usize::MAX`.
    pub failures: nat,
    /// Every envelope ever accepted, in the order of acceptance.
    pub admitted: Seq<Envelope<P>>,
    /// Every handler call ever ordered, in order.
    pub delivered: Seq<Invocation<P>>,
}

/// `count` after one more failure, held at `usize::MAX`.
pub open spec fn one_more(count: nat) -> nat {
    if count < usize::MAX {
        count + 1
    } else {
        count
    }
}

impl<H, P> ServiceState<H, P> {
    /// A service that has just been built: idle, with an empty queue and no
    /// history.
    pub open spec fn init(lists: Map<EventKind, Seq<H>>, capacity: nat) -> Self {
        ServiceState {
            lists,
            capacity,
            queue: Seq::empty(),
            phase: Phase::Idle,
            closing: false,
            current: None,
            cursor: 0,
            failures: 0,
            admitted: Seq::empty(),
            delivered: Seq::empty(),
        }
    }

    /// The handlers registered for `kind`.
    pub open spec fn handlers(self, kind: EventKind) -> Seq<H> {
        handlers_in(self.lists, kind)
    }

    /// Whether the dispatch core has stopped for good.
    pub open spec fn stopped(self) -> bool {
        self.phase == Phase::Stopped
    }

    /// Whether nothing waits and nothing is being dispatched.
    pub open spec fn settled(self) -> bool {
        self.queue.len() == 0 && self.current.is_none()
    }

    /// How many accepted envelopes have left the queue and are done with.
    pub open spec fn done(self) -> int {
        self.admitted.len() - self.queue.len() - if self.current.is_some() {
            1int
        } else {
            0int
        }
    }

    /// The call to the handler at `slot` for `envelope`.
    pub open spec fn call(envelope: Envelope<P>, slot: nat) -> Invocation<P> {
        Invocation { kind: envelope.kind, slot: slot as usize, payload: envelope.payload }
    }

    /// The state after `envelope` joined the queue.
    pub open spec fn accept(self, envelope: Envelope<P>) -> Self {
        ServiceState {
            queue: self.queue.push(envelope),
            admitted: self.admitted.push(envelope),
            ..self
        }
    }

    /// A submission: refused once teardown has begun, deferred while the
    /// queue is full, accepted otherwise.
    pub open spec fn submit(self, envelope: Envelope<P>) -> (Self, Result<
        Admission<P>,
        ServiceError,
    >) {
        if self.closing {
            (self, Err(ServiceError::ServiceUnavailable))
        } else if self.queue.len() >= self.capacity {
            (self, Ok(Admission::Deferred(envelope)))
        } else {
            (self.accept(envelope), Ok(Admission::Accepted))
        }
    }

    /// The state after the oldest waiting envelope left the queue without a
    /// handler call.
    pub open spec fn absorb(self) -> Self {
        ServiceState { queue: self.queue.skip(1), ..self }
    }

    /// The state after the oldest waiting envelope left the queue and its
    /// first handler was called.
    pub open spec fn begin(self) -> Self {
        ServiceState {
            queue: self.queue.skip(1),
            phase: Phase::Dispatching,
            current: Some(self.queue[0]),
            cursor: 0,
            delivered: self.delivered.push(Self::call(self.queue[0], 0)),
            ..self
        }
    }

    /// What an idle core does: it takes envelopes from the queue, oldest
    /// first, passes over those whose variant has no handler, and calls the
    /// first handler of the first one that has any. With nothing left it
    /// parks.
    pub open spec fn drain(self) -> (Self, Directive<P>)
        decreases self.queue.len(),
    {
        if self.queue.len() == 0 {
            (self, Directive::Park)
        } else if self.handlers(self.queue[0].kind).len() == 0 {
            self.absorb().drain()
        } else {
            (self.begin(), Directive::Invoke(Self::call(self.queue[0], 0)))
        }
    }

    /// The consumer asks for work.
    pub open spec fn poll(self) -> (Self, Directive<P>) {
        match self.phase {
            Phase::Stopped => (self, Directive::Halt),
            Phase::Dispatching => (self, Directive::Busy),
            Phase::Idle => self.drain(),
        }
    }

    /// The state after the outstanding call was reported with `outcome`.
    pub open spec fn note(self, outcome: Result<(), HandlerFailed>) -> Self {
        ServiceState {
            failures: if outcome.is_err() {
                one_more(self.failures)
            } else {
                self.failures
            },
            ..self
        }
    }

    /// The state after the next handler of the current envelope was called.
    pub open spec fn advance(self) -> Self {
        ServiceState {
            cursor: self.cursor + 1,
            delivered: self.delivered.push(Self::call(self.current.unwrap(), self.cursor + 1)),
            ..self
        }
    }

    /// The state after the last handler of the current envelope returned.
    pub open spec fn finish(self) -> Self {
        ServiceState { phase: Phase::Idle, current: None, cursor: 0, ..self }
    }

    /// The state after the last handler of the current envelope returned
    /// during a teardown.
    pub open spec fn retire(self) -> Self {
        ServiceState { phase: Phase::Stopped, current: None, cursor: 0, ..self }
    }

    /// The consumer reports the end of the outstanding handler call. A
    /// failure is counted and changes nothing else: the next handler of the
    /// same envelope is called, or, after the last one, the core goes on as
    /// an idle core does, or stops if teardown has begun. Without an
    /// outstanding call the report counts for nothing.
    pub open spec fn complete(self, outcome: Result<(), HandlerFailed>) -> (Self, Directive<P>) {
        match self.phase {
            Phase::Stopped => (self, Directive::Halt),
            Phase::Idle => self.drain(),
            Phase::Dispatching => {
                let noted = self.note(outcome);
                if self.cursor + 1 < self.handlers(self.current.unwrap().kind).len() {
                    (
                        noted.advance(),
                        Directive::Invoke(Self::call(self.current.unwrap(), self.cursor + 1)),
                    )
                } else if self.closing {
                    (noted.retire(), Directive::Halt)
                } else {
                    noted.finish().drain()
                }
            },
        }
    }

    /// Teardown begins: nothing is accepted any more and nothing more leaves
    /// the queue. An idle core stops at once. A core that is running the
    /// handlers of an envelope runs them to the last and then stops.
    pub open spec fn teardown(self) -> Self {
        ServiceState {
            closing: true,
            phase: if self.phase == Phase::Idle {
                Phase::Stopped
            } else {
                self.phase
            },
            ..self
        }
    }

    /// The core stops where it stands: the handlers of the current envelope
    /// that have not been called yet are given up.
    pub open spec fn abandon(self) -> Self {
        ServiceState { closing: true, phase: Phase::Stopped, ..self }
    }

    /// What holds of every state that a service can reach.
    pub open spec fn inv(self) -> bool {
        &&& valid_lists(self.lists)
        &&& self.queue.len() <= self.capacity
        &&& 0 <= self.done()
        &&& self.queue == self.admitted.skip(self.admitted.len() - self.queue.len())
        &&& self.phase == Phase::Idle ==> self.current.is_none() && !self.closing
        &&& self.phase == Phase::Dispatching ==> self.current.is_some()
        &&& self.phase == Phase::Stopped ==> self.closing
        &&& self.failures <= usize::MAX
        &&& match self.current {
            Some(envelope) => {
                &&& envelope == self.admitted[self.done()]
                &&& self.cursor < self.handlers(envelope.kind).len()
                &&& self.delivered == trace_of(self.lists, self.admitted.take(self.done()))
                    + fanout(self.lists, envelope).take((self.cursor + 1) as int)
            },
            None => {
                &&& self.cursor == 0
                &&& self.delivered == trace_of(self.lists, self.admitted.take(self.done()))
            },
        }
    }

    /// A service that has just been built is in a valid state.
    pub proof fn lemma_init_inv(lists: Map<EventKind, Seq<H>>, capacity: nat)
        requires
            valid_lists(lists),
        ensures
            Self::init(lists, capacity).inv(),
    {
        let s = Self::init(lists, capacity);
        assert(s.admitted.take(0) =~= Seq::empty());
        assert(s.queue =~= s.admitted.skip(0));
    }

    /// A submission keeps the state valid.
    pub proof fn lemma_submit_inv(self, envelope: Envelope<P>)
        requires
            self.inv(),
        ensures
            self.submit(envelope).0.inv(),
    {
        let next = self.submit(envelope).0;
        if next != self {
            let at = self.admitted.len() - self.queue.len();
            assert(next.queue =~= next.admitted.skip(at));
            assert(next.done() == self.done());
            assert(next.admitted.take(next.done()) =~= self.admitted.take(self.done()));
        }
    }

    /// Passing over an envelope without handlers keeps an idle state valid.
    pub proof fn lemma_absorb_inv(self)
        requires
            self.inv(),
            self.current.is_none(),
            self.queue.len() > 0,
            self.handlers(self.queue[0].kind).len() == 0,
        ensures
            self.absorb().inv(),
            self.absorb().current.is_none(),
            self.absorb().phase == self.phase,
    {
        let next = self.absorb();
        let at = self.admitted.len() - self.queue.len();
        assert(self.queue[0] == self.admitted[at]);
        assert(next.queue =~= next.admitted.skip(at + 1));
        assert(self.admitted.take(at + 1) =~= self.admitted.take(at).push(self.queue[0]));
        lemma_trace_unhandled(self.lists, self.admitted.take(at), self.queue[0]);
    }

    /// Taking up an envelope with handlers keeps an idle state valid.
    pub proof fn lemma_begin_inv(self)
        requires
            self.inv(),
            self.current.is_none(),
            self.queue.len() > 0,
            self.handlers(self.queue[0].kind).len() > 0,
        ensures
            self.begin().inv(),
    {
        let next = self.begin();
        let at = self.admitted.len() - self.queue.len();
        let head = self.queue[0];
        assert(head == self.admitted[at]);
        assert(next.queue =~= next.admitted.skip(at + 1));
        assert(next.done() == at);
        assert(fanout(self.lists, head).take(1) =~= seq![Self::call(head, 0)]);
        assert(self.delivered.push(Self::call(head, 0)) =~= self.delivered + seq![
            Self::call(head, 0),
        ]);
    }

    /// What an idle core does keeps the state valid.
    pub proof fn lemma_drain_inv(self)
        requires
            self.inv(),
            self.current.is_none(),
        ensures
            self.drain().0.inv(),
        decreases self.queue.len(),
    {
        if self.queue.len() == 0 {
        } else if self.handlers(self.queue[0].kind).len() == 0 {
            self.lemma_absorb_inv();
            self.absorb().lemma_drain_inv();
        } else {
            self.lemma_begin_inv();
        }
    }

    /// A request for work keeps the state valid.
    pub proof fn lemma_poll_inv(self)
        requires
            self.inv(),
        ensures
            self.poll().0.inv(),
    {
        if self.phase == Phase::Idle {
            self.lemma_drain_inv();
        }
    }

    /// Calling the next handler of the current envelope keeps the state
    /// valid.
    pub proof fn lemma_advance_inv(self)
        requires
            self.inv(),
            self.current.is_some(),
            self.cursor + 1 < self.handlers(self.current.unwrap().kind).len(),
        ensures
            self.advance().inv(),
    {
        let next = self.advance();
        let envelope = self.current.unwrap();
        let full = fanout(self.lists, envelope);
        assert(handlers_in(self.lists, envelope.kind).len() <= usize::MAX);
        assert(full.take((self.cursor + 2) as int) =~= full.take((self.cursor + 1) as int).push(
            Self::call(envelope, self.cursor + 1),
        ));
        let base = trace_of(self.lists, self.admitted.take(self.done()));
        assert(next.delivered =~= base + full.take((self.cursor + 2) as int));
    }

    /// Leaving an envelope after its last handler keeps the state valid,
    /// whether the core goes on or stops.
    pub proof fn lemma_finish_inv(self)
        requires
            self.inv(),
            self.current.is_some(),
            self.cursor + 1 == self.handlers(self.current.unwrap().kind).len(),
        ensures
            !self.closing ==> self.finish().inv(),
            self.closing ==> self.retire().inv(),
    {
        let next = self.finish();
        let envelope = self.current.unwrap();
        let full = fanout(self.lists, envelope);
        assert(full.take((self.cursor + 1) as int) =~= full);
        assert(next.done() == self.done() + 1);
        let longer = self.admitted.take(next.done());
        assert(longer.drop_last() =~= self.admitted.take(self.done()));
        assert(longer.last() == envelope);
        assert(self.retire().done() == next.done());
    }

    /// A report keeps the state valid.
    pub proof fn lemma_complete_inv(self, outcome: Result<(), HandlerFailed>)
        requires
            self.inv(),
        ensures
            self.complete(outcome).0.inv(),
    {
        match self.phase {
            Phase::Stopped => {},
            Phase::Idle => {
                self.lemma_drain_inv();
            },
            Phase::Dispatching => {
                let noted = self.note(outcome);
                assert(noted.inv());
                if self.cursor + 1 < self.handlers(self.current.unwrap().kind).len() {
                    noted.lemma_advance_inv();
                } else {
                    noted.lemma_finish_inv();
                    if !self.closing {
                        noted.finish().lemma_drain_inv();
                    }
                }
            },
        }
    }

    /// Teardown keeps the state valid.
    pub proof fn lemma_teardown_inv(self)
        requires
            self.inv(),
        ensures
            self.teardown().inv(),
    {
    }

    /// Stopping on the spot keeps the state valid.
    pub proof fn lemma_abandon_inv(self)
        requires
            self.inv(),
        ensures
            self.abandon().inv(),
    {
    }
}

} // verus!
