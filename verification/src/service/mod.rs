//! The service: the frozen registry, the admission queue and the dispatch
//! core behind one value, driven by producers (`submit`), by the consumer
//! (`poll`, `complete`) and by `teardown`.

use vstd::prelude::*;
use vstd::pervasive::cloned;
use crate::event::{Admission, Directive, Envelope, EventKind, HandlerFailed, Invocation, Phase,
    ServiceError};
use crate::queue::AdmissionQueue;
use crate::registry::Registry;
use crate::state::ServiceState;

pub mod builder;

verus! {

/// Whether `given` is the directive `ordered`, with a copy of the payload in
/// place of the payload itself.
pub open spec fn issued<P: Clone>(ordered: Directive<P>, given: Directive<P>) -> bool {
    match ordered {
        Directive::Invoke(call) => given matches Directive::Invoke(copy) && copy.kind == call.kind
            && copy.slot == call.slot && cloned(call.payload, copy.payload),
        Directive::Park => given == Directive::<P>::Park,
        Directive::Busy => given == Directive::<P>::Busy,
        Directive::Halt => given == Directive::<P>::Halt,
    }
}

/// A running (or stopped) dispatch service.
///
/// The service never runs a handler itself. The consumer asks for work with
/// [`RQService::poll`], runs the handler call it is given to its end, and
/// reports with [`RQService::complete`], which gives the next directive.
pub struct RQService<H, P> {
    registry: Registry<H>,
    queue: AdmissionQueue<P>,
    phase: Phase,
    closing: bool,
    current: Option<Envelope<P>>,
    cursor: usize,
    failures: usize,
    admitted: Ghost<Seq<Envelope<P>>>,
    delivered: Ghost<Seq<Invocation<P>>>,
}

impl<H, P> View for RQService<H, P> {
    type V = ServiceState<H, P>;

    /// The state of the service, with its history.
    closed spec fn view(&self) -> ServiceState<H, P> {
        ServiceState {
            lists: self.registry@,
            capacity: self.queue.bound(),
            queue: self.queue@,
            phase: self.phase,
            closing: self.closing,
            current: self.current,
            cursor: self.cursor as nat,
            failures: self.failures as nat,
            admitted: self.admitted@,
            delivered: self.delivered@,
        }
    }
}

impl<H, P> RQService<H, P> {
    /// The service is in a state that a service can reach.
    pub open spec fn wf(&self) -> bool {
        self@.inv()
    }

    /// Starts a service on `registry` with an empty queue of the given
    /// capacity.
    pub(crate) fn start(registry: Registry<H>, capacity: usize) -> (s: Self)
        ensures
            s.wf(),
            s@ == ServiceState::<H, P>::init(registry@, capacity as nat),
    {
        let s = RQService {
            registry,
            queue: AdmissionQueue::with_capacity(capacity),
            phase: Phase::Idle,
            closing: false,
            current: None,
            cursor: 0,
            failures: 0,
            admitted: Ghost(Seq::empty()),
            delivered: Ghost(Seq::empty()),
        };
        proof {
            registry.lemma_valid();
            ServiceState::<H, P>::lemma_init_inv(registry@, capacity as nat);
            assert(s@ =~= ServiceState::<H, P>::init(registry@, capacity as nat));
        }
        s
    }

    /// Offers `envelope` to the admission queue.
    ///
    /// Once teardown has begun the service refuses it. Before that it
    /// accepts it if the queue has a free slot, whatever the dispatch core is
    /// doing, and otherwise hands it back for the producer to wait and submit
    /// again. Acceptance does not wait for any handler.
    pub fn submit(&mut self, envelope: Envelope<P>) -> (r: Result<Admission<P>, ServiceError>)
        requires
            old(self).wf(),
        ensures
            final(self).wf(),
            final(self)@ == old(self)@.submit(envelope).0,
            r == old(self)@.submit(envelope).1,
    {
        proof {
            self@.lemma_submit_inv(envelope);
        }
        if self.closing {
            return Err(ServiceError::ServiceUnavailable);
        }
        match self.queue.try_enqueue(envelope) {
            Ok(()) => {
                self.admitted = Ghost(self.admitted@.push(envelope));
                assert(self@ =~= old(self)@.submit(envelope).0);
                Ok(Admission::Accepted)
            },
            Err(back) => Ok(Admission::Deferred(back)),
        }
    }

    /// Begins the teardown. From now on every submission is refused and
    /// nothing more leaves the queue: what waits there stays undelivered. An
    /// idle core stops at once. A core that is running the handlers of an
    /// envelope runs them to the last, then stops.
    pub fn teardown(&mut self)
        requires
            old(self).wf(),
        ensures
            final(self).wf(),
            final(self)@ == old(self)@.teardown(),
    {
        self.closing = true;
        match self.phase {
            Phase::Idle => {
                self.phase = Phase::Stopped;
            },
            _ => {},
        }
        assert(self@ =~= old(self)@.teardown());
    }

    /// Stops the core where it stands, as a teardown whose time has run out
    /// does: the handlers of the current envelope that have not been called
    /// yet are given up, and no handler call is ordered any more. A call that
    /// is outstanding is the caller's to drop.
    pub fn abandon(&mut self)
        requires
            old(self).wf(),
        ensures
            final(self).wf(),
            final(self)@ == old(self)@.abandon(),
    {
        self.closing = true;
        self.phase = Phase::Stopped;
        assert(self@ =~= old(self)@.abandon());
    }

    /// Where the dispatch core stands.
    pub fn phase(&self) -> (p: Phase)
        ensures
            p == self@.phase,
    {
        self.phase
    }

    /// Whether the dispatch core has stopped for good.
    pub fn is_stopped(&self) -> (b: bool)
        ensures
            b == self@.stopped(),
    {
        match self.phase {
            Phase::Stopped => true,
            _ => false,
        }
    }

    /// Whether teardown has begun.
    pub fn is_closing(&self) -> (b: bool)
        ensures
            b == self@.closing,
    {
        self.closing
    }

    /// The capacity of the admission queue.
    pub fn capacity(&self) -> (c: usize)
        ensures
            c == self@.capacity,
    {
        self.queue.capacity()
    }

    /// How many accepted envelopes wait in the queue.
    pub fn pending(&self) -> (n: usize)
        ensures
            n == self@.queue.len(),
    {
        self.queue.len()
    }

    /// How many handler calls were reported as failed, held at `usize::MAX`.
    pub fn failures(&self) -> (n: usize)
        ensures
            n == self@.failures,
    {
        self.failures
    }

    /// How many handlers are registered for `kind`.
    pub fn handler_count(&self, kind: EventKind) -> (n: usize)
        ensures
            n == self@.handlers(kind).len(),
    {
        self.registry.handler_count(kind)
    }

    /// The handler registered for `kind` at position `slot`, if there is one.
    pub fn handler(&self, kind: EventKind, slot: usize) -> (h: Option<&H>)
        ensures
            slot < self@.handlers(kind).len() ==> h == Some(&self@.handlers(kind)[slot as int]),
            slot >= self@.handlers(kind).len() ==> h.is_none(),
    {
        self.registry.handler(kind, slot)
    }
}

impl<H, P: Clone> RQService<H, P> {
    fn drain(&mut self) -> (d: Directive<P>)
        requires
            old(self).wf(),
            old(self)@.phase == Phase::Idle,
        ensures
            final(self).wf(),
            final(self)@ == old(self)@.drain().0,
            issued(old(self)@.drain().1, d),
    {
        let ghost entry = self@;
        loop
            invariant
                self.wf(),
                self@.phase == Phase::Idle,
                entry == old(self)@,
                self@.drain() == entry.drain(),
            decreases self@.queue.len(),
        {
            let ghost before = self@;
            match self.queue.dequeue() {
                None => {
                    assert(self@ =~= before);
                    return Directive::Park;
                },
                Some(envelope) => {
                    let count = self.registry.handler_count(envelope.kind);
                    if count == 0 {
                        proof {
                            before.lemma_absorb_inv();
                            assert(self@ =~= before.absorb());
                        }
                    } else {
                        let kind = envelope.kind;
                        let payload = envelope.payload.clone();
                        proof {
                            before.lemma_begin_inv();
                        }
                        self.delivered = Ghost(
                            self.delivered@.push(ServiceState::<H, P>::call(envelope, 0)),
                        );
                        self.current = Some(envelope);
                        self.cursor = 0;
                        self.phase = Phase::Dispatching;
                        assert(self@ =~= before.begin());
                        return Directive::Invoke(Invocation { kind, slot: 0, payload });
                    }
                },
            }
        }
    }

    /// The consumer asks for work.
    ///
    /// A stopped service answers `Halt`, one with a handler call outstanding
    /// answers `Busy`; neither changes. An idle one takes envelopes from the
    /// queue, oldest first, passes over those whose variant has no handler,
    /// and orders the call of the first handler of the first one that has
    /// any, with a copy of its payload. With nothing left it answers `Park`.
    pub fn poll(&mut self) -> (d: Directive<P>)
        requires
            old(self).wf(),
        ensures
            final(self).wf(),
            final(self)@ == old(self)@.poll().0,
            issued(old(self)@.poll().1, d),
    {
        match self.phase {
            Phase::Stopped => Directive::Halt,
            Phase::Dispatching => Directive::Busy,
            Phase::Idle => self.drain(),
        }
    }

    /// The consumer reports how the outstanding handler call ended.
    ///
    /// A failure is counted and has no other effect. The answer orders the
    /// next handler of the same envelope, in registration order, with its own
    /// copy of the payload. After the last one the core is idle again and
    /// answers as `poll` does, unless teardown has begun: then it stops and
    /// answers `Halt`. A stopped core answers `Halt` and does not change.
    /// With no call outstanding the report counts for nothing and the answer
    /// is that of `poll`.
    pub fn complete(&mut self, outcome: Result<(), HandlerFailed>) -> (d: Directive<P>)
        requires
            old(self).wf(),
        ensures
            final(self).wf(),
            final(self)@ == old(self)@.complete(outcome).0,
            issued(old(self)@.complete(outcome).1, d),
    {
        match self.phase {
            Phase::Stopped => Directive::Halt,
            Phase::Idle => self.drain(),
            Phase::Dispatching => {
                let ghost before = self@;
                let ghost noted = before.note(outcome);
                if outcome.is_err() && self.failures < usize::MAX {
                    self.failures = self.failures + 1;
                }
                assert(self@ =~= noted);
                let next = self.cursor + 1;
                let following = match &self.current {
                    Some(envelope) => {
                        if next < self.registry.handler_count(envelope.kind) {
                            Some((envelope.kind, envelope.payload.clone()))
                        } else {
                            None
                        }
                    },
                    None => None,
                };
                if let Some((kind, payload)) = following {
                    proof {
                        noted.lemma_advance_inv();
                    }
                    self.delivered = Ghost(
                        self.delivered@.push(
                            ServiceState::<H, P>::call(self.current.unwrap(), next as nat),
                        ),
                    );
                    self.cursor = next;
                    assert(self@ =~= noted.advance());
                    Directive::Invoke(Invocation { kind, slot: next, payload })
                } else {
                    proof {
                        noted.lemma_finish_inv();
                    }
                    self.current = None;
                    self.cursor = 0;
                    if self.closing {
                        self.phase = Phase::Stopped;
                        assert(self@ =~= noted.retire());
                        Directive::Halt
                    } else {
                        self.phase = Phase::Idle;
                        assert(self@ =~= noted.finish());
                        self.drain()
                    }
                }
            },
        }
    }
}

} // verus!
