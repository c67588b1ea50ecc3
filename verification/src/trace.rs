//! Call traces: which handler calls a sequence of envelopes gives rise to,
//! and which payloads one handler receives from a trace.

use vstd::prelude::*;
use crate::event::{Envelope, EventKind, Invocation};
use crate::registry::{handlers_in, lists_bounded};

verus! {

/// The calls that dispatching `envelope` makes: one per handler registered
/// for its variant, in registration order, each with the envelope's payload.
pub open spec fn fanout<H, P>(lists: Map<EventKind, Seq<H>>, envelope: Envelope<P>) -> Seq<
    Invocation<P>,
> {
    Seq::new(
        handlers_in(lists, envelope.kind).len(),
        |i: int| Invocation { kind: envelope.kind, slot: i as usize, payload: envelope.payload },
    )
}

/// The calls that dispatching `envelopes` one after the other makes.
pub open spec fn trace_of<H, P>(lists: Map<EventKind, Seq<H>>, envelopes: Seq<Envelope<P>>) -> Seq<
    Invocation<P>,
>
    decreases envelopes.len(),
{
    if envelopes.len() == 0 {
        Seq::empty()
    } else {
        trace_of(lists, envelopes.drop_last()) + fanout(lists, envelopes.last())
    }
}

/// The payloads that the handler at `slot` of `kind` receives from `trace`,
/// in the order of the calls.
pub open spec fn received<P>(trace: Seq<Invocation<P>>, kind: EventKind, slot: usize) -> Seq<P>
    decreases trace.len(),
{
    if trace.len() == 0 {
        Seq::empty()
    } else {
        let before = received(trace.drop_last(), kind, slot);
        if trace.last().kind == kind && trace.last().slot == slot {
            before.push(trace.last().payload)
        } else {
            before
        }
    }
}

/// The payloads of the envelopes of variant `kind` among `envelopes`, in
/// their order.
pub open spec fn tagged<P>(envelopes: Seq<Envelope<P>>, kind: EventKind) -> Seq<P>
    decreases envelopes.len(),
{
    if envelopes.len() == 0 {
        Seq::empty()
    } else {
        let before = tagged(envelopes.drop_last(), kind);
        if envelopes.last().kind == kind {
            before.push(envelopes.last().payload)
        } else {
            before
        }
    }
}

/// What a handler receives from two traces in a row is what it receives
/// from the first, then from the second.
pub proof fn lemma_received_concat<P>(
    a: Seq<Invocation<P>>,
    b: Seq<Invocation<P>>,
    kind: EventKind,
    slot: usize,
)
    ensures
        received(a + b, kind, slot) == received(a, kind, slot) + received(b, kind, slot),
    decreases b.len(),
{
    if b.len() == 0 {
        assert(a + b =~= a);
        assert(received(a, kind, slot) + received(b, kind, slot) =~= received(a, kind, slot));
    } else {
        lemma_received_concat(a, b.drop_last(), kind, slot);
        assert((a + b).drop_last() =~= a + b.drop_last());
        assert((a + b).last() == b.last());
        let ra = received(a, kind, slot);
        let rb = received(b.drop_last(), kind, slot);
        assert((ra + rb).push(b.last().payload) =~= ra + rb.push(b.last().payload));
    }
}

/// Of the first `upto` calls that an envelope fans out to, the handler at
/// `slot` of `kind` receives the payload once if the envelope is of that
/// variant and its own call is among them, and nothing otherwise.
pub proof fn lemma_received_fanout_prefix<H, P>(
    lists: Map<EventKind, Seq<H>>,
    envelope: Envelope<P>,
    upto: int,
    kind: EventKind,
    slot: usize,
)
    requires
        lists_bounded(lists),
        0 <= upto <= handlers_in(lists, envelope.kind).len(),
    ensures
        received(fanout(lists, envelope).take(upto), kind, slot) == if envelope.kind == kind
            && slot < upto {
            seq![envelope.payload]
        } else {
            Seq::empty()
        },
    decreases upto,
{
    let full = fanout(lists, envelope);
    assert(handlers_in(lists, envelope.kind).len() <= usize::MAX);
    if upto == 0 {
        assert(full.take(upto) =~= Seq::empty());
    } else {
        lemma_received_fanout_prefix(lists, envelope, upto - 1, kind, slot);
        let t = full.take(upto);
        assert(t.drop_last() =~= full.take(upto - 1));
        assert(t.last() == full[upto - 1]);
        assert(t.last().slot == upto - 1);
        if envelope.kind == kind && slot == upto - 1 {
            assert(Seq::<P>::empty().push(envelope.payload) =~= seq![envelope.payload]);
        }
    }
}

/// Dispatching a sequence of envelopes hands every registered handler the
/// payloads of exactly the envelopes of its variant, each once, in order.
pub proof fn lemma_received_trace<H, P>(
    lists: Map<EventKind, Seq<H>>,
    envelopes: Seq<Envelope<P>>,
    kind: EventKind,
    slot: usize,
)
    requires
        lists_bounded(lists),
        slot < handlers_in(lists, kind).len(),
    ensures
        received(trace_of(lists, envelopes), kind, slot) == tagged(envelopes, kind),
    decreases envelopes.len(),
{
    if envelopes.len() > 0 {
        let last = envelopes.last();
        lemma_received_trace(lists, envelopes.drop_last(), kind, slot);
        lemma_received_concat(
            trace_of(lists, envelopes.drop_last()),
            fanout(lists, last),
            kind,
            slot,
        );
        let n = handlers_in(lists, last.kind).len() as int;
        lemma_received_fanout_prefix(lists, last, n, kind, slot);
        assert(fanout(lists, last).take(n) =~= fanout(lists, last));
        let before = tagged(envelopes.drop_last(), kind);
        if last.kind == kind {
            assert(before + seq![last.payload] =~= before.push(last.payload));
        } else {
            assert(before + Seq::<P>::empty() =~= before);
        }
    }
}

/// The envelopes of one variant among a prefix are a prefix of those among
/// the whole.
pub proof fn lemma_tagged_prefix<P>(envelopes: Seq<Envelope<P>>, upto: int, kind: EventKind)
    requires
        0 <= upto <= envelopes.len(),
    ensures
        tagged(envelopes.take(upto), kind).is_prefix_of(tagged(envelopes, kind)),
    decreases envelopes.len() - upto,
{
    if upto == envelopes.len() {
        assert(envelopes.take(upto) =~= envelopes);
    } else {
        lemma_tagged_prefix(envelopes, upto + 1, kind);
        let longer = envelopes.take(upto + 1);
        assert(longer.drop_last() =~= envelopes.take(upto));
        let a = tagged(envelopes.take(upto), kind);
        let b = tagged(longer, kind);
        assert(a.is_prefix_of(b));
    }
}

/// An envelope whose variant has no handler adds nothing to a trace.
pub proof fn lemma_trace_unhandled<H, P>(
    lists: Map<EventKind, Seq<H>>,
    envelopes: Seq<Envelope<P>>,
    envelope: Envelope<P>,
)
    requires
        handlers_in(lists, envelope.kind).len() == 0,
    ensures
        trace_of(lists, envelopes.push(envelope)) == trace_of(lists, envelopes),
{
    let longer = envelopes.push(envelope);
    assert(longer.drop_last() =~= envelopes);
    assert(fanout(lists, envelope) =~= Seq::empty());
    assert(trace_of(lists, envelopes) + fanout(lists, envelope) =~= trace_of(lists, envelopes));
}

} // verus!
