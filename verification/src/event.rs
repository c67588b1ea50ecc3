//! Event variants and the envelopes that carry them.

use vstd::prelude::*;

verus! {

/// The closed set of event variants that the service routes.
#[derive(Clone, Copy, Debug, PartialEq, Eq, Hash, Structural)]
pub enum EventKind {
    Login,
    GroupMessage,
    PrivateMessage,
    GroupRequest,
    FriendRequest,
    SelfInvited,
    NewMember,
    GroupMute,
    FriendMessageRecall,
    GroupMessageRecall,
    NewFriend,
    GroupLeave,
    FriendPoke,
    GroupNameUpdate,
    DeleteFriend,
    MemberPermissionChange,
    /// Any event outside the routed set. No handler can be registered for it.
    Unknown,
}

impl EventKind {
    /// Whether handlers can be registered for this variant.
    pub open spec fn routed(self) -> bool {
        self != EventKind::Unknown
    }

    /// Whether handlers can be registered for this variant.
    pub fn is_routed(self) -> (r: bool)
        ensures
            r == self.routed(),
    {
        match self {
            EventKind::Unknown => false,
            _ => true,
        }
    }
}

/// One event: its variant tag and the payload that travels with it.
#[derive(Clone, Debug, PartialEq, Eq)]
pub struct Envelope<P> {
    pub kind: EventKind,
    pub payload: P,
}

impl<P> Envelope<P> {
    /// Wraps `payload` as an event of variant `kind`.
    pub fn new(kind: EventKind, payload: P) -> (e: Self)
        ensures
            e.kind == kind,
            e.payload == payload,
    {
        Envelope { kind, payload }
    }
}

/// One handler call: the handler at position `slot` of the list of `kind`
/// is to receive `payload`.
#[derive(Clone, Debug, PartialEq, Eq)]
pub struct Invocation<P> {
    pub kind: EventKind,
    pub slot: usize,
    pub payload: P,
}

/// What the consumer is told to do next.
#[derive(Clone, Debug, PartialEq, Eq)]
pub enum Directive<P> {
    /// Run this handler call to its end, then report how it ended.
    Invoke(Invocation<P>),
    /// Nothing is waiting: sleep until an envelope is admitted.
    Park,
    /// A handler call is still outstanding: report its end first.
    Busy,
    /// The service is stopped: leave the loop.
    Halt,
}

/// How a submission to a running service ended.
#[derive(Clone, Debug, PartialEq, Eq)]
pub enum Admission<P> {
    /// The envelope is in the queue.
    Accepted,
    /// The queue is full. The envelope comes back; the producer waits for a
    /// free slot and submits it again.
    Deferred(Envelope<P>),
}

/// The one failure a producer can see.
#[derive(Clone, Copy, Debug, PartialEq, Eq, Structural)]
pub enum ServiceError {
    /// The service has been torn down and takes no more envelopes.
    ServiceUnavailable,
}

/// A handler call that returned an error or ended abnormally. It is counted
/// and goes no further.
#[derive(Clone, Copy, Debug, PartialEq, Eq, Structural)]
pub struct HandlerFailed;

/// Where the dispatch core stands.
#[derive(Clone, Copy, Debug, PartialEq, Eq, Structural)]
pub enum Phase {
    /// No envelope is being dispatched.
    Idle,
    /// The handlers of one envelope are being run.
    Dispatching,
    /// Torn down. Nothing is admitted or dispatched any more.
    Stopped,
}

} // verus!
