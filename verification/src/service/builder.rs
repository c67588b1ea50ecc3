//! The builder: it collects handler registrations, then freezes them into
//! a running service.

use vstd::prelude::*;
use crate::event::EventKind;
use crate::registry::{empty_lists, lists_with, Registry};
use crate::service::RQService;
use crate::state::ServiceState;

verus! {

/// The capacity of the admission queue of a service built with
/// [`RQServiceBuilder::build`].
pub const DEFAULT_CAPACITY: usize = 10;

/// Collects handlers, one list per event variant. A registration appends to
/// the list of its variant and cannot fail; the order of registration is the
/// order in which the handlers of a variant are later called.
pub struct RQServiceBuilder<H> {
    registry: Registry<H>,
}

impl<H> View for RQServiceBuilder<H> {
    type V = Map<EventKind, Seq<H>>;

    /// The registrations so far: for each routed variant, its handlers in
    /// registration order.
    closed spec fn view(&self) -> Map<EventKind, Seq<H>> {
        self.registry@
    }
}

impl<H> Default for RQServiceBuilder<H> {
    /// A builder with no registration.
    fn default() -> (b: Self)
        ensures
            b@ == empty_lists::<H>(),
    {
        RQServiceBuilder { registry: Registry::new() }
    }
}

impl<H> RQServiceBuilder<H> {
    /// A builder with no registration.
    pub fn new() -> (b: RQServiceBuilder<H>)
        ensures
            b@ == empty_lists::<H>(),
    {
        RQServiceBuilder { registry: Registry::new() }
    }

    fn register(self, kind: EventKind, handler: H) -> (b: Self)
        requires
            kind.routed(),
        ensures
            b@ == lists_with(self@, kind, handler),
    {
        let mut b = self;
        b.registry.append(kind, handler);
        b
    }

    /// Freezes the registrations and starts a service on them, idle, with an
    /// empty admission queue of capacity [`DEFAULT_CAPACITY`]. A variant
    /// without handlers is in order: its events will be passed over.
    pub fn build<P>(self) -> (s: RQService<H, P>)
        ensures
            s.wf(),
            s@ == ServiceState::<H, P>::init(self@, DEFAULT_CAPACITY as nat),
    {
        RQService::start(self.registry, DEFAULT_CAPACITY)
    }

    /// As [`RQServiceBuilder::build`], with an admission queue of capacity
    /// `capacity`.
    pub fn build_with_capacity<P>(self, capacity: usize) -> (s: RQService<H, P>)
        ensures
            s.wf(),
            s@ == ServiceState::<H, P>::init(self@, capacity as nat),
    {
        RQService::start(self.registry, capacity)
    }

    /// Registers `handler` for login events, behind those registered before.
    pub fn on_login(self, handler: H) -> (b: Self)
        ensures
            b@ == lists_with(self@, EventKind::Login, handler),
    {
        self.register(EventKind::Login, handler)
    }

    /// Registers `handler` for group messages, behind those registered before.
    pub fn on_group_message(self, handler: H) -> (b: Self)
        ensures
            b@ == lists_with(self@, EventKind::GroupMessage, handler),
    {
        self.register(EventKind::GroupMessage, handler)
    }

    /// Registers `handler` for private messages, behind those registered before.
    pub fn on_private_message(self, handler: H) -> (b: Self)
        ensures
            b@ == lists_with(self@, EventKind::PrivateMessage, handler),
    {
        self.register(EventKind::PrivateMessage, handler)
    }

    /// Registers `handler` for requests to join a group, behind those registered before.
    pub fn on_group_request(self, handler: H) -> (b: Self)
        ensures
            b@ == lists_with(self@, EventKind::GroupRequest, handler),
    {
        self.register(EventKind::GroupRequest, handler)
    }

    /// Registers `handler` for invitations of this account into a group, behind those registered before.
    pub fn on_self_invited(self, handler: H) -> (b: Self)
        ensures
            b@ == lists_with(self@, EventKind::SelfInvited, handler),
    {
        self.register(EventKind::SelfInvited, handler)
    }

    /// Registers `handler` for friend requests, behind those registered before.
    pub fn on_friend_request(self, handler: H) -> (b: Self)
        ensures
            b@ == lists_with(self@, EventKind::FriendRequest, handler),
    {
        self.register(EventKind::FriendRequest, handler)
    }

    /// Registers `handler` for new group members, behind those registered before.
    pub fn on_new_member(self, handler: H) -> (b: Self)
        ensures
            b@ == lists_with(self@, EventKind::NewMember, handler),
    {
        self.register(EventKind::NewMember, handler)
    }

    /// Registers `handler` for group mutes, behind those registered before.
    pub fn on_group_mute(self, handler: H) -> (b: Self)
        ensures
            b@ == lists_with(self@, EventKind::GroupMute, handler),
    {
        self.register(EventKind::GroupMute, handler)
    }

    /// Registers `handler` for recalled private messages, behind those registered before.
    pub fn on_friend_message_recall(self, handler: H) -> (b: Self)
        ensures
            b@ == lists_with(self@, EventKind::FriendMessageRecall, handler),
    {
        self.register(EventKind::FriendMessageRecall, handler)
    }

    /// Registers `handler` for recalled group messages, behind those registered before.
    pub fn on_group_message_recall(self, handler: H) -> (b: Self)
        ensures
            b@ == lists_with(self@, EventKind::GroupMessageRecall, handler),
    {
        self.register(EventKind::GroupMessageRecall, handler)
    }

    /// Registers `handler` for new friends, behind those registered before.
    pub fn on_new_friend(self, handler: H) -> (b: Self)
        ensures
            b@ == lists_with(self@, EventKind::NewFriend, handler),
    {
        self.register(EventKind::NewFriend, handler)
    }

    /// Registers `handler` for members leaving a group, behind those registered before.
    pub fn on_group_leave(self, handler: H) -> (b: Self)
        ensures
            b@ == lists_with(self@, EventKind::GroupLeave, handler),
    {
        self.register(EventKind::GroupLeave, handler)
    }

    /// Registers `handler` for pokes by a friend, behind those registered before.
    pub fn on_friend_poke(self, handler: H) -> (b: Self)
        ensures
            b@ == lists_with(self@, EventKind::FriendPoke, handler),
    {
        self.register(EventKind::FriendPoke, handler)
    }

    /// Registers `handler` for changed group names, behind those registered before.
    pub fn on_group_name_update(self, handler: H) -> (b: Self)
        ensures
            b@ == lists_with(self@, EventKind::GroupNameUpdate, handler),
    {
        self.register(EventKind::GroupNameUpdate, handler)
    }

    /// Registers `handler` for deleted friends, behind those registered before.
    pub fn on_delete_friend(self, handler: H) -> (b: Self)
        ensures
            b@ == lists_with(self@, EventKind::DeleteFriend, handler),
    {
        self.register(EventKind::DeleteFriend, handler)
    }

    /// Registers `handler` for changed member permissions, behind those registered before.
    pub fn on_member_permission_change(self, handler: H) -> (b: Self)
        ensures
            b@ == lists_with(self@, EventKind::MemberPermissionChange, handler),
    {
        self.register(EventKind::MemberPermissionChange, handler)
    }
}

} // verus!
