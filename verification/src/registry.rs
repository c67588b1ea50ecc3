//! The handler registry: for each routed variant, the handlers registered
//! for it, in registration order.

use vstd::prelude::*;
use crate::event::EventKind;

verus! {

/// The handlers that `lists` holds for `kind`: its entry, or none where it
/// has no entry.
pub open spec fn handlers_in<H>(lists: Map<EventKind, Seq<H>>, kind: EventKind) -> Seq<H> {
    if lists.dom().contains(kind) {
        lists[kind]
    } else {
        Seq::empty()
    }
}

/// The registry in which nothing is registered: an empty list for every
/// routed variant.
pub open spec fn empty_lists<H>() -> Map<EventKind, Seq<H>> {
    Map::new(|k: EventKind| k.routed(), |k: EventKind| Seq::<H>::empty())
}

/// `lists` after `handler` is appended to the list of `kind`.
pub open spec fn lists_with<H>(lists: Map<EventKind, Seq<H>>, kind: EventKind, handler: H) -> Map<
    EventKind,
    Seq<H>,
> {
    lists.insert(kind, handlers_in(lists, kind).push(handler))
}

/// No handler list is longer than a position can count.
pub open spec fn lists_bounded<H>(lists: Map<EventKind, Seq<H>>) -> bool {
    forall|k: EventKind| #[trigger] handlers_in(lists, k).len() <= usize::MAX
}

/// What holds of the lists of every registry: no list is longer than a
/// position can count, and the variant that is not routed has no handler.
pub open spec fn valid_lists<H>(lists: Map<EventKind, Seq<H>>) -> bool {
    &&& lists_bounded(lists)
    &&& handlers_in(lists, EventKind::Unknown).len() == 0
}

/// Per-variant ordered handler lists. A list only ever grows at its end, so a
/// handler keeps the position it was registered at.
pub struct Registry<H> {
    login_handlers: Vec<H>,
    group_message_handlers: Vec<H>,
    private_message_handlers: Vec<H>,
    group_request_handlers: Vec<H>,
    friend_request_handlers: Vec<H>,
    self_invited_handlers: Vec<H>,
    new_member_handlers: Vec<H>,
    group_mute_handlers: Vec<H>,
    friend_message_recall_handlers: Vec<H>,
    group_message_recall_handlers: Vec<H>,
    new_friend_handlers: Vec<H>,
    group_leave_handlers: Vec<H>,
    friend_poke_handlers: Vec<H>,
    group_name_update_handlers: Vec<H>,
    delete_friend_handlers: Vec<H>,
    member_permission_change_handlers: Vec<H>,
}

impl<H> View for Registry<H> {
    type V = Map<EventKind, Seq<H>>;

    /// The registry as a map from each routed variant to its handler list.
    closed spec fn view(&self) -> Map<EventKind, Seq<H>> {
        Map::new(|k: EventKind| k.routed(), |k: EventKind| self.list_of(k))
    }
}

impl<H> Registry<H> {
    spec fn list_of(&self, kind: EventKind) -> Seq<H> {
        match kind {
            EventKind::Login => self.login_handlers@,
            EventKind::GroupMessage => self.group_message_handlers@,
            EventKind::PrivateMessage => self.private_message_handlers@,
            EventKind::GroupRequest => self.group_request_handlers@,
            EventKind::FriendRequest => self.friend_request_handlers@,
            EventKind::SelfInvited => self.self_invited_handlers@,
            EventKind::NewMember => self.new_member_handlers@,
            EventKind::GroupMute => self.group_mute_handlers@,
            EventKind::FriendMessageRecall => self.friend_message_recall_handlers@,
            EventKind::GroupMessageRecall => self.group_message_recall_handlers@,
            EventKind::NewFriend => self.new_friend_handlers@,
            EventKind::GroupLeave => self.group_leave_handlers@,
            EventKind::FriendPoke => self.friend_poke_handlers@,
            EventKind::GroupNameUpdate => self.group_name_update_handlers@,
            EventKind::DeleteFriend => self.delete_friend_handlers@,
            EventKind::MemberPermissionChange => self.member_permission_change_handlers@,
            EventKind::Unknown => Seq::empty(),
        }
    }

    /// The handlers registered for `kind`, in registration order.
    pub open spec fn handlers(&self, kind: EventKind) -> Seq<H> {
        handlers_in(self@, kind)
    }

    /// The lists of a registry are valid.
    pub proof fn lemma_valid(&self)
        ensures
            valid_lists(self@),
    {
        assert forall|k: EventKind| #[trigger] handlers_in(self@, k).len() <= usize::MAX by {
            if k.routed() {
                assert(handlers_in(self@, k) == self.list_of(k));
                self.lemma_list_bounded(k);
            }
        }
    }

    proof fn lemma_list_bounded(&self, kind: EventKind)
        ensures
            self.list_of(kind).len() <= usize::MAX,
    {
        assert(self.login_handlers.len() <= usize::MAX);
        assert(self.group_message_handlers.len() <= usize::MAX);
        assert(self.private_message_handlers.len() <= usize::MAX);
        assert(self.group_request_handlers.len() <= usize::MAX);
        assert(self.friend_request_handlers.len() <= usize::MAX);
        assert(self.self_invited_handlers.len() <= usize::MAX);
        assert(self.new_member_handlers.len() <= usize::MAX);
        assert(self.group_mute_handlers.len() <= usize::MAX);
        assert(self.friend_message_recall_handlers.len() <= usize::MAX);
        assert(self.group_message_recall_handlers.len() <= usize::MAX);
        assert(self.new_friend_handlers.len() <= usize::MAX);
        assert(self.group_leave_handlers.len() <= usize::MAX);
        assert(self.friend_poke_handlers.len() <= usize::MAX);
        assert(self.group_name_update_handlers.len() <= usize::MAX);
        assert(self.delete_friend_handlers.len() <= usize::MAX);
        assert(self.member_permission_change_handlers.len() <= usize::MAX);
    }

    /// A registry with no handler for any variant.
    pub fn new() -> (r: Self)
        ensures
            r@ == empty_lists::<H>(),
    {
        let r = Registry {
            login_handlers: Vec::new(),
            group_message_handlers: Vec::new(),
            private_message_handlers: Vec::new(),
            group_request_handlers: Vec::new(),
            friend_request_handlers: Vec::new(),
            self_invited_handlers: Vec::new(),
            new_member_handlers: Vec::new(),
            group_mute_handlers: Vec::new(),
            friend_message_recall_handlers: Vec::new(),
            group_message_recall_handlers: Vec::new(),
            new_friend_handlers: Vec::new(),
            group_leave_handlers: Vec::new(),
            friend_poke_handlers: Vec::new(),
            group_name_update_handlers: Vec::new(),
            delete_friend_handlers: Vec::new(),
            member_permission_change_handlers: Vec::new(),
        };
        assert(r@ =~= empty_lists::<H>());
        r
    }

    /// Appends `handler` to the list of `kind`. Every other list is unchanged.
    pub(crate) fn append(&mut self, kind: EventKind, handler: H)
        requires
            kind.routed(),
        ensures
            final(self)@ == lists_with(old(self)@, kind, handler),
    {
        match kind {
            EventKind::Login => self.login_handlers.push(handler),
            EventKind::GroupMessage => self.group_message_handlers.push(handler),
            EventKind::PrivateMessage => self.private_message_handlers.push(handler),
            EventKind::GroupRequest => self.group_request_handlers.push(handler),
            EventKind::FriendRequest => self.friend_request_handlers.push(handler),
            EventKind::SelfInvited => self.self_invited_handlers.push(handler),
            EventKind::NewMember => self.new_member_handlers.push(handler),
            EventKind::GroupMute => self.group_mute_handlers.push(handler),
            EventKind::FriendMessageRecall => self.friend_message_recall_handlers.push(handler),
            EventKind::GroupMessageRecall => self.group_message_recall_handlers.push(handler),
            EventKind::NewFriend => self.new_friend_handlers.push(handler),
            EventKind::GroupLeave => self.group_leave_handlers.push(handler),
            EventKind::FriendPoke => self.friend_poke_handlers.push(handler),
            EventKind::GroupNameUpdate => self.group_name_update_handlers.push(handler),
            EventKind::DeleteFriend => self.delete_friend_handlers.push(handler),
            EventKind::MemberPermissionChange => self.member_permission_change_handlers.push(
                handler,
            ),
            EventKind::Unknown => {},
        }
        assert(self@ =~= lists_with(old(self)@, kind, handler));
    }

    fn list(&self, kind: EventKind) -> (l: Option<&Vec<H>>)
        ensures
            kind.routed() ==> l.is_some() && l.unwrap()@ == self.handlers(kind),
            !kind.routed() ==> l.is_none(),
    {
        match kind {
            EventKind::Login => Some(&self.login_handlers),
            EventKind::GroupMessage => Some(&self.group_message_handlers),
            EventKind::PrivateMessage => Some(&self.private_message_handlers),
            EventKind::GroupRequest => Some(&self.group_request_handlers),
            EventKind::FriendRequest => Some(&self.friend_request_handlers),
            EventKind::SelfInvited => Some(&self.self_invited_handlers),
            EventKind::NewMember => Some(&self.new_member_handlers),
            EventKind::GroupMute => Some(&self.group_mute_handlers),
            EventKind::FriendMessageRecall => Some(&self.friend_message_recall_handlers),
            EventKind::GroupMessageRecall => Some(&self.group_message_recall_handlers),
            EventKind::NewFriend => Some(&self.new_friend_handlers),
            EventKind::GroupLeave => Some(&self.group_leave_handlers),
            EventKind::FriendPoke => Some(&self.friend_poke_handlers),
            EventKind::GroupNameUpdate => Some(&self.group_name_update_handlers),
            EventKind::DeleteFriend => Some(&self.delete_friend_handlers),
            EventKind::MemberPermissionChange => Some(&self.member_permission_change_handlers),
            EventKind::Unknown => None,
        }
    }

    /// How many handlers are registered for `kind`.
    pub fn handler_count(&self, kind: EventKind) -> (n: usize)
        ensures
            n == self.handlers(kind).len(),
    {
        match self.list(kind) {
            Some(l) => l.len(),
            None => 0,
        }
    }

    /// The handler registered for `kind` at position `slot`, if there is one.
    pub fn handler(&self, kind: EventKind, slot: usize) -> (h: Option<&H>)
        ensures
            slot < self.handlers(kind).len() ==> h == Some(&self.handlers(kind)[slot as int]),
            slot >= self.handlers(kind).len() ==> h.is_none(),
    {
        match self.list(kind) {
            Some(l) => {
                if slot < l.len() {
                    Some(&l[slot])
                } else {
                    None
                }
            },
            None => None,
        }
    }
}

} // verus!
