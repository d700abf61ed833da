//! Typed events and the event channel registry.
//!
//! The native layer announces asynchronous notifications through raw
//! callbacks, one per event kind. Each trampoline turns the native payload
//! into an owned [`Event`] and pushes it onto the queue of its kind; the
//! application drains each kind's queue without blocking. Within one kind the
//! drain order is the push order; no order is promised across kinds.

use vstd::prelude::*;

verus! {

/// The fixed categories of asynchronous native notification.
#[derive(Debug, Clone, Copy, PartialEq, Eq, Structural)]
pub enum EventKind {
    CurrentUserUpdate,
    ActivityJoin,
    ActivitySpectate,
    ActivityJoinRequest,
    ActivityInvite,
    LobbyUpdate,
    LobbyDelete,
    MemberConnect,
    MemberUpdate,
    MemberDisconnect,
    LobbyMessage,
    NetworkMessage,
    RelationshipRefresh,
    RelationshipUpdate,
    EntitlementCreate,
    EntitlementDelete,
    OverlayToggle,
    VoiceSettingsUpdate,
}

/// How many event kinds there are; the registry holds one queue per kind.
pub const EVENT_KIND_COUNT: usize = 18;

/// An owned, typed notification, one variant per event kind. Every
/// buffer-backed native field has been copied into the variant by the
/// trampoline: nothing here borrows from the native layer.
#[derive(Debug, Clone, PartialEq, Eq)]
pub enum Event {
    /// The record of the currently connected user changed.
    CurrentUserUpdate { user_id: i64 },
    /// The user asked to join an activity; the secret identifies it.
    ActivityJoin { secret: String },
    /// The user asked to spectate an activity.
    ActivitySpectate { secret: String },
    /// Another user asked to join the current activity.
    ActivityJoinRequest { user_id: i64 },
    /// The user was invited to an activity.
    ActivityInvite { user_id: i64 },
    /// A lobby's record changed.
    LobbyUpdate { lobby_id: i64 },
    /// A lobby was deleted; the reason is a native code.
    LobbyDelete { lobby_id: i64, reason: u32 },
    /// A member connected to a lobby.
    MemberConnect { lobby_id: i64, member_id: i64 },
    /// A member's record changed.
    MemberUpdate { lobby_id: i64, member_id: i64 },
    /// A member disconnected from a lobby.
    MemberDisconnect { lobby_id: i64, member_id: i64 },
    /// A message was posted to a lobby; the payload bytes are owned.
    LobbyMessage { lobby_id: i64, member_id: i64, buffer: Vec<u8> },
    /// A datagram arrived on a lobby network channel.
    NetworkMessage { lobby_id: i64, member_id: i64, channel_id: u8, buffer: Vec<u8> },
    /// The relationship list is ready to be read.
    RelationshipRefresh,
    /// A single relationship changed.
    RelationshipUpdate { user_id: i64 },
    /// A store entitlement was created.
    EntitlementCreate { entitlement_id: i64 },
    /// A store entitlement was deleted.
    EntitlementDelete { entitlement_id: i64 },
    /// The overlay was opened or closed.
    OverlayToggle { opened: bool },
    /// The voice settings changed.
    VoiceSettingsUpdate,
}

/// The kind an event belongs to.
pub open spec fn kind_of(e: Event) -> EventKind {
    match e {
        Event::CurrentUserUpdate { .. } => EventKind::CurrentUserUpdate,
        Event::ActivityJoin { .. } => EventKind::ActivityJoin,
        Event::ActivitySpectate { .. } => EventKind::ActivitySpectate,
        Event::ActivityJoinRequest { .. } => EventKind::ActivityJoinRequest,
        Event::ActivityInvite { .. } => EventKind::ActivityInvite,
        Event::LobbyUpdate { .. } => EventKind::LobbyUpdate,
        Event::LobbyDelete { .. } => EventKind::LobbyDelete,
        Event::MemberConnect { .. } => EventKind::MemberConnect,
        Event::MemberUpdate { .. } => EventKind::MemberUpdate,
        Event::MemberDisconnect { .. } => EventKind::MemberDisconnect,
        Event::LobbyMessage { .. } => EventKind::LobbyMessage,
        Event::NetworkMessage { .. } => EventKind::NetworkMessage,
        Event::RelationshipRefresh => EventKind::RelationshipRefresh,
        Event::RelationshipUpdate { .. } => EventKind::RelationshipUpdate,
        Event::EntitlementCreate { .. } => EventKind::EntitlementCreate,
        Event::EntitlementDelete { .. } => EventKind::EntitlementDelete,
        Event::OverlayToggle { .. } => EventKind::OverlayToggle,
        Event::VoiceSettingsUpdate => EventKind::VoiceSettingsUpdate,
    }
}

/// The queue index of an event kind; each kind has its own slot below
/// [`EVENT_KIND_COUNT`], and no two kinds share one.
pub open spec fn spec_kind_index(k: EventKind) -> int {
    match k {
        EventKind::CurrentUserUpdate => 0,
        EventKind::ActivityJoin => 1,
        EventKind::ActivitySpectate => 2,
        EventKind::ActivityJoinRequest => 3,
        EventKind::ActivityInvite => 4,
        EventKind::LobbyUpdate => 5,
        EventKind::LobbyDelete => 6,
        EventKind::MemberConnect => 7,
        EventKind::MemberUpdate => 8,
        EventKind::MemberDisconnect => 9,
        EventKind::LobbyMessage => 10,
        EventKind::NetworkMessage => 11,
        EventKind::RelationshipRefresh => 12,
        EventKind::RelationshipUpdate => 13,
        EventKind::EntitlementCreate => 14,
        EventKind::EntitlementDelete => 15,
        EventKind::OverlayToggle => 16,
        EventKind::VoiceSettingsUpdate => 17,
    }
}

impl EventKind {
    /// The queue index of this kind.
    pub fn index(&self) -> (i: usize)
        ensures
            i == spec_kind_index(*self),
    {
        match self {
            EventKind::CurrentUserUpdate => 0,
            EventKind::ActivityJoin => 1,
            EventKind::ActivitySpectate => 2,
            EventKind::ActivityJoinRequest => 3,
            EventKind::ActivityInvite => 4,
            EventKind::LobbyUpdate => 5,
            EventKind::LobbyDelete => 6,
            EventKind::MemberConnect => 7,
            EventKind::MemberUpdate => 8,
            EventKind::MemberDisconnect => 9,
            EventKind::LobbyMessage => 10,
            EventKind::NetworkMessage => 11,
            EventKind::RelationshipRefresh => 12,
            EventKind::RelationshipUpdate => 13,
            EventKind::EntitlementCreate => 14,
            EventKind::EntitlementDelete => 15,
            EventKind::OverlayToggle => 16,
            EventKind::VoiceSettingsUpdate => 17,
        }
    }
}

impl Event {
    /// The kind this event belongs to.
    pub fn kind(&self) -> (k: EventKind)
        ensures
            k == kind_of(*self),
    {
        match self {
            Event::CurrentUserUpdate { .. } => EventKind::CurrentUserUpdate,
            Event::ActivityJoin { .. } => EventKind::ActivityJoin,
            Event::ActivitySpectate { .. } => EventKind::ActivitySpectate,
            Event::ActivityJoinRequest { .. } => EventKind::ActivityJoinRequest,
            Event::ActivityInvite { .. } => EventKind::ActivityInvite,
            Event::LobbyUpdate { .. } => EventKind::LobbyUpdate,
            Event::LobbyDelete { .. } => EventKind::LobbyDelete,
            Event::MemberConnect { .. } => EventKind::MemberConnect,
            Event::MemberUpdate { .. } => EventKind::MemberUpdate,
            Event::MemberDisconnect { .. } => EventKind::MemberDisconnect,
            Event::LobbyMessage { .. } => EventKind::LobbyMessage,
            Event::NetworkMessage { .. } => EventKind::NetworkMessage,
            Event::RelationshipRefresh => EventKind::RelationshipRefresh,
            Event::RelationshipUpdate { .. } => EventKind::RelationshipUpdate,
            Event::EntitlementCreate { .. } => EventKind::EntitlementCreate,
            Event::EntitlementDelete { .. } => EventKind::EntitlementDelete,
            Event::OverlayToggle { .. } => EventKind::OverlayToggle,
            Event::VoiceSettingsUpdate => EventKind::VoiceSettingsUpdate,
        }
    }
}

/// The events of one kind, in delivery order.
pub open spec fn events_of_kind(evs: Seq<Event>, k: EventKind) -> Seq<Event>
    decreases evs.len(),
{
    if evs.len() == 0 {
        Seq::empty()
    } else if kind_of(evs.last()) == k {
        events_of_kind(evs.drop_last(), k).push(evs.last())
    } else {
        events_of_kind(evs.drop_last(), k)
    }
}

/// The fixed set of one-producer/one-consumer queues, one per event kind,
/// created as a matched pair set when the session is constructed and never
/// re-paired. The producer side is the trampoline layer ([`EventChannels::push`]);
/// the consumer side is the per-kind non-blocking drain.
#[derive(Debug, Clone, PartialEq, Eq)]
pub struct EventChannels {
    queues: Vec<Vec<Event>>,
}

impl EventChannels {
    /// The registry is well formed: one queue per kind, and every queued
    /// event sits in the queue of its own kind.
    pub closed spec fn wf(&self) -> bool {
        &&& self.queues@.len() == EVENT_KIND_COUNT
        &&& forall|qi: int, i: int|
            0 <= qi < self.queues@.len() && 0 <= i < self.queues@[qi]@.len()
                ==> spec_kind_index(kind_of(#[trigger] self.queues@[qi]@[i])) == qi
    }

    /// The buffered events of one kind, oldest first.
    pub closed spec fn queue(&self, k: EventKind) -> Seq<Event> {
        self.queues@[spec_kind_index(k)]@
    }

    /// Creates the registry with every queue empty.
    pub fn new() -> (r: EventChannels)
        ensures
            r.wf(),
            forall|k: EventKind| #[trigger] r.queue(k) == Seq::<Event>::empty(),
    {
        let mut queues: Vec<Vec<Event>> = Vec::new();
        let mut n: usize = 0;
        while n < EVENT_KIND_COUNT
            invariant
                queues@.len() == n,
                n <= EVENT_KIND_COUNT,
                forall|qi: int| 0 <= qi < n ==> #[trigger] queues@[qi]@ == Seq::<Event>::empty(),
            decreases EVENT_KIND_COUNT - n,
        {
            queues.push(Vec::new());
            n = n + 1;
        }
        EventChannels { queues }
    }

    /// The trampoline layer's producer side: appends the event to the queue
    /// of its kind. Never blocks and never drops: the queue grows until the
    /// application drains it.
    pub fn push(&mut self, e: Event)
        requires
            old(self).wf(),
        ensures
            final(self).wf(),
            final(self).queue(kind_of(e)) == old(self).queue(kind_of(e)).push(e),
            forall|k: EventKind|
                k != kind_of(e) ==> #[trigger] final(self).queue(k) == old(self).queue(k),
    {
        let idx = e.kind().index();
        let q: &mut Vec<Event> = &mut self.queues[idx];
        q.push(e);
        proof {
            assert forall|k: EventKind|
                k != kind_of(e) implies #[trigger] final(self).queue(k) == old(self).queue(k) by {
                kind_index_injective(k, kind_of(e));
            }
        }
    }

    /// The consumer side: removes and returns every buffered event of the
    /// given kind, oldest first.
    pub fn drain(&mut self, k: EventKind) -> (r: Vec<Event>)
        requires
            old(self).wf(),
        ensures
            final(self).wf(),
            r@ == old(self).queue(k),
            forall|i: int| 0 <= i < r@.len() ==> kind_of(#[trigger] r@[i]) == k,
            final(self).queue(k) == Seq::<Event>::empty(),
            forall|k2: EventKind|
                k2 != k ==> #[trigger] final(self).queue(k2) == old(self).queue(k2),
    {
        let idx = k.index();
        let mut out: Vec<Event> = Vec::new();
        core::mem::swap(&mut out, &mut self.queues[idx]);
        proof {
            assert forall|k2: EventKind|
                k2 != k implies #[trigger] final(self).queue(k2) == old(self).queue(k2) by {
                kind_index_injective(k2, k);
            }
        }
        out
    }

    /// Discards every buffered event of every kind.
    pub fn empty_channels(&mut self)
        requires
            old(self).wf(),
        ensures
            final(self).wf(),
            forall|k: EventKind| #[trigger] final(self).queue(k) == Seq::<Event>::empty(),
    {
        let mut i: usize = 0;
        while i < self.queues.len()
            invariant
                self.queues@.len() == EVENT_KIND_COUNT,
                i <= EVENT_KIND_COUNT,
                forall|qi: int| 0 <= qi < i ==> #[trigger] self.queues@[qi]@ == Seq::<Event>::empty(),
            decreases EVENT_KIND_COUNT - i,
        {
            self.queues[i].clear();
            i = i + 1;
        }
    }
}

/// No two event kinds share a queue index.
pub proof fn kind_index_injective(a: EventKind, b: EventKind)
    ensures
        spec_kind_index(a) == spec_kind_index(b) ==> a == b,
{
}


/// Law: per-kind selection distributes over delivery batches. What two
/// successive passes deliver for a kind is the first pass's events of that
/// kind followed by the second's, so within one kind the drain order always
/// matches the native delivery order, however the deliveries were batched.
pub proof fn lemma_events_of_kind_concat(a: Seq<Event>, b: Seq<Event>, k: EventKind)
    ensures
        events_of_kind(a + b, k) == events_of_kind(a, k) + events_of_kind(b, k),
    decreases b.len(),
{
    if b.len() == 0 {
        assert(a + b =~= a);
        assert(events_of_kind(a, k) + events_of_kind(b, k) =~= events_of_kind(a, k));
    } else {
        lemma_events_of_kind_concat(a, b.drop_last(), k);
        assert((a + b).drop_last() =~= a + b.drop_last());
        assert((a + b).last() == b.last());
        if kind_of(b.last()) == k {
            assert(events_of_kind(a, k) + events_of_kind(b, k) =~= (events_of_kind(a, k)
                + events_of_kind(b.drop_last(), k)).push(b.last()));
        }
    }
}

} // verus!
