//! The session instance: the dispatch facade and the tick.
//!
//! A [`Discord`] value owns the consumer halves of the event channel registry
//! and the pending-operation table. Asynchronous methods populate a request,
//! record one waiting slot, and return the token the native completion will
//! name. The application drives everything by calling [`Discord::run_callbacks`]
//! with what the native layer did this pass (a [`NativeTick`]): the events its
//! trampolines delivered and the completions it reported. The tick routes the
//! events, marks the named slots ready, and scans the table once, resolving
//! every ready slot exactly once — tolerating new operations issued by the
//! completion handler while the scan runs.

use vstd::prelude::*;
use crate::error::Error;
use crate::event::Event;
use crate::event::EventChannels;
use crate::event::EventKind;
use crate::event::events_of_kind;
use crate::event::kind_of;
use crate::pending::Completion;
use crate::pending::Request;
use crate::pending::Resolution;
use crate::pending::Slot;
use crate::pending::SlotState;
use crate::pending::all_waiting;
use crate::pending::completion_index;
use crate::pending::completion_valid;
use crate::pending::completions_valid;
use crate::pending::decode;
use crate::pending::has_completion;
use crate::pending::has_token;
use crate::pending::lemma_mark_all;
use crate::pending::lemma_slot_index_unique;
use crate::pending::lemma_waiting_of_tokens;
use crate::pending::mark_all;
use crate::pending::mark_one;
use crate::pending::payload_matches;
use crate::pending::resolutions_of;
use crate::pending::shape_of;
use crate::pending::slot_index;
use crate::pending::tokens_below;
use crate::pending::tokens_distinct;
use crate::pending::waiting_of;
use crate::transaction::LobbyMemberTransaction;
use crate::transaction::LobbyTransaction;
use crate::transaction::NativeLobbyTransaction;
use crate::transaction::NativeMemberTransaction;
use crate::transaction::NativeSearchQuery;
use crate::transaction::SearchQuery;
use crate::transaction::all_ok;
use crate::transaction::apply_all;
use crate::transaction::apply_member_all;
use crate::transaction::apply_search_all;
use crate::transaction::check_secret;
use crate::transaction::fresh_lobby_view;
use crate::transaction::fresh_member_view;
use crate::transaction::fresh_search_view;
use crate::transaction::member_all_ok;
use crate::transaction::search_all_ok;
use crate::transaction::valid_secret;

verus! {

/// How the native session is created.
#[derive(Debug, Clone, Copy, PartialEq, Eq, Structural)]
pub enum CreateFlags {
    /// The platform client must be installed and running.
    Standard,
    /// Run without requiring the platform client.
    NoRequireDiscord,
}

/// Everything the native layer did during one run of its pending callbacks:
/// whether the session still runs, the events its trampolines delivered, in
/// delivery order, and the completions it reported, in report order. A value
/// of this type is built at the native boundary and handed to
/// [`Discord::run_callbacks`].
#[derive(Debug, Clone, PartialEq, Eq)]
pub struct NativeTick {
    /// Whether the native session is running; when it is not, the tick fails
    /// with [`Error::NotRunning`] and changes nothing.
    pub running: bool,
    /// The events delivered this pass, in native delivery order.
    pub events: Vec<Event>,
    /// The completions reported this pass, each naming the token of a
    /// distinct waiting operation.
    pub completions: Vec<Completion>,
}

/// A user-supplied completion handler: the tick's scan hands it every
/// resolution, in readiness order, exactly once. It may answer with new
/// requests to issue; they are appended to the table during the scan and
/// resolved by a later tick.
pub trait CompletionHandler {
    /// Called once per resolved operation; the returned requests are issued
    /// immediately, each under a fresh token.
    fn on_complete(&mut self, resolution: &Resolution) -> Vec<Request>;
}

/// The session instance: the one owner of the channel registry's consumer
/// halves and of the pending-operation table.
#[derive(Debug, Clone, PartialEq, Eq)]
pub struct Discord {
    client_id: i64,
    flags: CreateFlags,
    receivers: EventChannels,
    callbacks: Vec<Slot>,
    next_token: u64,
}

impl Discord {
    /// The instance is well formed: the registry holds one queue per kind,
    /// every pending slot waits under its own token, and every token was
    /// drawn from the counter.
    pub closed spec fn wf(&self) -> bool {
        &&& self.receivers.wf()
        &&& tokens_distinct(self.callbacks@)
        &&& tokens_below(self.callbacks@, self.next_token)
        &&& all_waiting(self.callbacks@)
    }

    /// The pending-operation table, in issue order.
    pub closed spec fn pending(&self) -> Seq<Slot> {
        self.callbacks@
    }

    /// The token the next issued operation gets.
    pub closed spec fn token_counter(&self) -> u64 {
        self.next_token
    }

    /// The buffered events of one kind, oldest first.
    pub closed spec fn events(&self, k: EventKind) -> Seq<Event> {
        self.receivers.queue(k)
    }

    /// The application identifier the session was created for.
    pub closed spec fn spec_client_id(&self) -> i64 {
        self.client_id
    }

    /// The creation flags the session was created with.
    pub closed spec fn spec_create_flags(&self) -> CreateFlags {
        self.flags
    }

    /// Creates an instance with the standard creation flags.
    pub fn new(client_id: i64) -> (r: Result<Discord, Error>)
        ensures
            r is Ok,
            r->Ok_0.wf(),
            r->Ok_0.spec_client_id() == client_id,
            r->Ok_0.spec_create_flags() == CreateFlags::Standard,
            r->Ok_0.pending() == Seq::<Slot>::empty(),
            r->Ok_0.token_counter() == 0,
            forall|k: EventKind| #[trigger] r->Ok_0.events(k) == Seq::<Event>::empty(),
    {
        Self::with_create_flags(client_id, CreateFlags::Standard)
    }

    /// Creates an instance: allocates the matched producer/consumer channel
    /// pair per event kind and an empty pending-operation table. The native
    /// create call itself happens at the boundary; a session is only driven
    /// through ticks once that call has reported success.
    pub fn with_create_flags(client_id: i64, flags: CreateFlags) -> (r: Result<Discord, Error>)
        ensures
            r is Ok,
            r->Ok_0.wf(),
            r->Ok_0.spec_client_id() == client_id,
            r->Ok_0.spec_create_flags() == flags,
            r->Ok_0.pending() == Seq::<Slot>::empty(),
            r->Ok_0.token_counter() == 0,
            forall|k: EventKind| #[trigger] r->Ok_0.events(k) == Seq::<Event>::empty(),
    {
        Ok(
            Discord {
                client_id,
                flags,
                receivers: EventChannels::new(),
                callbacks: Vec::new(),
                next_token: 0,
            },
        )
    }

    /// The application identifier the session was created for.
    pub fn client_id(&self) -> (r: i64)
        ensures
            r == self.spec_client_id(),
    {
        self.client_id
    }

    /// Discards every buffered event of every kind. Pending operations are
    /// untouched.
    pub fn empty_event_buffers(&mut self)
        requires
            old(self).wf(),
        ensures
            final(self).wf(),
            forall|k: EventKind| #[trigger] final(self).events(k) == Seq::<Event>::empty(),
            final(self).pending() == old(self).pending(),
            final(self).token_counter() == old(self).token_counter(),
            final(self).spec_client_id() == old(self).spec_client_id(),
            final(self).spec_create_flags() == old(self).spec_create_flags(),
    {
        self.receivers.empty_channels();
    }

    /// The trampoline layer's safe half: appends one delivered event to the
    /// queue of its kind. Queues of other kinds and the pending table are
    /// untouched.
    pub fn push_event(&mut self, e: Event)
        requires
            old(self).wf(),
        ensures
            final(self).wf(),
            final(self).events(kind_of(e)) == old(self).events(kind_of(e)).push(e),
            forall|k: EventKind|
                k != kind_of(e) ==> #[trigger] final(self).events(k) == old(self).events(k),
            final(self).pending() == old(self).pending(),
            final(self).token_counter() == old(self).token_counter(),
            final(self).spec_client_id() == old(self).spec_client_id(),
            final(self).spec_create_flags() == old(self).spec_create_flags(),
    {
        self.receivers.push(e);
    }

    /// Removes and returns every buffered current-user update, oldest first.
    pub fn recv_current_user_update(&mut self) -> (r: Vec<Event>)
        requires
            old(self).wf(),
        ensures
            final(self).wf(),
            r@ == old(self).events(EventKind::CurrentUserUpdate),
            forall|i: int| 0 <= i < r@.len() ==> kind_of(#[trigger] r@[i]) == EventKind::CurrentUserUpdate,
            final(self).events(EventKind::CurrentUserUpdate) == Seq::<Event>::empty(),
            forall|k: EventKind|
                k != EventKind::CurrentUserUpdate ==> #[trigger] final(self).events(k) == old(self).events(k),
            final(self).pending() == old(self).pending(),
            final(self).token_counter() == old(self).token_counter(),
            final(self).spec_client_id() == old(self).spec_client_id(),
            final(self).spec_create_flags() == old(self).spec_create_flags(),
    {
        self.recv(EventKind::CurrentUserUpdate)
    }

    /// Removes and returns every buffered event of one kind, oldest first.
    pub fn recv(&mut self, kind: EventKind) -> (r: Vec<Event>)
        requires
            old(self).wf(),
        ensures
            final(self).wf(),
            r@ == old(self).events(kind),
            forall|i: int| 0 <= i < r@.len() ==> kind_of(#[trigger] r@[i]) == kind,
            final(self).events(kind) == Seq::<Event>::empty(),
            forall|k: EventKind| k != kind ==> #[trigger] final(self).events(k) == old(self).events(k),
            final(self).pending() == old(self).pending(),
            final(self).token_counter() == old(self).token_counter(),
            final(self).spec_client_id() == old(self).spec_client_id(),
            final(self).spec_create_flags() == old(self).spec_create_flags(),
    {
        self.receivers.drain(kind)
    }

    /// Records one waiting slot for a request and hands out its token.
    fn issue(&mut self, request: Request) -> (t: u64)
        requires
            old(self).wf(),
            old(self).next_token < u64::MAX,
        ensures
            final(self).wf(),
            t == old(self).next_token,
            final(self).next_token == old(self).next_token + 1,
            final(self).callbacks@ == old(self).callbacks@.push(
                (Slot { token: t, request: request, state: SlotState::Waiting }),
            ),
            final(self).receivers == old(self).receivers,
            final(self).client_id == old(self).client_id,
            final(self).flags == old(self).flags,
    {
        let t = self.next_token;
        self.callbacks.push(Slot { token: t, request, state: SlotState::Waiting });
        self.next_token = self.next_token + 1;
        proof {
            let s = self.callbacks@;
            let s0 = old(self).callbacks@;
            assert(tokens_distinct(s)) by {
                assert(forall|i: int| 0 <= i < s0.len() ==> #[trigger] s[i] == s0[i]);
                assert(forall|i: int| 0 <= i < s0.len() ==> (#[trigger] s0[i]).token < t);
            }
            assert(tokens_below(s, self.next_token)) by {
                assert(forall|i: int| 0 <= i < s0.len() ==> #[trigger] s[i] == s0[i]);
            }
            assert(all_waiting(s)) by {
                assert(forall|i: int| 0 <= i < s0.len() ==> #[trigger] s[i] == s0[i]);
            }
        }
        t
    }

    /// Issues an asynchronous lobby creation. A fresh native transaction is
    /// acquired and the builder's mutations are replayed into it; a mutation
    /// that does not encode surfaces its error at once and issues nothing.
    /// Otherwise the populated transaction is handed across the boundary and
    /// the returned token names the pending operation, whose completion
    /// decodes to a lobby record.
    pub fn create_lobby(&mut self, builder: &LobbyTransaction) -> (r: Result<u64, Error>)
        requires
            old(self).wf(),
            old(self).token_counter() < u64::MAX,
        ensures
            final(self).wf(),
            !all_ok(builder.mutations()) ==> r == Err::<u64, Error>(Error::TooLong) && *final(self)
                == *old(self),
            all_ok(builder.mutations()) ==> r == Ok::<u64, Error>(old(self).token_counter())
                && final(self).token_counter() == old(self).token_counter() + 1
                && final(self).pending().len() == old(self).pending().len() + 1
                && final(self).pending().drop_last() == old(self).pending()
                && final(self).pending().last().token == old(self).token_counter()
                && final(self).pending().last().state is Waiting
                && final(self).pending().last().request is CreateLobby
                && final(self).pending().last().request->CreateLobby_0@ == apply_all(
                fresh_lobby_view(),
                builder.mutations(),
            ),
            forall|k: EventKind| #[trigger] final(self).events(k) == old(self).events(k),
            final(self).spec_client_id() == old(self).spec_client_id(),
            final(self).spec_create_flags() == old(self).spec_create_flags(),
    {
        let mut handle = NativeLobbyTransaction::new();
        match builder.process(&mut handle) {
            Err(e) => Err(e),
            Ok(_) => {
                let t = self.issue(Request::CreateLobby(handle));
                Ok(t)
            },
        }
    }

    /// Issues an asynchronous lobby update: the builder's mutations are
    /// replayed into a fresh native transaction for the named lobby, and the
    /// populated transaction is handed across the boundary. The completion
    /// carries a bare status.
    pub fn update_lobby(&mut self, lobby_id: i64, builder: &LobbyTransaction) -> (r: Result<
        u64,
        Error,
    >)
        requires
            old(self).wf(),
            old(self).token_counter() < u64::MAX,
        ensures
            final(self).wf(),
            !all_ok(builder.mutations()) ==> r == Err::<u64, Error>(Error::TooLong) && *final(self)
                == *old(self),
            all_ok(builder.mutations()) ==> r == Ok::<u64, Error>(old(self).token_counter())
                && final(self).token_counter() == old(self).token_counter() + 1
                && final(self).pending().len() == old(self).pending().len() + 1
                && final(self).pending().drop_last() == old(self).pending()
                && final(self).pending().last().token == old(self).token_counter()
                && final(self).pending().last().state is Waiting
                && final(self).pending().last().request is UpdateLobby
                && final(self).pending().last().request->UpdateLobby_0 == lobby_id
                && final(self).pending().last().request->UpdateLobby_1@ == apply_all(
                fresh_lobby_view(),
                builder.mutations(),
            ),
            forall|k: EventKind| #[trigger] final(self).events(k) == old(self).events(k),
            final(self).spec_client_id() == old(self).spec_client_id(),
            final(self).spec_create_flags() == old(self).spec_create_flags(),
    {
        let mut handle = NativeLobbyTransaction::new();
        match builder.process(&mut handle) {
            Err(e) => Err(e),
            Ok(_) => {
                let t = self.issue(Request::UpdateLobby(lobby_id, handle));
                Ok(t)
            },
        }
    }

    /// Issues an asynchronous member update: the builder's mutations are
    /// replayed into a fresh native member transaction, and the populated
    /// transaction is handed across the boundary. The completion carries a
    /// bare status.
    pub fn update_member(
        &mut self,
        lobby_id: i64,
        user_id: i64,
        builder: &LobbyMemberTransaction,
    ) -> (r: Result<u64, Error>)
        requires
            old(self).wf(),
            old(self).token_counter() < u64::MAX,
        ensures
            final(self).wf(),
            !member_all_ok(builder.mutations()) ==> r == Err::<u64, Error>(Error::TooLong)
                && *final(self) == *old(self),
            member_all_ok(builder.mutations()) ==> r == Ok::<u64, Error>(old(self).token_counter())
                && final(self).token_counter() == old(self).token_counter() + 1
                && final(self).pending().len() == old(self).pending().len() + 1
                && final(self).pending().drop_last() == old(self).pending()
                && final(self).pending().last().token == old(self).token_counter()
                && final(self).pending().last().state is Waiting
                && final(self).pending().last().request is UpdateMember
                && final(self).pending().last().request->UpdateMember_0 == lobby_id
                && final(self).pending().last().request->UpdateMember_1 == user_id
                && final(self).pending().last().request->UpdateMember_2@ == apply_member_all(
                fresh_member_view(),
                builder.mutations(),
            ),
            forall|k: EventKind| #[trigger] final(self).events(k) == old(self).events(k),
            final(self).spec_client_id() == old(self).spec_client_id(),
            final(self).spec_create_flags() == old(self).spec_create_flags(),
    {
        let mut handle = NativeMemberTransaction::new();
        match builder.process(&mut handle) {
            Err(e) => Err(e),
            Ok(_) => {
                let t = self.issue(Request::UpdateMember(lobby_id, user_id, handle));
                Ok(t)
            },
        }
    }

    /// Issues an asynchronous lobby search: the builder's intents are
    /// replayed into a fresh native query, and the populated query is handed
    /// across the boundary. The completion carries the matching lobby
    /// identifiers.
    pub fn lobby_search(&mut self, builder: &SearchQuery) -> (r: Result<u64, Error>)
        requires
            old(self).wf(),
            old(self).token_counter() < u64::MAX,
        ensures
            final(self).wf(),
            !search_all_ok(builder.mutations()) ==> r == Err::<u64, Error>(Error::TooLong)
                && *final(self) == *old(self),
            search_all_ok(builder.mutations()) ==> r == Ok::<u64, Error>(old(self).token_counter())
                && final(self).token_counter() == old(self).token_counter() + 1
                && final(self).pending().len() == old(self).pending().len() + 1
                && final(self).pending().drop_last() == old(self).pending()
                && final(self).pending().last().token == old(self).token_counter()
                && final(self).pending().last().state is Waiting
                && final(self).pending().last().request is LobbySearch
                && final(self).pending().last().request->LobbySearch_0@ == apply_search_all(
                fresh_search_view(),
                builder.mutations(),
            ),
            forall|k: EventKind| #[trigger] final(self).events(k) == old(self).events(k),
            final(self).spec_client_id() == old(self).spec_client_id(),
            final(self).spec_create_flags() == old(self).spec_create_flags(),
    {
        let mut handle = NativeSearchQuery::new();
        match builder.process(&mut handle) {
            Err(e) => Err(e),
            Ok(_) => {
                let t = self.issue(Request::LobbySearch(handle));
                Ok(t)
            },
        }
    }

    /// Issues an asynchronous lobby deletion; the completion carries a bare
    /// status.
    pub fn delete_lobby(&mut self, lobby_id: i64) -> (t: u64)
        requires
            old(self).wf(),
            old(self).token_counter() < u64::MAX,
        ensures
            final(self).wf(),
            t == old(self).token_counter(),
            final(self).token_counter() == old(self).token_counter() + 1,
            final(self).pending() == old(self).pending().push(
                (Slot {
                    token: t,
                    request: Request::DeleteLobby(lobby_id),
                    state: SlotState::Waiting,
                }),
            ),
            forall|k: EventKind| #[trigger] final(self).events(k) == old(self).events(k),
            final(self).spec_client_id() == old(self).spec_client_id(),
            final(self).spec_create_flags() == old(self).spec_create_flags(),
    {
        self.issue(Request::DeleteLobby(lobby_id))
    }

    /// Issues an asynchronous connection to a lobby under its secret. A
    /// secret that does not fit the native buffer surfaces its error at once
    /// and issues nothing; the completion decodes to a lobby record.
    pub fn connect_lobby(&mut self, lobby_id: i64, secret: String) -> (r: Result<u64, Error>)
        requires
            old(self).wf(),
            old(self).token_counter() < u64::MAX,
        ensures
            final(self).wf(),
            !valid_secret(secret@) ==> r == Err::<u64, Error>(Error::TooLong) && *final(self)
                == *old(self),
            valid_secret(secret@) ==> r == Ok::<u64, Error>(old(self).token_counter())
                && final(self).token_counter() == old(self).token_counter() + 1
                && final(self).pending() == old(self).pending().push(
                (Slot {
                    token: old(self).token_counter(),
                    request: Request::ConnectLobby(lobby_id, secret),
                    state: SlotState::Waiting,
                }),
            ),
            forall|k: EventKind| #[trigger] final(self).events(k) == old(self).events(k),
            final(self).spec_client_id() == old(self).spec_client_id(),
            final(self).spec_create_flags() == old(self).spec_create_flags(),
    {
        if !check_secret(&secret) {
            return Err(Error::TooLong);
        }
        let t = self.issue(Request::ConnectLobby(lobby_id, secret));
        Ok(t)
    }

    /// Issues an asynchronous connection to the lobby a combined activity
    /// secret names. A secret that does not fit the native buffer surfaces
    /// its error at once; the completion decodes to a lobby record.
    pub fn connect_lobby_with_activity_secret(&mut self, activity_secret: String) -> (r: Result<
        u64,
        Error,
    >)
        requires
            old(self).wf(),
            old(self).token_counter() < u64::MAX,
        ensures
            final(self).wf(),
            !valid_secret(activity_secret@) ==> r == Err::<u64, Error>(Error::TooLong)
                && *final(self) == *old(self),
            valid_secret(activity_secret@) ==> r == Ok::<u64, Error>(old(self).token_counter())
                && final(self).token_counter() == old(self).token_counter() + 1
                && final(self).pending() == old(self).pending().push(
                (Slot {
                    token: old(self).token_counter(),
                    request: Request::ConnectLobbyWithActivitySecret(activity_secret),
                    state: SlotState::Waiting,
                }),
            ),
            forall|k: EventKind| #[trigger] final(self).events(k) == old(self).events(k),
            final(self).spec_client_id() == old(self).spec_client_id(),
            final(self).spec_create_flags() == old(self).spec_create_flags(),
    {
        if !check_secret(&activity_secret) {
            return Err(Error::TooLong);
        }
        let t = self.issue(Request::ConnectLobbyWithActivitySecret(activity_secret));
        Ok(t)
    }

    /// Issues an asynchronous disconnection from a lobby; the completion
    /// carries a bare status.
    pub fn disconnect_lobby(&mut self, lobby_id: i64) -> (t: u64)
        requires
            old(self).wf(),
            old(self).token_counter() < u64::MAX,
        ensures
            final(self).wf(),
            t == old(self).token_counter(),
            final(self).token_counter() == old(self).token_counter() + 1,
            final(self).pending() == old(self).pending().push(
                (Slot {
                    token: t,
                    request: Request::DisconnectLobby(lobby_id),
                    state: SlotState::Waiting,
                }),
            ),
            forall|k: EventKind| #[trigger] final(self).events(k) == old(self).events(k),
            final(self).spec_client_id() == old(self).spec_client_id(),
            final(self).spec_create_flags() == old(self).spec_create_flags(),
    {
        self.issue(Request::DisconnectLobby(lobby_id))
    }

    /// Issues an asynchronous lobby message; the payload bytes are owned by
    /// the request. The completion carries a bare status.
    pub fn send_lobby_message(&mut self, lobby_id: i64, buf: Vec<u8>) -> (t: u64)
        requires
            old(self).wf(),
            old(self).token_counter() < u64::MAX,
            buf@.len() <= u32::MAX,
        ensures
            final(self).wf(),
            t == old(self).token_counter(),
            final(self).token_counter() == old(self).token_counter() + 1,
            final(self).pending() == old(self).pending().push(
                (Slot {
                    token: t,
                    request: Request::SendLobbyMessage(lobby_id, buf),
                    state: SlotState::Waiting,
                }),
            ),
            forall|k: EventKind| #[trigger] final(self).events(k) == old(self).events(k),
            final(self).spec_client_id() == old(self).spec_client_id(),
            final(self).spec_create_flags() == old(self).spec_create_flags(),
    {
        self.issue(Request::SendLobbyMessage(lobby_id, buf))
    }

    /// Issues an asynchronous connection to a lobby's voice channel; the
    /// completion carries a bare status.
    pub fn connect_lobby_voice(&mut self, lobby_id: i64) -> (t: u64)
        requires
            old(self).wf(),
            old(self).token_counter() < u64::MAX,
        ensures
            final(self).wf(),
            t == old(self).token_counter(),
            final(self).token_counter() == old(self).token_counter() + 1,
            final(self).pending() == old(self).pending().push(
                (Slot {
                    token: t,
                    request: Request::ConnectLobbyVoice(lobby_id),
                    state: SlotState::Waiting,
                }),
            ),
            forall|k: EventKind| #[trigger] final(self).events(k) == old(self).events(k),
            final(self).spec_client_id() == old(self).spec_client_id(),
            final(self).spec_create_flags() == old(self).spec_create_flags(),
    {
        self.issue(Request::ConnectLobbyVoice(lobby_id))
    }

    /// Issues an asynchronous disconnection from a lobby's voice channel;
    /// the completion carries a bare status.
    pub fn disconnect_lobby_voice(&mut self, lobby_id: i64) -> (t: u64)
        requires
            old(self).wf(),
            old(self).token_counter() < u64::MAX,
        ensures
            final(self).wf(),
            t == old(self).token_counter(),
            final(self).token_counter() == old(self).token_counter() + 1,
            final(self).pending() == old(self).pending().push(
                (Slot {
                    token: t,
                    request: Request::DisconnectLobbyVoice(lobby_id),
                    state: SlotState::Waiting,
                }),
            ),
            forall|k: EventKind| #[trigger] final(self).events(k) == old(self).events(k),
            final(self).spec_client_id() == old(self).spec_client_id(),
            final(self).spec_create_flags() == old(self).spec_create_flags(),
    {
        self.issue(Request::DisconnectLobbyVoice(lobby_id))
    }

    /// Issues an asynchronous user lookup; the completion decodes to a user
    /// record.
    pub fn user(&mut self, user_id: i64) -> (t: u64)
        requires
            old(self).wf(),
            old(self).token_counter() < u64::MAX,
        ensures
            final(self).wf(),
            t == old(self).token_counter(),
            final(self).token_counter() == old(self).token_counter() + 1,
            final(self).pending() == old(self).pending().push(
                (Slot { token: t, request: Request::GetUser(user_id), state: SlotState::Waiting }),
            ),
            forall|k: EventKind| #[trigger] final(self).events(k) == old(self).events(k),
            final(self).spec_client_id() == old(self).spec_client_id(),
            final(self).spec_create_flags() == old(self).spec_create_flags(),
    {
        self.issue(Request::GetUser(user_id))
    }

    /// Appends one waiting slot per listed request, each under the next
    /// fresh token; once the token counter is exhausted nothing more can be
    /// issued and the rest are refused.
    fn append_requests(&mut self, reqs: Vec<Request>)
        ensures
            final(self).callbacks@.len() >= old(self).callbacks@.len(),
            final(self).callbacks@.take(old(self).callbacks@.len() as int) == old(self).callbacks@,
            forall|x: int|
                old(self).callbacks@.len() <= x < final(self).callbacks@.len() ==> (
                #[trigger] final(self).callbacks@[x]).state is Waiting && final(self).callbacks@[x].token == old(self).next_token + (x - old(self).callbacks@.len()),
            final(self).next_token == old(self).next_token + (final(self).callbacks@.len() - old(self).callbacks@.len()),
            final(self).receivers == old(self).receivers,
            final(self).client_id == old(self).client_id,
            final(self).flags == old(self).flags,
    {
        let mut reqs = reqs;
        while reqs.len() > 0
            invariant
                self.callbacks@.len() >= old(self).callbacks@.len(),
                self.callbacks@.take(old(self).callbacks@.len() as int) == old(self).callbacks@,
                forall|x: int|
                    old(self).callbacks@.len() <= x < self.callbacks@.len() ==> (
                    #[trigger] self.callbacks@[x]).state is Waiting && self.callbacks@[x].token
                        == old(self).next_token + (x - old(self).callbacks@.len()),
                self.next_token == old(self).next_token + (self.callbacks@.len() - old(self).callbacks@.len()),
                self.receivers == old(self).receivers,
                self.client_id == old(self).client_id,
                self.flags == old(self).flags,
            decreases reqs@.len(),
        {
            let rq = reqs.remove(0);
            if self.next_token < u64::MAX {
                let t = self.next_token;
                self.callbacks.push(Slot { token: t, request: rq, state: SlotState::Waiting });
                self.next_token = self.next_token + 1;
                proof {
                    assert(self.callbacks@.take(old(self).callbacks@.len() as int) =~= old(self).callbacks@);
                }
            }
        }
    }

    /// The tick: runs one pass of the native layer's pending callbacks.
    ///
    /// When the native session is not running, the pass fails with
    /// [`Error::NotRunning`]: no event is produced and no pending operation
    /// is touched. Otherwise the pass, in order: routes every delivered
    /// event to the queue of its kind; marks the slot each completion names
    /// ready; and scans the table once by index with a live length check,
    /// removing every ready slot, decoding it under its request's shape, and
    /// handing the resolution to the handler — exactly once per resolved
    /// operation, in table order. Requests the handler issues during the
    /// scan are appended behind the surviving slots, under consecutive fresh
    /// tokens, and stay waiting for a later tick: the scan never revisits,
    /// skips or loses an entry while the table grows under it.
    ///
    /// The returned resolutions are what the handler saw, in the same order.
    pub fn run_callbacks<H: CompletionHandler>(
        &mut self,
        tick: NativeTick,
        handler: &mut H,
    ) -> (r: Result<Vec<Resolution>, Error>)
        requires
            old(self).wf(),
            tick.running ==> completions_valid(old(self).pending(), tick.completions@),
        ensures
            final(self).wf(),
            !tick.running ==> r == Err::<Vec<Resolution>, Error>(Error::NotRunning) && *final(self)
                == *old(self),
            tick.running ==> ({
                let marked = mark_all(old(self).pending(), tick.completions@);
                let kept = waiting_of(marked);
                &&& r is Ok
                &&& r->Ok_0@ == resolutions_of(marked)
                &&& kept.len() <= final(self).pending().len()
                &&& final(self).pending().take(kept.len() as int) == kept
                &&& forall|x: int|
                    kept.len() <= x < final(self).pending().len() ==> (#[trigger] final(self).pending()[x]).state is Waiting && final(self).pending()[x].token == old(self).token_counter() + (x - kept.len())
                &&& final(self).token_counter() == old(self).token_counter() + (final(self).pending().len() - kept.len())
                &&& forall|k: EventKind| #[trigger]
                    final(self).events(k) == old(self).events(k) + events_of_kind(tick.events@, k)
                &&& final(self).spec_client_id() == old(self).spec_client_id()
                &&& final(self).spec_create_flags() == old(self).spec_create_flags()
            }),
    {
        if !tick.running {
            return Err(Error::NotRunning);
        }
        let NativeTick { running: _, events, completions } = tick;
        let mut events = events;
        let mut completions = completions;

        // Route the delivered events, in delivery order.
        let ghost evs = tick.events@;
        let ghost rcv0 = self.receivers;
        let ghost mut j1: int = 0;
        while events.len() > 0
            invariant
                rcv0 == old(self).receivers,
                rcv0.wf(),
                self.receivers.wf(),
                0 <= j1 <= evs.len(),
                events@ == evs.skip(j1),
                forall|k: EventKind| #[trigger]
                    self.receivers.queue(k) == rcv0.queue(k) + events_of_kind(evs.take(j1), k),
                self.callbacks@ == old(self).callbacks@,
                self.next_token == old(self).next_token,
                self.client_id == old(self).client_id,
                self.flags == old(self).flags,
            decreases events@.len(),
        {
            let e = events.remove(0);
            proof {
                assert(e == evs[j1]);
            }
            let ghost pre = self.receivers;
            self.receivers.push(e);
            proof {
                j1 = j1 + 1;
                assert(events@ =~= evs.skip(j1));
                assert(evs.take(j1).drop_last() =~= evs.take(j1 - 1));
                assert(evs.take(j1).last() == evs[j1 - 1]);
                assert forall|k: EventKind| #[trigger]
                    self.receivers.queue(k) == rcv0.queue(k) + events_of_kind(
                        evs.take(j1),
                        k,
                    ) by {
                    if k == kind_of(e) {
                        assert(self.receivers.queue(k) == pre.queue(k).push(e));
                        assert(events_of_kind(evs.take(j1), k) == events_of_kind(
                            evs.take(j1 - 1),
                            k,
                        ).push(e));
                        assert(rcv0.queue(k) + events_of_kind(evs.take(j1), k) =~= (rcv0.queue(k)
                            + events_of_kind(evs.take(j1 - 1), k)).push(e));
                    } else {
                        assert(self.receivers.queue(k) == pre.queue(k));
                    }
                }
            }
        }
        proof {
            assert(j1 == evs.len());
            assert(evs.take(j1) =~= evs);
        }
        let ghost rcv1 = self.receivers;

        // Mark the slot each completion names, in report order.
        let ghost cs = tick.completions@;
        let ghost table0 = self.callbacks@;
        let ghost mut j2: int = 0;
        while completions.len() > 0
            invariant
                table0 == old(self).callbacks@,
                tokens_distinct(table0),
                all_waiting(table0),
                completions_valid(table0, cs),
                0 <= j2 <= cs.len(),
                completions@ == cs.skip(j2),
                self.callbacks@ == mark_all(table0, cs.take(j2)),
                self.receivers == rcv1,
                self.next_token == old(self).next_token,
                self.client_id == old(self).client_id,
                self.flags == old(self).flags,
            decreases completions@.len(),
        {
            let c = completions.remove(0);
            let ghost pre = self.callbacks@;
            proof {
                assert(c == cs[j2]);
                assert(completions_valid(table0, cs.take(j2))) by {
                    assert(forall|x: int| 0 <= x < j2 ==> #[trigger] cs.take(j2)[x] == cs[x]);
                }
                lemma_mark_all(table0, cs.take(j2));
                assert(tokens_distinct(pre)) by {
                    assert(forall|x: int|
                        0 <= x < table0.len() ==> (#[trigger] pre[x]).token == table0[x].token);
                }
                assert(completion_valid(pre, c)) by {
                    assert(completion_valid(table0, c));
                    let i0 = slot_index(table0, c.token);
                    assert(0 <= i0 < table0.len() && table0[i0].token == c.token);
                    lemma_slot_index_unique(pre, c.token, i0);
                    assert(!has_completion(cs.take(j2), c.token)) by {
                        if has_completion(cs.take(j2), c.token) {
                            let w = choose|w: int|
                                0 <= w < cs.take(j2).len() && cs.take(j2)[w].token == c.token;
                            assert(cs[w].token == c.token);
                            assert(cs[w].token != cs[j2].token);
                        }
                    }
                    assert(pre[i0].state == table0[i0].state);
                    assert(pre[i0].request == table0[i0].request);
                }
            }
            mark_completion(&mut self.callbacks, c);
            proof {
                j2 = j2 + 1;
                assert(completions@ =~= cs.skip(j2));
                assert(cs.take(j2).drop_last() =~= cs.take(j2 - 1));
                assert(cs.take(j2).last() == cs[j2 - 1]);
            }
        }
        proof {
            assert(j2 == cs.len());
            assert(cs.take(j2) =~= cs);
        }

        // Scan the table once: resolve every ready slot exactly once, in
        // table order, tolerating growth from handler-issued requests.
        let ghost m = mark_all(table0, cs);
        let ghost tc0 = self.next_token;
        proof {
            lemma_mark_all(table0, cs);
            assert(tokens_distinct(m)) by {
                assert(forall|x: int|
                    0 <= x < table0.len() ==> (#[trigger] m[x]).token == table0[x].token);
            }
            assert(tokens_below(m, tc0)) by {
                assert(forall|x: int|
                    0 <= x < table0.len() ==> (#[trigger] m[x]).token == table0[x].token);
            }
            assert forall|x: int|
                0 <= x < m.len() && (#[trigger] m[x]).state is Ready implies payload_matches(
                shape_of(m[x].request),
                m[x].state->Ready_0,
                m[x].state->Ready_1,
            ) by {
                if has_completion(cs, m[x].token) {
                    let w = completion_index(cs, m[x].token);
                    assert(0 <= w < cs.len() && cs[w].token == table0[x].token);
                    assert(completion_valid(table0, cs[w]));
                    lemma_slot_index_unique(table0, cs[w].token, x);
                    assert(m[x].state == SlotState::Ready(cs[w].status, cs[w].payload));
                    assert(m[x].request == table0[x].request);
                } else {
                    assert(m[x].state == table0[x].state);
                }
            }
            lemma_waiting_of_tokens(m, tc0);
        }
        let mut out: Vec<Resolution> = Vec::new();
        let mut i: usize = 0;
        let ghost mut j3: int = 0;
        let ghost mut issued: Seq<Slot> = Seq::empty();
        while i < self.callbacks.len()
            invariant
                table0 == old(self).callbacks@,
                m == mark_all(table0, cs),
                tc0 == old(self).next_token,
                tokens_distinct(m),
                tokens_below(m, tc0),
                forall|x: int|
                    0 <= x < m.len() && (#[trigger] m[x]).state is Ready ==> payload_matches(
                        shape_of(m[x].request),
                        m[x].state->Ready_0,
                        m[x].state->Ready_1,
                    ),
                0 <= j3 <= m.len(),
                self.callbacks@ == waiting_of(m.take(j3)) + m.skip(j3) + issued,
                i as int >= waiting_of(m.take(j3)).len(),
                j3 < m.len() ==> i as int == waiting_of(m.take(j3)).len(),
                i as int <= self.callbacks@.len(),
                forall|y: int| 0 <= y < i ==> (#[trigger] self.callbacks@[y]).state is Waiting,
                forall|x: int|
                    0 <= x < issued.len() ==> (#[trigger] issued[x]).state is Waiting
                        && issued[x].token == tc0 + x,
                self.next_token == tc0 + issued.len(),
                out@ == resolutions_of(m.take(j3)),
                self.receivers == rcv1,
                self.receivers.wf(),
                self.client_id == old(self).client_id,
                self.flags == old(self).flags,
            decreases m.len() - j3, self.callbacks@.len() - i,
        {
            let ready = match &self.callbacks[i].state {
                SlotState::Ready(_, _) => true,
                SlotState::Waiting => false,
            };
            if ready {
                proof {
                    if j3 == m.len() {
                        lemma_waiting_of_tokens(m, tc0);
                        assert(m.skip(j3).len() == 0);
                        if (i as int) < waiting_of(m.take(j3)).len() {
                            assert(self.callbacks@[i as int] == waiting_of(m.take(j3))[i as int]);
                            assert(m.take(j3) =~= m);
                            assert(self.callbacks@[i as int].state is Waiting);
                        } else {
                            assert(self.callbacks@[i as int] == issued[i - waiting_of(
                                m.take(j3),
                            ).len()]);
                            assert(self.callbacks@[i as int].state is Waiting);
                        }
                        assert(false);
                    }
                    assert(i as int == waiting_of(m.take(j3)).len());
                    assert(m.skip(j3)[0] == m[j3]);
                    assert(self.callbacks@[i as int] == m[j3]);
                }
                let slot = self.callbacks.remove(i);
                proof {
                    assert(slot == m[j3]);
                    assert(self.callbacks@ =~= waiting_of(m.take(j3)) + m.skip(j3 + 1) + issued);
                }
                let res = decode(slot);
                let reqs = handler.on_complete(&res);
                out.push(res);
                proof {
                    j3 = j3 + 1;
                    assert(m.take(j3).drop_last() =~= m.take(j3 - 1));
                    assert(m.take(j3).last() == m[j3 - 1]);
                    assert(waiting_of(m.take(j3)) == waiting_of(m.take(j3 - 1)));
                    assert(out@ == resolutions_of(m.take(j3)));
                }
                let ghost prevlen = self.callbacks@.len() as int;
                let ghost prevtable = self.callbacks@;
                self.append_requests(reqs);
                proof {
                    issued = issued + self.callbacks@.skip(prevlen);
                    assert(self.callbacks@.take(prevlen) == prevtable);
                    assert(self.callbacks@ =~= self.callbacks@.take(prevlen) + self.callbacks@.skip(
                        prevlen,
                    ));
                    assert(self.callbacks@ =~= waiting_of(m.take(j3)) + m.skip(j3) + issued);
                    assert forall|x: int|
                        0 <= x < issued.len() implies (#[trigger] issued[x]).state is Waiting
                        && issued[x].token == tc0 + x by {
                        if x >= issued.len() - (self.callbacks@.len() - prevlen) {
                            let y = x - (issued.len() - (self.callbacks@.len() - prevlen));
                            assert(issued[x] == self.callbacks@[prevlen + y]);
                        }
                    }
                    assert forall|y: int|
                        0 <= y < i implies (#[trigger] self.callbacks@[y]).state is Waiting by {
                        assert(self.callbacks@[y] == prevtable[y]);
                    }
                }
            } else {
                proof {
                    if j3 < m.len() {
                        assert(m.skip(j3)[0] == m[j3]);
                        assert(self.callbacks@[i as int] == m[j3]);
                        assert(m[j3].state is Waiting);
                        j3 = j3 + 1;
                        assert(m.take(j3).drop_last() =~= m.take(j3 - 1));
                        assert(m.take(j3).last() == m[j3 - 1]);
                        assert(waiting_of(m.take(j3)) == waiting_of(m.take(j3 - 1)).push(m[j3 - 1]));
                        assert(out@ == resolutions_of(m.take(j3)));
                        assert(self.callbacks@ =~= waiting_of(m.take(j3)) + m.skip(j3) + issued);
                    }
                }
                i = i + 1;
            }
        }
        proof {
            if j3 < m.len() {
                assert(self.callbacks@.len() == waiting_of(m.take(j3)).len() + m.skip(j3).len()
                    + issued.len());
                assert(m.skip(j3).len() == m.len() - j3);
                assert(false);
            }
            assert(m.take(j3) =~= m);
            assert(self.callbacks@ == waiting_of(m) + issued);
            assert(out@ == resolutions_of(m));
            let kept = waiting_of(m);
            lemma_waiting_of_tokens(m, tc0);
            assert(self.callbacks@.take(kept.len() as int) =~= kept);
            assert(tokens_distinct(self.callbacks@)) by {
                assert forall|a: int, b: int|
                    0 <= a < b < self.callbacks@.len() implies self.callbacks@[a].token
                    != self.callbacks@[b].token by {
                    if b >= kept.len() {
                        assert(self.callbacks@[b] == issued[b - kept.len()]);
                        assert(self.callbacks@[b].token >= tc0);
                        if a >= kept.len() {
                            assert(self.callbacks@[a] == issued[a - kept.len()]);
                        } else {
                            assert(self.callbacks@[a] == kept[a]);
                            assert(self.callbacks@[a].token < tc0);
                        }
                    } else {
                        assert(self.callbacks@[a] == kept[a]);
                        assert(self.callbacks@[b] == kept[b]);
                    }
                }
            }
            assert(tokens_below(self.callbacks@, self.next_token)) by {
                assert forall|a: int|
                    0 <= a < self.callbacks@.len() implies (#[trigger] self.callbacks@[a]).token
                    < self.next_token by {
                    if a >= kept.len() {
                        assert(self.callbacks@[a] == issued[a - kept.len()]);
                    } else {
                        assert(self.callbacks@[a] == kept[a]);
                        assert(self.callbacks@[a].token < tc0);
                    }
                }
            }
            assert(all_waiting(self.callbacks@)) by {
                assert forall|a: int|
                    0 <= a < self.callbacks@.len() implies (#[trigger] self.callbacks@[a]).state
                    is Waiting by {
                    if a >= kept.len() {
                        assert(self.callbacks@[a] == issued[a - kept.len()]);
                    } else {
                        assert(self.callbacks@[a] == kept[a]);
                    }
                }
            }
            assert forall|x: int|
                kept.len() <= x < self.callbacks@.len() implies (
            #[trigger] self.callbacks@[x]).state is Waiting && self.callbacks@[x].token == tc0 + (
            x - kept.len()) by {
                assert(self.callbacks@[x] == issued[x - kept.len()]);
            }
        }
        Ok(out)
    }
}


/// The position of the slot a completion token names.
fn find_token(v: &Vec<Slot>, t: u64) -> (r: usize)
    requires
        tokens_distinct(v@),
        has_token(v@, t),
    ensures
        r < v@.len(),
        v@[r as int].token == t,
        r == slot_index(v@, t),
{
    let mut x: usize = 0;
    while x < v.len()
        invariant
            tokens_distinct(v@),
            has_token(v@, t),
            x <= v@.len(),
            forall|y: int| 0 <= y < x ==> v@[y].token != t,
        decreases v@.len() - x,
    {
        if v[x].token == t {
            proof {
                lemma_slot_index_unique(v@, t, x as int);
            }
            return x;
        }
        x = x + 1;
    }
    proof {
        let w = slot_index(v@, t);
        assert(0 <= w < v@.len() && v@[w].token == t);
        assert(false);
    }
    0
}

/// The completion trampoline's safe half: marks the named waiting slot
/// ready with the reported status and payload.
fn mark_completion(v: &mut Vec<Slot>, c: Completion)
    requires
        tokens_distinct(old(v)@),
        completion_valid(old(v)@, c),
    ensures
        final(v)@ == mark_one(old(v)@, c),
{
    let Completion { token, status, payload } = c;
    let idx = find_token(v, token);
    let s0 = v.remove(idx);
    v.insert(idx, Slot { state: SlotState::Ready(status, payload), ..s0 });
    proof {
        assert(v@ =~= old(v)@.update(
            idx as int,
            (Slot { state: SlotState::Ready(status, payload), ..old(v)@[idx as int] }),
        ));
    }
}

} // verus!
