//! The pending-operation table: one slot per issued asynchronous call.
//!
//! Every asynchronous native entry point takes a completion pointer and a
//! context pointer. The dispatch facade records one [`Slot`] per issued call;
//! the native layer later reports the call's result, which marks the slot
//! ready ([`SlotState::Ready`]); the next tick's scan removes each ready slot
//! and decodes it into a [`Resolution`], exactly once. Two decoding shapes
//! exist: a bare status code, and a status code with a copied native object.

use vstd::prelude::*;
use crate::data::Lobby;
use crate::data::User;
use crate::error::Error;
use crate::error::error_of_status;
use crate::error::spec_status_to_result;
use crate::error::status_to_result;
use crate::transaction::NativeLobbyTransaction;
use crate::transaction::NativeMemberTransaction;
use crate::transaction::NativeSearchQuery;

verus! {

/// What an issued asynchronous call asked the native layer to do: the request
/// content exactly as it was handed across the boundary.
#[derive(Debug, Clone, PartialEq, Eq)]
pub enum Request {
    /// Create a lobby from a populated transaction.
    CreateLobby(NativeLobbyTransaction),
    /// Update the lobby from a populated transaction.
    UpdateLobby(i64, NativeLobbyTransaction),
    /// Delete the lobby.
    DeleteLobby(i64),
    /// Connect to the lobby with its secret.
    ConnectLobby(i64, String),
    /// Connect to the lobby named by a combined activity secret.
    ConnectLobbyWithActivitySecret(String),
    /// Disconnect from the lobby.
    DisconnectLobby(i64),
    /// Update a member from a populated member transaction.
    UpdateMember(i64, i64, NativeMemberTransaction),
    /// Post a message to the lobby.
    SendLobbyMessage(i64, Vec<u8>),
    /// Search lobbies with a populated query.
    LobbySearch(NativeSearchQuery),
    /// Join the lobby's voice channel.
    ConnectLobbyVoice(i64),
    /// Leave the lobby's voice channel.
    DisconnectLobbyVoice(i64),
    /// Fetch a user record.
    GetUser(i64),
}

/// The two decoding shapes, plus which object a status-with-pointer call
/// copies: a bare status code, or a status code with a populated native
/// object of the named sort.
#[derive(Debug, Clone, Copy, PartialEq, Eq, Structural)]
pub enum Shape {
    StatusOnly,
    StatusLobby,
    StatusUser,
    StatusLobbyIds,
}

/// The decoding shape a request's completion uses.
pub open spec fn shape_of(r: Request) -> Shape {
    match r {
        Request::CreateLobby(_) => Shape::StatusLobby,
        Request::UpdateLobby(_, _) => Shape::StatusOnly,
        Request::DeleteLobby(_) => Shape::StatusOnly,
        Request::ConnectLobby(_, _) => Shape::StatusLobby,
        Request::ConnectLobbyWithActivitySecret(_) => Shape::StatusLobby,
        Request::DisconnectLobby(_) => Shape::StatusOnly,
        Request::UpdateMember(_, _, _) => Shape::StatusOnly,
        Request::SendLobbyMessage(_, _) => Shape::StatusOnly,
        Request::LobbySearch(_) => Shape::StatusLobbyIds,
        Request::ConnectLobbyVoice(_) => Shape::StatusOnly,
        Request::DisconnectLobbyVoice(_) => Shape::StatusOnly,
        Request::GetUser(_) => Shape::StatusUser,
    }
}

impl Request {
    /// The decoding shape this request's completion uses.
    pub fn shape(&self) -> (s: Shape)
        ensures
            s == shape_of(*self),
    {
        match self {
            Request::CreateLobby(_) => Shape::StatusLobby,
            Request::UpdateLobby(_, _) => Shape::StatusOnly,
            Request::DeleteLobby(_) => Shape::StatusOnly,
            Request::ConnectLobby(_, _) => Shape::StatusLobby,
            Request::ConnectLobbyWithActivitySecret(_) => Shape::StatusLobby,
            Request::DisconnectLobby(_) => Shape::StatusOnly,
            Request::UpdateMember(_, _, _) => Shape::StatusOnly,
            Request::SendLobbyMessage(_, _) => Shape::StatusOnly,
            Request::LobbySearch(_) => Shape::StatusLobbyIds,
            Request::ConnectLobbyVoice(_) => Shape::StatusOnly,
            Request::DisconnectLobbyVoice(_) => Shape::StatusOnly,
            Request::GetUser(_) => Shape::StatusUser,
        }
    }
}

/// The object a completion callback copied out of the native layer, if any.
/// On failure, and for status-only shapes, there is nothing to copy.
#[derive(Debug, Clone, PartialEq, Eq)]
pub enum Payload {
    /// No object came with the status.
    Empty,
    /// A copied lobby record.
    Lobby(Lobby),
    /// A copied user record.
    User(User),
    /// The lobby identifiers a finished search can enumerate.
    LobbyIds(Vec<i64>),
}

/// One native completion report: which pending operation it answers, the
/// status code, and the copied object if the call succeeded.
#[derive(Debug, Clone, PartialEq, Eq)]
pub struct Completion {
    pub token: u64,
    pub status: u32,
    pub payload: Payload,
}

/// Whether a pending operation still waits or has been marked ready by its
/// completion trampoline.
#[derive(Debug, Clone, PartialEq, Eq)]
pub enum SlotState {
    /// No completion has arrived.
    Waiting,
    /// The completion arrived with this status and payload; the next scan
    /// resolves the slot.
    Ready(u32, Payload),
}

/// One entry of the pending-operation table.
#[derive(Debug, Clone, PartialEq, Eq)]
pub struct Slot {
    /// The identity the completion names; unique for the session's lifetime.
    pub token: u64,
    /// What was asked of the native layer.
    pub request: Request,
    /// Whether the completion has arrived.
    pub state: SlotState,
}

/// The payload fits the shape: a successful status carries the shape's
/// object, a failing status carries nothing.
pub open spec fn payload_matches(sh: Shape, status: u32, p: Payload) -> bool {
    if status == 0 {
        match sh {
            Shape::StatusOnly => p is Empty,
            Shape::StatusLobby => p is Lobby,
            Shape::StatusUser => p is User,
            Shape::StatusLobbyIds => p is LobbyIds,
        }
    } else {
        p is Empty
    }
}

/// A resolved operation's typed result, one variant per decoding shape.
#[derive(Debug, PartialEq, Eq)]
pub enum Outcome {
    /// A status-only operation: success or a typed error.
    Unit(Result<(), Error>),
    /// An operation that copies a lobby on success.
    Lobby(Result<Lobby, Error>),
    /// An operation that copies a user on success.
    User(Result<User, Error>),
    /// A search: the matching lobby identifiers on success.
    LobbyIds(Result<Vec<i64>, Error>),
}

/// One resolved operation: the token it was issued under and its decoded
/// result. Each issued operation resolves exactly once.
#[derive(Debug, PartialEq, Eq)]
pub struct Resolution {
    pub token: u64,
    pub outcome: Outcome,
}

/// How a status and payload decode under a shape.
pub open spec fn decode_spec(sh: Shape, status: u32, p: Payload) -> Outcome {
    match sh {
        Shape::StatusOnly => Outcome::Unit(spec_status_to_result(status)),
        Shape::StatusLobby => Outcome::Lobby(
            if status == 0 {
                Ok(p->Lobby_0)
            } else {
                Err(error_of_status(status))
            },
        ),
        Shape::StatusUser => Outcome::User(
            if status == 0 {
                Ok(p->User_0)
            } else {
                Err(error_of_status(status))
            },
        ),
        Shape::StatusLobbyIds => Outcome::LobbyIds(
            if status == 0 {
                Ok(p->LobbyIds_0)
            } else {
                Err(error_of_status(status))
            },
        ),
    }
}

/// The resolution a ready slot decodes to.
pub open spec fn resolution_of(sl: Slot) -> Resolution {
    Resolution {
        token: sl.token,
        outcome: decode_spec(shape_of(sl.request), sl.state->Ready_0, sl.state->Ready_1),
    }
}

/// Decodes a ready slot: success hands the copied object out, failure hands
/// the status's error out, under the slot's own shape.
pub fn decode(sl: Slot) -> (r: Resolution)
    requires
        sl.state is Ready,
        payload_matches(shape_of(sl.request), sl.state->Ready_0, sl.state->Ready_1),
    ensures
        r == resolution_of(sl),
{
    let token = sl.token;
    let shape = sl.request.shape();
    match sl.state {
        SlotState::Ready(status, payload) => {
            let outcome = match shape {
                Shape::StatusOnly => Outcome::Unit(status_to_result(status)),
                Shape::StatusLobby => Outcome::Lobby(
                    match status_to_result(status) {
                        Ok(_) => match payload {
                            Payload::Lobby(l) => Ok(l),
                            _ => {
                                proof {
                                    assert(false);
                                }
                                Err(Error::InternalError)
                            },
                        },
                        Err(e) => Err(e),
                    },
                ),
                Shape::StatusUser => Outcome::User(
                    match status_to_result(status) {
                        Ok(_) => match payload {
                            Payload::User(u) => Ok(u),
                            _ => {
                                proof {
                                    assert(false);
                                }
                                Err(Error::InternalError)
                            },
                        },
                        Err(e) => Err(e),
                    },
                ),
                Shape::StatusLobbyIds => Outcome::LobbyIds(
                    match status_to_result(status) {
                        Ok(_) => match payload {
                            Payload::LobbyIds(ids) => Ok(ids),
                            _ => {
                                proof {
                                    assert(false);
                                }
                                Err(Error::InternalError)
                            },
                        },
                        Err(e) => Err(e),
                    },
                ),
            };
            Resolution { token, outcome }
        },
        SlotState::Waiting => {
            proof {
                assert(false);
            }
            Resolution { token, outcome: Outcome::Unit(Err(Error::InternalError)) }
        },
    }
}

// --- spec functions over the table ---

/// No two slots share a token.
pub open spec fn tokens_distinct(s: Seq<Slot>) -> bool {
    forall|i: int, j: int| 0 <= i < j < s.len() ==> s[i].token != s[j].token
}

/// Every slot's token is below the counter.
pub open spec fn tokens_below(s: Seq<Slot>, n: u64) -> bool {
    forall|i: int| 0 <= i < s.len() ==> (#[trigger] s[i]).token < n
}

/// Some slot carries this token.
pub open spec fn has_token(s: Seq<Slot>, t: u64) -> bool {
    exists|i: int| 0 <= i < s.len() && s[i].token == t
}

/// The position of the slot carrying this token.
pub open spec fn slot_index(s: Seq<Slot>, t: u64) -> int {
    choose|i: int| 0 <= i < s.len() && s[i].token == t
}

/// With distinct tokens, a slot's position is the one `slot_index` picks.
pub proof fn lemma_slot_index_unique(s: Seq<Slot>, t: u64, i: int)
    requires
        tokens_distinct(s),
        0 <= i < s.len(),
        s[i].token == t,
    ensures
        has_token(s, t),
        slot_index(s, t) == i,
{
    assert(has_token(s, t));
    let j = slot_index(s, t);
    assert(0 <= j < s.len() && s[j].token == t);
    if i < j {
        assert(s[i].token != s[j].token);
    } else if j < i {
        assert(s[j].token != s[i].token);
    }
}

/// A completion answers a waiting slot of the table, with a payload that
/// fits the slot's shape. Anything else is a bridging fault the boundary
/// never produces.
pub open spec fn completion_valid(s: Seq<Slot>, c: Completion) -> bool {
    &&& has_token(s, c.token)
    &&& s[slot_index(s, c.token)].state is Waiting
    &&& payload_matches(shape_of(s[slot_index(s, c.token)].request), c.status, c.payload)
}

/// Every listed completion answers a distinct waiting slot of the table.
pub open spec fn completions_valid(s: Seq<Slot>, cs: Seq<Completion>) -> bool {
    &&& forall|i: int| 0 <= i < cs.len() ==> completion_valid(s, #[trigger] cs[i])
    &&& forall|i: int, j: int| 0 <= i < j < cs.len() ==> cs[i].token != cs[j].token
}

/// The table after one completion marks its slot ready.
pub open spec fn mark_one(s: Seq<Slot>, c: Completion) -> Seq<Slot> {
    s.update(
        slot_index(s, c.token),
        Slot { state: SlotState::Ready(c.status, c.payload), ..s[slot_index(s, c.token)] },
    )
}

/// The table after every listed completion marks its slot, in report order.
pub open spec fn mark_all(s: Seq<Slot>, cs: Seq<Completion>) -> Seq<Slot>
    decreases cs.len(),
{
    if cs.len() == 0 {
        s
    } else {
        mark_one(mark_all(s, cs.drop_last()), cs.last())
    }
}

/// Some completion answers this token.
pub open spec fn has_completion(cs: Seq<Completion>, t: u64) -> bool {
    exists|i: int| 0 <= i < cs.len() && cs[i].token == t
}

/// The position of the completion answering this token.
pub open spec fn completion_index(cs: Seq<Completion>, t: u64) -> int {
    choose|i: int| 0 <= i < cs.len() && cs[i].token == t
}

/// With distinct tokens, a completion's position is the one
/// `completion_index` picks.
pub proof fn lemma_completion_index_unique(cs: Seq<Completion>, t: u64, i: int)
    requires
        forall|a: int, b: int| 0 <= a < b < cs.len() ==> cs[a].token != cs[b].token,
        0 <= i < cs.len(),
        cs[i].token == t,
    ensures
        has_completion(cs, t),
        completion_index(cs, t) == i,
{
    assert(has_completion(cs, t));
    let j = completion_index(cs, t);
    assert(0 <= j < cs.len() && cs[j].token == t);
    if i < j {
        assert(cs[i].token != cs[j].token);
    } else if j < i {
        assert(cs[j].token != cs[i].token);
    }
}

/// Marking never moves, adds or removes slots and never touches a slot no
/// completion names: it only turns each named waiting slot ready with its
/// completion's status and payload.
pub proof fn lemma_mark_all(s: Seq<Slot>, cs: Seq<Completion>)
    requires
        tokens_distinct(s),
        completions_valid(s, cs),
    ensures
        mark_all(s, cs).len() == s.len(),
        forall|i: int|
            0 <= i < s.len() ==> (#[trigger] mark_all(s, cs)[i]).token == s[i].token && mark_all(
                s,
                cs,
            )[i].request == s[i].request,
        forall|i: int|
            0 <= i < s.len() && !has_completion(cs, s[i].token) ==> (#[trigger] mark_all(
                s,
                cs,
            )[i]).state == s[i].state,
        forall|i: int|
            0 <= i < s.len() && has_completion(cs, s[i].token) ==> (#[trigger] mark_all(
                s,
                cs,
            )[i]).state == SlotState::Ready(
                cs[completion_index(cs, s[i].token)].status,
                cs[completion_index(cs, s[i].token)].payload,
            ),
    decreases cs.len(),
{
    if cs.len() > 0 {
        let cs0 = cs.drop_last();
        let c = cs.last();
        assert(completions_valid(s, cs0)) by {
            assert(forall|i: int| 0 <= i < cs0.len() ==> cs0[i] == cs[i]);
        }
        lemma_mark_all(s, cs0);
        let m0 = mark_all(s, cs0);
        assert(tokens_distinct(m0)) by {
            assert(forall|i: int| 0 <= i < s.len() ==> (#[trigger] m0[i]).token == s[i].token);
        }
        let ic = slot_index(s, c.token);
        assert(completion_valid(s, c));
        assert(0 <= ic < s.len() && s[ic].token == c.token);
        lemma_slot_index_unique(m0, c.token, ic);
        assert(mark_all(s, cs) == mark_one(m0, c));
        assert forall|i: int|
            0 <= i < s.len() && has_completion(cs, s[i].token) implies (#[trigger] mark_all(
            s,
            cs,
        )[i]).state == SlotState::Ready(
            cs[completion_index(cs, s[i].token)].status,
            cs[completion_index(cs, s[i].token)].payload,
        ) by {
            let t = s[i].token;
            if i == ic {
                lemma_completion_index_unique(cs, t, cs.len() - 1);
            } else {
                let k = choose|k: int| 0 <= k < cs.len() && cs[k].token == t;
                assert(cs[k].token == t);
                if k == cs.len() - 1 {
                    assert(c.token == t);
                    lemma_slot_index_unique(s, t, i);
                    assert(false);
                } else {
                    assert(cs0[k] == cs[k]);
                    assert(has_completion(cs0, t));
                    lemma_completion_index_unique(cs, t, k);
                    lemma_completion_index_unique(cs0, t, k);
                }
            }
        }
        assert forall|i: int|
            0 <= i < s.len() && !has_completion(cs, s[i].token) implies (#[trigger] mark_all(
            s,
            cs,
        )[i]).state == s[i].state by {
            if i == ic {
                assert(cs[cs.len() - 1].token == s[i].token);
            } else {
                assert(!has_completion(cs0, s[i].token)) by {
                    if has_completion(cs0, s[i].token) {
                        let k = completion_index(cs0, s[i].token);
                        assert(cs[k] == cs0[k]);
                    }
                }
            }
        }
    }
}

// --- the scan's view of the table ---

/// The slots still waiting, in table order.
pub open spec fn waiting_of(s: Seq<Slot>) -> Seq<Slot>
    decreases s.len(),
{
    if s.len() == 0 {
        Seq::empty()
    } else if s.last().state is Waiting {
        waiting_of(s.drop_last()).push(s.last())
    } else {
        waiting_of(s.drop_last())
    }
}

/// The decoded resolutions of the ready slots, in table order.
pub open spec fn resolutions_of(s: Seq<Slot>) -> Seq<Resolution>
    decreases s.len(),
{
    if s.len() == 0 {
        Seq::empty()
    } else if s.last().state is Ready {
        resolutions_of(s.drop_last()).push(resolution_of(s.last()))
    } else {
        resolutions_of(s.drop_last())
    }
}

/// Keeping only the waiting slots keeps the tokens distinct and below any
/// bound they were below.
pub proof fn lemma_waiting_of_tokens(s: Seq<Slot>, n: u64)
    requires
        tokens_distinct(s),
        tokens_below(s, n),
    ensures
        tokens_distinct(waiting_of(s)),
        tokens_below(waiting_of(s), n),
        forall|i: int|
            0 <= i < waiting_of(s).len() ==> (#[trigger] waiting_of(s)[i]).state is Waiting
                && has_token(s, waiting_of(s)[i].token),
    decreases s.len(),
{
    if s.len() > 0 {
        let s0 = s.drop_last();
        assert(tokens_distinct(s0) && tokens_below(s0, n)) by {
            assert(forall|i: int| 0 <= i < s0.len() ==> s0[i] == s[i]);
        }
        lemma_waiting_of_tokens(s0, n);
        assert(forall|t: u64| has_token(s0, t) ==> has_token(s, t)) by {
            assert(forall|i: int| 0 <= i < s0.len() ==> s0[i] == s[i]);
        }
        if s.last().state is Waiting {
            let w0 = waiting_of(s0);
            assert(waiting_of(s) == w0.push(s.last()));
            assert(tokens_distinct(waiting_of(s))) by {
                assert forall|i: int, j: int|
                    0 <= i < j < waiting_of(s).len() implies waiting_of(s)[i].token != waiting_of(
                    s,
                )[j].token by {
                    if j == w0.len() {
                        let t = w0[i].token;
                        assert(has_token(s0, t));
                        let k = slot_index(s0, t);
                        assert(s[k].token == t);
                        assert(s[k].token != s[s.len() - 1].token);
                    }
                }
            }
        }
    }
}


/// Every slot still waits; between ticks the scan has removed every ready
/// slot, so this holds of the table an application ever sees.
pub open spec fn all_waiting(s: Seq<Slot>) -> bool {
    forall|i: int| 0 <= i < s.len() ==> (#[trigger] s[i]).state is Waiting
}


/// A table whose slots are all ready has nothing waiting and resolves
/// pointwise, in table order.
proof fn lemma_all_ready(m: Seq<Slot>)
    requires
        forall|i: int| 0 <= i < m.len() ==> (#[trigger] m[i]).state is Ready,
    ensures
        waiting_of(m) == Seq::<Slot>::empty(),
        resolutions_of(m).len() == m.len(),
        forall|i: int| 0 <= i < m.len() ==> resolutions_of(m)[i] == resolution_of(#[trigger] m[i]),
    decreases m.len(),
{
    if m.len() > 0 {
        let m0 = m.drop_last();
        assert(forall|i: int| 0 <= i < m0.len() ==> (#[trigger] m0[i]).state is Ready) by {
            assert(forall|i: int| 0 <= i < m0.len() ==> #[trigger] m0[i] == m[i]);
        }
        lemma_all_ready(m0);
        assert(resolutions_of(m) == resolutions_of(m0).push(resolution_of(m.last())));
        assert forall|i: int|
            0 <= i < m.len() implies resolutions_of(m)[i] == resolution_of(#[trigger] m[i]) by {
            if i < m.len() - 1 {
                assert(m0[i] == m[i]);
                assert(resolutions_of(m)[i] == resolutions_of(m0)[i]);
                assert(resolutions_of(m0)[i] == resolution_of(m0[i]));
            } else {
                assert(resolutions_of(m)[i] == resolution_of(m.last()));
            }
        }
    }
}

/// Law: one tick that reports a completion for every waiting operation
/// resolves every operation exactly once. After the completions are marked,
/// no slot still waits, and the scan's resolutions carry the slots in table
/// order, one per operation, each decoded under its own request's shape
/// from its own completion's status and payload.
pub proof fn lemma_all_resolved(s: Seq<Slot>, cs: Seq<Completion>)
    requires
        tokens_distinct(s),
        all_waiting(s),
        completions_valid(s, cs),
        forall|i: int| 0 <= i < s.len() ==> has_completion(cs, (#[trigger] s[i]).token),
    ensures
        waiting_of(mark_all(s, cs)) == Seq::<Slot>::empty(),
        resolutions_of(mark_all(s, cs)).len() == s.len(),
        forall|i: int|
            0 <= i < s.len() ==> (#[trigger] resolutions_of(mark_all(s, cs))[i]).token
                == s[i].token && resolutions_of(mark_all(s, cs))[i].outcome == decode_spec(
                shape_of(s[i].request),
                cs[completion_index(cs, s[i].token)].status,
                cs[completion_index(cs, s[i].token)].payload,
            ),
{
    lemma_mark_all(s, cs);
    let m = mark_all(s, cs);
    assert(forall|i: int| 0 <= i < m.len() ==> (#[trigger] m[i]).state is Ready);
    lemma_all_ready(m);
    assert forall|i: int|
        0 <= i < s.len() implies (#[trigger] resolutions_of(m)[i]).token == s[i].token
        && resolutions_of(m)[i].outcome == decode_spec(
        shape_of(s[i].request),
        cs[completion_index(cs, s[i].token)].status,
        cs[completion_index(cs, s[i].token)].payload,
    ) by {
        assert(resolutions_of(m)[i] == resolution_of(m[i]));
        assert(m[i].token == s[i].token);
        assert(m[i].request == s[i].request);
        assert(has_completion(cs, s[i].token));
        assert(m[i].state == SlotState::Ready(
            cs[completion_index(cs, s[i].token)].status,
            cs[completion_index(cs, s[i].token)].payload,
        ));
    }
}

/// Law: draining the pending-operation table when it is empty is a no-op.
/// No completion can validly name an empty table, nothing is marked ready,
/// nothing resolves, and nothing remains.
pub proof fn lemma_empty_drain(cs: Seq<Completion>)
    requires
        completions_valid(Seq::<Slot>::empty(), cs),
    ensures
        cs.len() == 0,
        mark_all(Seq::<Slot>::empty(), cs) == Seq::<Slot>::empty(),
        waiting_of(mark_all(Seq::<Slot>::empty(), cs)) == Seq::<Slot>::empty(),
        resolutions_of(mark_all(Seq::<Slot>::empty(), cs)) == Seq::<Resolution>::empty(),
{
    if cs.len() > 0 {
        assert(completion_valid(Seq::<Slot>::empty(), cs[0]));
        assert(false);
    }
}

} // verus!
