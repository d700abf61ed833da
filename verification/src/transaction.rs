//! Transaction builders: replay logs of deferred field mutations.
//!
//! A builder is a plain value that records field-set intents while no native
//! resource exists. `process` replays the recorded list, in insertion order,
//! against a freshly acquired native transaction; the first mutation whose
//! value cannot be encoded for the native fixed-size representation halts the
//! replay and returns its error, leaving the transaction partially populated.
//! The builder itself owns no native resource, so the same recorded list can
//! be replayed against any number of fresh transactions.

use vstd::prelude::*;
use crate::error::Error;

verus! {

/// Whether a lobby is discoverable by search.
#[derive(Debug, Clone, Copy, PartialEq, Eq, Structural)]
pub enum LobbyKind {
    Private,
    Public,
}

/// The comparison a search filter applies.
#[derive(Debug, Clone, Copy, PartialEq, Eq, Structural)]
pub enum Comparison {
    LessThanOrEqual,
    LessThan,
    Equal,
    GreaterThan,
    GreaterThanOrEqual,
    NotEqual,
}

/// How a search filter or sort reads the stored value.
#[derive(Debug, Clone, Copy, PartialEq, Eq, Structural)]
pub enum Cast {
    Text,
    Number,
}

/// How far a lobby search reaches.
#[derive(Debug, Clone, Copy, PartialEq, Eq, Structural)]
pub enum Distance {
    Local,
    Standard,
    Extended,
    Global,
}

/// The largest metadata key the native fixed-size buffer holds.
pub const METADATA_KEY_CAPACITY: usize = 255;

/// The largest metadata value the native fixed-size buffer holds.
pub const METADATA_VALUE_CAPACITY: usize = 4095;

/// The largest secret the native fixed-size buffer holds.
pub const SECRET_CAPACITY: usize = 127;

/// A metadata key fits the native buffer.
pub open spec fn valid_key(k: Seq<char>) -> bool {
    k.len() <= METADATA_KEY_CAPACITY
}

/// A metadata value fits the native buffer.
pub open spec fn valid_value(v: Seq<char>) -> bool {
    v.len() <= METADATA_VALUE_CAPACITY
}

/// A secret fits the native buffer.
pub open spec fn valid_secret(s: Seq<char>) -> bool {
    s.len() <= SECRET_CAPACITY
}

/// Checks that a metadata key fits the native buffer.
pub fn check_key(k: &String) -> (b: bool)
    ensures
        b == valid_key(k@),
{
    k.as_str().unicode_len() <= METADATA_KEY_CAPACITY
}

/// Checks that a metadata value fits the native buffer.
pub fn check_value(v: &String) -> (b: bool)
    ensures
        b == valid_value(v@),
{
    v.as_str().unicode_len() <= METADATA_VALUE_CAPACITY
}

/// Checks that a secret fits the native buffer.
pub fn check_secret(s: &String) -> (b: bool)
    ensures
        b == valid_secret(s@),
{
    s.as_str().unicode_len() <= SECRET_CAPACITY
}

// --- metadata as an association list with distinct keys ---

/// Some entry carries this key.
pub open spec fn has_key(m: Seq<(String, String)>, k: Seq<char>) -> bool {
    exists|i: int| 0 <= i < m.len() && m[i].0@ == k
}

/// The position of the entry carrying this key.
pub open spec fn key_index(m: Seq<(String, String)>, k: Seq<char>) -> int {
    choose|i: int| 0 <= i < m.len() && m[i].0@ == k
}

/// No two entries carry the same key.
pub open spec fn keys_distinct(m: Seq<(String, String)>) -> bool {
    forall|i: int, j: int| 0 <= i < j < m.len() ==> m[i].0@ != m[j].0@
}

/// The list after a key is bound: the entry with that key is replaced, or a
/// new entry is appended.
pub open spec fn meta_set(m: Seq<(String, String)>, k: String, v: String) -> Seq<(String, String)> {
    if has_key(m, k@) {
        m.update(key_index(m, k@), (k, v))
    } else {
        m.push((k, v))
    }
}

/// The list after a key is unbound: the entry with that key is removed, or
/// the list is unchanged.
pub open spec fn meta_remove(m: Seq<(String, String)>, k: Seq<char>) -> Seq<(String, String)> {
    if has_key(m, k) {
        m.remove(key_index(m, k))
    } else {
        m
    }
}

/// With distinct keys, an entry's position is the one `key_index` picks.
pub proof fn lemma_key_index_unique(m: Seq<(String, String)>, k: Seq<char>, i: int)
    requires
        keys_distinct(m),
        0 <= i < m.len(),
        m[i].0@ == k,
    ensures
        has_key(m, k),
        key_index(m, k) == i,
{
    assert(has_key(m, k));
    let j = key_index(m, k);
    assert(0 <= j < m.len() && m[j].0@ == k);
    if i < j {
        assert(m[i].0@ != m[j].0@);
    } else if j < i {
        assert(m[j].0@ != m[i].0@);
    }
}

/// Binds a key in a distinct-key association list.
pub(crate) fn meta_set_exec(m: &mut Vec<(String, String)>, k: String, v: String)
    requires
        keys_distinct(old(m)@),
    ensures
        final(m)@ == meta_set(old(m)@, k, v),
        keys_distinct(final(m)@),
{
    let ghost orig = m@;
    let mut i: usize = 0;
    while i < m.len()
        invariant
            old(m)@ == orig,
            m@ == orig,
            keys_distinct(orig),
            i <= orig.len(),
            forall|j: int| 0 <= j < i ==> orig[j].0@ != k@,
        decreases m@.len() - i,
    {
        if m[i].0 == k {
            proof {
                lemma_key_index_unique(orig, k@, i as int);
            }
            let _ = m.remove(i);
            m.insert(i, (k, v));
            proof {
                assert(m@ =~= orig.update(i as int, (k, v)));
                assert(keys_distinct(m@)) by {
                    assert(forall|a: int, b: int|
                        0 <= a < b < m@.len() ==> m@[a].0@ != m@[b].0@) by {
                        assert(forall|a: int| 0 <= a < m@.len() && a != i
                            ==> #[trigger] m@[a].0@ == orig[a].0@);
                    }
                }
            }
            return ;
        }
        i = i + 1;
    }
    proof {
        assert(!has_key(orig, k@));
    }
    m.push((k, v));
    proof {
        assert(keys_distinct(m@)) by {
            assert(forall|a: int| 0 <= a < orig.len() ==> #[trigger] m@[a] == orig[a]);
        }
    }
}

/// Unbinds a key in a distinct-key association list.
fn meta_remove_exec(m: &mut Vec<(String, String)>, k: &String)
    requires
        keys_distinct(old(m)@),
    ensures
        final(m)@ == meta_remove(old(m)@, k@),
        keys_distinct(final(m)@),
{
    let ghost orig = m@;
    let mut i: usize = 0;
    while i < m.len()
        invariant
            old(m)@ == orig,
            m@ == orig,
            keys_distinct(orig),
            i <= orig.len(),
            forall|j: int| 0 <= j < i ==> orig[j].0@ != k@,
        decreases m@.len() - i,
    {
        if m[i].0 == *k {
            proof {
                lemma_key_index_unique(orig, k@, i as int);
            }
            let _ = m.remove(i);
            proof {
                assert(keys_distinct(m@)) by {
                    assert(forall|a: int| 0 <= a < m@.len()
                        ==> #[trigger] m@[a] == if a < i { orig[a] } else { orig[a + 1] });
                }
            }
            return ;
        }
        i = i + 1;
    }
    proof {
        assert(!has_key(orig, k@));
    }
}

// --- the lobby transaction ---

/// One recorded field-set intent of a lobby transaction.
#[derive(Debug, Clone, PartialEq, Eq)]
pub enum LobbyMutation {
    /// Make the lobby public or private.
    SetKind(LobbyKind),
    /// Hand the lobby to another owner.
    SetOwner(i64),
    /// Bound how many members the lobby takes.
    SetCapacity(u32),
    /// Bind one metadata key.
    SetMetadata(String, String),
    /// Unbind one metadata key.
    DeleteMetadata(String),
    /// Lock or unlock the lobby.
    SetLocked(bool),
}

/// A mutation's value can be encoded for the native fixed-size buffers.
pub open spec fn mutation_ok(m: LobbyMutation) -> bool {
    match m {
        LobbyMutation::SetMetadata(k, v) => valid_key(k@) && valid_value(v@),
        LobbyMutation::DeleteMetadata(k) => valid_key(k@),
        _ => true,
    }
}

/// The populated fields of a native lobby transaction. A value of this type
/// stands for the opaque native transaction handle, whose lifetime is scoped
/// to one `process` call; committing or discarding it belongs to the caller.
#[derive(Debug, Clone, PartialEq, Eq)]
pub struct NativeLobbyTransaction {
    kind: Option<LobbyKind>,
    owner: Option<i64>,
    capacity: Option<u32>,
    locked: Option<bool>,
    metadata: Vec<(String, String)>,
}

/// The abstract content of a native lobby transaction.
pub struct LobbyTxView {
    pub kind: Option<LobbyKind>,
    pub owner: Option<i64>,
    pub capacity: Option<u32>,
    pub locked: Option<bool>,
    pub metadata: Seq<(String, String)>,
}

impl LobbyTxView {
    /// The metadata keys are distinct, as the native map keeps them.
    pub open spec fn wf(self) -> bool {
        keys_distinct(self.metadata)
    }
}

impl View for NativeLobbyTransaction {
    type V = LobbyTxView;

    closed spec fn view(&self) -> LobbyTxView {
        LobbyTxView {
            kind: self.kind,
            owner: self.owner,
            capacity: self.capacity,
            locked: self.locked,
            metadata: self.metadata@,
        }
    }
}

impl NativeLobbyTransaction {
    /// A freshly acquired transaction: nothing populated yet.
    pub fn new() -> (r: NativeLobbyTransaction)
        ensures
            r@.wf(),
            r@ == fresh_lobby_view(),
    {
        NativeLobbyTransaction {
            kind: None,
            owner: None,
            capacity: None,
            locked: None,
            metadata: Vec::new(),
        }
    }

    /// The kind the replay recorded, if any.
    pub fn kind(&self) -> (r: Option<LobbyKind>)
        ensures
            r == self@.kind,
    {
        self.kind
    }

    /// The owner the replay recorded, if any.
    pub fn owner(&self) -> (r: Option<i64>)
        ensures
            r == self@.owner,
    {
        self.owner
    }

    /// The capacity the replay recorded, if any.
    pub fn capacity(&self) -> (r: Option<u32>)
        ensures
            r == self@.capacity,
    {
        self.capacity
    }

    /// The lock state the replay recorded, if any.
    pub fn locked(&self) -> (r: Option<bool>)
        ensures
            r == self@.locked,
    {
        self.locked
    }

    /// The metadata entries the replay recorded, in binding order.
    pub fn metadata(&self) -> (r: &Vec<(String, String)>)
        ensures
            r@ == self@.metadata,
    {
        &self.metadata
    }
}

/// The transaction content after one mutation is applied. Meaningful for a
/// mutation that encodes ([`mutation_ok`]); a failing one leaves the content
/// as it stands.
pub open spec fn apply_mutation(v: LobbyTxView, m: LobbyMutation) -> LobbyTxView {
    match m {
        LobbyMutation::SetKind(k) => LobbyTxView { kind: Some(k), ..v },
        LobbyMutation::SetOwner(o) => LobbyTxView { owner: Some(o), ..v },
        LobbyMutation::SetCapacity(c) => LobbyTxView { capacity: Some(c), ..v },
        LobbyMutation::SetMetadata(k, val) => (LobbyTxView {
            metadata: meta_set(v.metadata, k, val),
            ..v
        }),
        LobbyMutation::DeleteMetadata(k) => (LobbyTxView { metadata: meta_remove(v.metadata, k@), ..v }),
        LobbyMutation::SetLocked(b) => LobbyTxView { locked: Some(b), ..v },
    }
}

/// The transaction content after every listed mutation is applied in order.
pub open spec fn apply_all(v: LobbyTxView, ms: Seq<LobbyMutation>) -> LobbyTxView
    decreases ms.len(),
{
    if ms.len() == 0 {
        v
    } else {
        apply_mutation(apply_all(v, ms.drop_last()), ms.last())
    }
}

/// Every listed mutation encodes.
pub open spec fn all_ok(ms: Seq<LobbyMutation>) -> bool {
    forall|i: int| 0 <= i < ms.len() ==> mutation_ok(#[trigger] ms[i])
}

/// The position of the first mutation that does not encode.
pub open spec fn first_bad(ms: Seq<LobbyMutation>) -> int {
    choose|i: int|
        0 <= i < ms.len() && !mutation_ok(ms[i]) && (forall|j: int|
            0 <= j < i ==> mutation_ok(#[trigger] ms[j]))
}

/// A position whose predecessors all encode and which does not is the one
/// `first_bad` picks.
pub proof fn lemma_first_bad_unique(ms: Seq<LobbyMutation>, i: int)
    requires
        0 <= i < ms.len(),
        !mutation_ok(ms[i]),
        forall|j: int| 0 <= j < i ==> mutation_ok(#[trigger] ms[j]),
    ensures
        !all_ok(ms),
        first_bad(ms) == i,
{
    let k = first_bad(ms);
    assert(0 <= k < ms.len() && !mutation_ok(ms[k]) && (forall|j: int|
        0 <= j < k ==> mutation_ok(#[trigger] ms[j])));
}

/// Replaying distinct-key metadata keeps the keys distinct.
pub proof fn lemma_apply_all_wf(v: LobbyTxView, ms: Seq<LobbyMutation>)
    requires
        v.wf(),
        all_ok(ms),
    ensures
        apply_all(v, ms).wf(),
    decreases ms.len(),
{
    if ms.len() > 0 {
        assert(all_ok(ms.drop_last())) by {
            assert(forall|i: int|
                0 <= i < ms.len() - 1 ==> #[trigger] ms.drop_last()[i] == ms[i]);
        }
        lemma_apply_all_wf(v, ms.drop_last());
        let pre = apply_all(v, ms.drop_last());
        match ms.last() {
            LobbyMutation::SetMetadata(k, val) => {
                if has_key(pre.metadata, k@) {
                    let idx = key_index(pre.metadata, k@);
                    assert(keys_distinct(pre.metadata.update(idx, (k, val))));
                } else {
                    assert(keys_distinct(pre.metadata.push((k, val))));
                }
            },
            LobbyMutation::DeleteMetadata(k) => {
                if has_key(pre.metadata, k@) {
                    let idx = key_index(pre.metadata, k@);
                    let post = pre.metadata.remove(idx);
                    assert(keys_distinct(post)) by {
                        assert(forall|a: int| 0 <= a < post.len()
                            ==> #[trigger] post[a] == if a < idx {
                                pre.metadata[a]
                            } else {
                                pre.metadata[a + 1]
                            });
                    }
                }
            },
            _ => {},
        }
    }
}

/// A lobby transaction builder: the recorded mutation list, in insertion
/// order, and nothing else. It holds no native resource.
#[derive(Debug, Clone, PartialEq, Eq)]
pub struct LobbyTransaction {
    mutations: Vec<LobbyMutation>,
}

impl LobbyTransaction {
    /// The recorded mutations, in insertion order.
    pub closed spec fn mutations(&self) -> Seq<LobbyMutation> {
        self.mutations@
    }

    /// A builder with nothing recorded.
    pub fn new() -> (r: LobbyTransaction)
        ensures
            r.mutations() == Seq::<LobbyMutation>::empty(),
    {
        LobbyTransaction { mutations: Vec::new() }
    }

    /// Records making the lobby public or private.
    pub fn kind(&mut self, kind: LobbyKind)
        ensures
            final(self).mutations() == old(self).mutations().push(LobbyMutation::SetKind(kind)),
    {
        self.mutations.push(LobbyMutation::SetKind(kind));
    }

    /// Records handing the lobby to another owner.
    pub fn owner(&mut self, user_id: i64)
        ensures
            final(self).mutations() == old(self).mutations().push(LobbyMutation::SetOwner(user_id)),
    {
        self.mutations.push(LobbyMutation::SetOwner(user_id));
    }

    /// Records bounding how many members the lobby takes.
    pub fn capacity(&mut self, capacity: u32)
        ensures
            final(self).mutations() == old(self).mutations().push(
                LobbyMutation::SetCapacity(capacity),
            ),
    {
        self.mutations.push(LobbyMutation::SetCapacity(capacity));
    }

    /// Records binding one metadata key.
    pub fn add_metadata(&mut self, key: String, value: String)
        ensures
            final(self).mutations() == old(self).mutations().push(
                LobbyMutation::SetMetadata(key, value),
            ),
    {
        self.mutations.push(LobbyMutation::SetMetadata(key, value));
    }

    /// Records unbinding one metadata key.
    pub fn delete_metadata(&mut self, key: String)
        ensures
            final(self).mutations() == old(self).mutations().push(
                LobbyMutation::DeleteMetadata(key),
            ),
    {
        self.mutations.push(LobbyMutation::DeleteMetadata(key));
    }

    /// Records locking or unlocking the lobby.
    pub fn locked(&mut self, locked: bool)
        ensures
            final(self).mutations() == old(self).mutations().push(LobbyMutation::SetLocked(locked)),
    {
        self.mutations.push(LobbyMutation::SetLocked(locked));
    }

    /// Replays the recorded mutations, in insertion order, against a freshly
    /// acquired native transaction. The first mutation that does not encode
    /// halts the replay and returns its error: earlier mutations stay
    /// applied, later ones are not attempted, and the caller must treat the
    /// whole transaction as failed and discard the handle.
    pub fn process(&self, handle: &mut NativeLobbyTransaction) -> (r: Result<(), Error>)
        requires
            old(handle)@.wf(),
        ensures
            final(handle)@.wf(),
            all_ok(self.mutations()) ==> r == Ok::<(), Error>(())
                && final(handle)@ == apply_all(old(handle)@, self.mutations()),
            !all_ok(self.mutations()) ==> r == Err::<(), Error>(Error::TooLong)
                && final(handle)@ == apply_all(
                old(handle)@,
                self.mutations().take(first_bad(self.mutations())),
            ),
    {
        let ghost ms = self.mutations@;
        let ghost orig = handle@;
        let mut i: usize = 0;
        while i < self.mutations.len()
            invariant
                self.mutations@ == ms,
                old(handle)@ == orig,
                orig.wf(),
                i <= ms.len(),
                forall|j: int| 0 <= j < i ==> mutation_ok(#[trigger] ms[j]),
                handle@ == apply_all(orig, ms.take(i as int)),
                handle@.wf(),
            decreases ms.len() - i,
        {
            let ghost pre = handle@;
            proof {
                assert(ms.take(i + 1).drop_last() =~= ms.take(i as int));
                assert(ms.take(i + 1).last() == ms[i as int]);
            }
            match &self.mutations[i] {
                LobbyMutation::SetKind(k) => {
                    handle.kind = Some(*k);
                },
                LobbyMutation::SetOwner(o) => {
                    handle.owner = Some(*o);
                },
                LobbyMutation::SetCapacity(c) => {
                    handle.capacity = Some(*c);
                },
                LobbyMutation::SetMetadata(k, v) => {
                    if !(check_key(k) && check_value(v)) {
                        proof {
                            lemma_first_bad_unique(ms, i as int);
                        }
                        return Err(Error::TooLong);
                    }
                    meta_set_exec(&mut handle.metadata, k.clone(), v.clone());
                },
                LobbyMutation::DeleteMetadata(k) => {
                    if !check_key(k) {
                        proof {
                            lemma_first_bad_unique(ms, i as int);
                        }
                        return Err(Error::TooLong);
                    }
                    meta_remove_exec(&mut handle.metadata, k);
                },
                LobbyMutation::SetLocked(b) => {
                    handle.locked = Some(*b);
                },
            }
            proof {
                assert(handle@ == apply_mutation(pre, ms[i as int]));
            }
            i = i + 1;
        }
        proof {
            assert(ms.take(ms.len() as int) =~= ms);
        }
        Ok(())
    }
}


// --- the member transaction ---

/// One recorded field-set intent of a member update.
#[derive(Debug, Clone, PartialEq, Eq)]
pub enum MemberMutation {
    /// Bind one metadata key of the member.
    SetMetadata(String, String),
    /// Unbind one metadata key of the member.
    DeleteMetadata(String),
}

/// A member mutation's value can be encoded for the native buffers.
pub open spec fn member_mutation_ok(m: MemberMutation) -> bool {
    match m {
        MemberMutation::SetMetadata(k, v) => valid_key(k@) && valid_value(v@),
        MemberMutation::DeleteMetadata(k) => valid_key(k@),
    }
}

/// The populated fields of a native member transaction; stands for the
/// opaque native handle, scoped to one `process` call.
#[derive(Debug, Clone, PartialEq, Eq)]
pub struct NativeMemberTransaction {
    metadata: Vec<(String, String)>,
}

/// The abstract content of a native member transaction.
pub struct MemberTxView {
    pub metadata: Seq<(String, String)>,
}

impl MemberTxView {
    /// The metadata keys are distinct, as the native map keeps them.
    pub open spec fn wf(self) -> bool {
        keys_distinct(self.metadata)
    }
}

impl View for NativeMemberTransaction {
    type V = MemberTxView;

    closed spec fn view(&self) -> MemberTxView {
        MemberTxView { metadata: self.metadata@ }
    }
}

impl NativeMemberTransaction {
    /// A freshly acquired member transaction: nothing populated yet.
    pub fn new() -> (r: NativeMemberTransaction)
        ensures
            r@.wf(),
            r@ == fresh_member_view(),
    {
        NativeMemberTransaction { metadata: Vec::new() }
    }

    /// The metadata entries the replay recorded, in binding order.
    pub fn metadata(&self) -> (r: &Vec<(String, String)>)
        ensures
            r@ == self@.metadata,
    {
        &self.metadata
    }
}

/// The member transaction content after one mutation is applied.
pub open spec fn apply_member_mutation(v: MemberTxView, m: MemberMutation) -> MemberTxView {
    match m {
        MemberMutation::SetMetadata(k, val) => (MemberTxView { metadata: meta_set(v.metadata, k, val) }),
        MemberMutation::DeleteMetadata(k) => (MemberTxView { metadata: meta_remove(v.metadata, k@) }),
    }
}

/// The member transaction content after every listed mutation, in order.
pub open spec fn apply_member_all(v: MemberTxView, ms: Seq<MemberMutation>) -> MemberTxView
    decreases ms.len(),
{
    if ms.len() == 0 {
        v
    } else {
        apply_member_mutation(apply_member_all(v, ms.drop_last()), ms.last())
    }
}

/// Every listed member mutation encodes.
pub open spec fn member_all_ok(ms: Seq<MemberMutation>) -> bool {
    forall|i: int| 0 <= i < ms.len() ==> member_mutation_ok(#[trigger] ms[i])
}

/// The position of the first member mutation that does not encode.
pub open spec fn member_first_bad(ms: Seq<MemberMutation>) -> int {
    choose|i: int|
        0 <= i < ms.len() && !member_mutation_ok(ms[i]) && (forall|j: int|
            0 <= j < i ==> member_mutation_ok(#[trigger] ms[j]))
}

/// A position whose predecessors all encode and which does not is the one
/// `member_first_bad` picks.
pub proof fn lemma_member_first_bad_unique(ms: Seq<MemberMutation>, i: int)
    requires
        0 <= i < ms.len(),
        !member_mutation_ok(ms[i]),
        forall|j: int| 0 <= j < i ==> member_mutation_ok(#[trigger] ms[j]),
    ensures
        !member_all_ok(ms),
        member_first_bad(ms) == i,
{
    let k = member_first_bad(ms);
    assert(0 <= k < ms.len() && !member_mutation_ok(ms[k]) && (forall|j: int|
        0 <= j < k ==> member_mutation_ok(#[trigger] ms[j])));
}

/// A member update builder: the recorded mutation list and nothing else.
#[derive(Debug, Clone, PartialEq, Eq)]
pub struct LobbyMemberTransaction {
    mutations: Vec<MemberMutation>,
}

impl LobbyMemberTransaction {
    /// The recorded mutations, in insertion order.
    pub closed spec fn mutations(&self) -> Seq<MemberMutation> {
        self.mutations@
    }

    /// A builder with nothing recorded.
    pub fn new() -> (r: LobbyMemberTransaction)
        ensures
            r.mutations() == Seq::<MemberMutation>::empty(),
    {
        LobbyMemberTransaction { mutations: Vec::new() }
    }

    /// Records binding one metadata key of the member.
    pub fn add_metadata(&mut self, key: String, value: String)
        ensures
            final(self).mutations() == old(self).mutations().push(
                MemberMutation::SetMetadata(key, value),
            ),
    {
        self.mutations.push(MemberMutation::SetMetadata(key, value));
    }

    /// Records unbinding one metadata key of the member.
    pub fn delete_metadata(&mut self, key: String)
        ensures
            final(self).mutations() == old(self).mutations().push(
                MemberMutation::DeleteMetadata(key),
            ),
    {
        self.mutations.push(MemberMutation::DeleteMetadata(key));
    }

    /// Replays the recorded mutations, in insertion order, against a freshly
    /// acquired native member transaction; the first mutation that does not
    /// encode halts the replay and returns its error.
    pub fn process(&self, handle: &mut NativeMemberTransaction) -> (r: Result<(), Error>)
        requires
            old(handle)@.wf(),
        ensures
            final(handle)@.wf(),
            member_all_ok(self.mutations()) ==> r == Ok::<(), Error>(())
                && final(handle)@ == apply_member_all(old(handle)@, self.mutations()),
            !member_all_ok(self.mutations()) ==> r == Err::<(), Error>(Error::TooLong)
                && final(handle)@ == apply_member_all(
                old(handle)@,
                self.mutations().take(member_first_bad(self.mutations())),
            ),
    {
        let ghost ms = self.mutations@;
        let ghost orig = handle@;
        let mut i: usize = 0;
        while i < self.mutations.len()
            invariant
                self.mutations@ == ms,
                old(handle)@ == orig,
                orig.wf(),
                i <= ms.len(),
                forall|j: int| 0 <= j < i ==> member_mutation_ok(#[trigger] ms[j]),
                handle@ == apply_member_all(orig, ms.take(i as int)),
                handle@.wf(),
            decreases ms.len() - i,
        {
            let ghost pre = handle@;
            proof {
                assert(ms.take(i + 1).drop_last() =~= ms.take(i as int));
                assert(ms.take(i + 1).last() == ms[i as int]);
            }
            match &self.mutations[i] {
                MemberMutation::SetMetadata(k, v) => {
                    if !(check_key(k) && check_value(v)) {
                        proof {
                            lemma_member_first_bad_unique(ms, i as int);
                        }
                        return Err(Error::TooLong);
                    }
                    meta_set_exec(&mut handle.metadata, k.clone(), v.clone());
                },
                MemberMutation::DeleteMetadata(k) => {
                    if !check_key(k) {
                        proof {
                            lemma_member_first_bad_unique(ms, i as int);
                        }
                        return Err(Error::TooLong);
                    }
                    meta_remove_exec(&mut handle.metadata, k);
                },
            }
            proof {
                assert(handle@ == apply_member_mutation(pre, ms[i as int]));
            }
            i = i + 1;
        }
        proof {
            assert(ms.take(ms.len() as int) =~= ms);
        }
        Ok(())
    }
}


// --- the search query ---

/// One recorded intent of a lobby search query.
#[derive(Debug, Clone, PartialEq, Eq)]
pub enum SearchMutation {
    /// Keep only lobbies whose stored value under the key compares as asked.
    Filter(String, Comparison, Cast, String),
    /// Order the results by the stored value under the key.
    Sort(String, Cast, String),
    /// Return at most this many lobbies.
    Limit(u32),
    /// Search within this distance.
    Distance(Distance),
}

/// A search mutation's value can be encoded for the native buffers.
pub open spec fn search_mutation_ok(m: SearchMutation) -> bool {
    match m {
        SearchMutation::Filter(k, _, _, v) => valid_key(k@) && valid_value(v@),
        SearchMutation::Sort(k, _, v) => valid_key(k@) && valid_value(v@),
        SearchMutation::Limit(_) => true,
        SearchMutation::Distance(_) => true,
    }
}

/// The populated fields of a native search query; stands for the opaque
/// native handle, scoped to one `process` call.
#[derive(Debug, Clone, PartialEq, Eq)]
pub struct NativeSearchQuery {
    filters: Vec<(String, Comparison, Cast, String)>,
    sorts: Vec<(String, Cast, String)>,
    limit: Option<u32>,
    distance: Option<Distance>,
}

/// The abstract content of a native search query.
pub struct SearchQueryView {
    pub filters: Seq<(String, Comparison, Cast, String)>,
    pub sorts: Seq<(String, Cast, String)>,
    pub limit: Option<u32>,
    pub distance: Option<Distance>,
}

impl View for NativeSearchQuery {
    type V = SearchQueryView;

    closed spec fn view(&self) -> SearchQueryView {
        SearchQueryView {
            filters: self.filters@,
            sorts: self.sorts@,
            limit: self.limit,
            distance: self.distance,
        }
    }
}

impl NativeSearchQuery {
    /// A freshly acquired search query: nothing populated yet.
    pub fn new() -> (r: NativeSearchQuery)
        ensures
            r@ == fresh_search_view(),
    {
        NativeSearchQuery { filters: Vec::new(), sorts: Vec::new(), limit: None, distance: None }
    }

    /// The filters the replay recorded, in insertion order.
    pub fn filters(&self) -> (r: &Vec<(String, Comparison, Cast, String)>)
        ensures
            r@ == self@.filters,
    {
        &self.filters
    }

    /// The sorts the replay recorded, in insertion order.
    pub fn sorts(&self) -> (r: &Vec<(String, Cast, String)>)
        ensures
            r@ == self@.sorts,
    {
        &self.sorts
    }

    /// The limit the replay recorded, if any.
    pub fn limit(&self) -> (r: Option<u32>)
        ensures
            r == self@.limit,
    {
        self.limit
    }

    /// The distance the replay recorded, if any.
    pub fn distance(&self) -> (r: Option<Distance>)
        ensures
            r == self@.distance,
    {
        self.distance
    }
}

/// The search query content after one mutation is applied.
pub open spec fn apply_search_mutation(v: SearchQueryView, m: SearchMutation) -> SearchQueryView {
    match m {
        SearchMutation::Filter(k, cmp, cast, val) => (SearchQueryView {
            filters: v.filters.push((k, cmp, cast, val)),
            ..v
        }),
        SearchMutation::Sort(k, cast, val) => (SearchQueryView {
            sorts: v.sorts.push((k, cast, val)),
            ..v
        }),
        SearchMutation::Limit(n) => SearchQueryView { limit: Some(n), ..v },
        SearchMutation::Distance(d) => SearchQueryView { distance: Some(d), ..v },
    }
}

/// The search query content after every listed mutation, in order.
pub open spec fn apply_search_all(v: SearchQueryView, ms: Seq<SearchMutation>) -> SearchQueryView
    decreases ms.len(),
{
    if ms.len() == 0 {
        v
    } else {
        apply_search_mutation(apply_search_all(v, ms.drop_last()), ms.last())
    }
}

/// Every listed search mutation encodes.
pub open spec fn search_all_ok(ms: Seq<SearchMutation>) -> bool {
    forall|i: int| 0 <= i < ms.len() ==> search_mutation_ok(#[trigger] ms[i])
}

/// The position of the first search mutation that does not encode.
pub open spec fn search_first_bad(ms: Seq<SearchMutation>) -> int {
    choose|i: int|
        0 <= i < ms.len() && !search_mutation_ok(ms[i]) && (forall|j: int|
            0 <= j < i ==> search_mutation_ok(#[trigger] ms[j]))
}

/// A position whose predecessors all encode and which does not is the one
/// `search_first_bad` picks.
pub proof fn lemma_search_first_bad_unique(ms: Seq<SearchMutation>, i: int)
    requires
        0 <= i < ms.len(),
        !search_mutation_ok(ms[i]),
        forall|j: int| 0 <= j < i ==> search_mutation_ok(#[trigger] ms[j]),
    ensures
        !search_all_ok(ms),
        search_first_bad(ms) == i,
{
    let k = search_first_bad(ms);
    assert(0 <= k < ms.len() && !search_mutation_ok(ms[k]) && (forall|j: int|
        0 <= j < k ==> search_mutation_ok(#[trigger] ms[j])));
}

/// A lobby search builder: the recorded intent list and nothing else.
#[derive(Debug, Clone, PartialEq, Eq)]
pub struct SearchQuery {
    mutations: Vec<SearchMutation>,
}

impl SearchQuery {
    /// The recorded mutations, in insertion order.
    pub closed spec fn mutations(&self) -> Seq<SearchMutation> {
        self.mutations@
    }

    /// A builder with nothing recorded.
    pub fn new() -> (r: SearchQuery)
        ensures
            r.mutations() == Seq::<SearchMutation>::empty(),
    {
        SearchQuery { mutations: Vec::new() }
    }

    /// Records a filter on a stored value.
    pub fn filter(&mut self, key: String, comparison: Comparison, cast: Cast, value: String)
        ensures
            final(self).mutations() == old(self).mutations().push(
                SearchMutation::Filter(key, comparison, cast, value),
            ),
    {
        self.mutations.push(SearchMutation::Filter(key, comparison, cast, value));
    }

    /// Records a sort by a stored value.
    pub fn sort(&mut self, key: String, cast: Cast, value: String)
        ensures
            final(self).mutations() == old(self).mutations().push(
                SearchMutation::Sort(key, cast, value),
            ),
    {
        self.mutations.push(SearchMutation::Sort(key, cast, value));
    }

    /// Records how many lobbies to return at most.
    pub fn limit(&mut self, limit: u32)
        ensures
            final(self).mutations() == old(self).mutations().push(SearchMutation::Limit(limit)),
    {
        self.mutations.push(SearchMutation::Limit(limit));
    }

    /// Records how far the search reaches.
    pub fn distance(&mut self, distance: Distance)
        ensures
            final(self).mutations() == old(self).mutations().push(
                SearchMutation::Distance(distance),
            ),
    {
        self.mutations.push(SearchMutation::Distance(distance));
    }

    /// Replays the recorded mutations, in insertion order, against a freshly
    /// acquired native search query; the first mutation that does not encode
    /// halts the replay and returns its error.
    pub fn process(&self, handle: &mut NativeSearchQuery) -> (r: Result<(), Error>)
        ensures
            search_all_ok(self.mutations()) ==> r == Ok::<(), Error>(())
                && final(handle)@ == apply_search_all(old(handle)@, self.mutations()),
            !search_all_ok(self.mutations()) ==> r == Err::<(), Error>(Error::TooLong)
                && final(handle)@ == apply_search_all(
                old(handle)@,
                self.mutations().take(search_first_bad(self.mutations())),
            ),
    {
        let ghost ms = self.mutations@;
        let ghost orig = handle@;
        let mut i: usize = 0;
        while i < self.mutations.len()
            invariant
                self.mutations@ == ms,
                old(handle)@ == orig,
                i <= ms.len(),
                forall|j: int| 0 <= j < i ==> search_mutation_ok(#[trigger] ms[j]),
                handle@ == apply_search_all(orig, ms.take(i as int)),
            decreases ms.len() - i,
        {
            let ghost pre = handle@;
            proof {
                assert(ms.take(i + 1).drop_last() =~= ms.take(i as int));
                assert(ms.take(i + 1).last() == ms[i as int]);
            }
            match &self.mutations[i] {
                SearchMutation::Filter(k, cmp, cast, v) => {
                    if !(check_key(k) && check_value(v)) {
                        proof {
                            lemma_search_first_bad_unique(ms, i as int);
                        }
                        return Err(Error::TooLong);
                    }
                    handle.filters.push((k.clone(), *cmp, *cast, v.clone()));
                },
                SearchMutation::Sort(k, cast, v) => {
                    if !(check_key(k) && check_value(v)) {
                        proof {
                            lemma_search_first_bad_unique(ms, i as int);
                        }
                        return Err(Error::TooLong);
                    }
                    handle.sorts.push((k.clone(), *cast, v.clone()));
                },
                SearchMutation::Limit(n) => {
                    handle.limit = Some(*n);
                },
                SearchMutation::Distance(d) => {
                    handle.distance = Some(*d);
                },
            }
            proof {
                assert(handle@ == apply_search_mutation(pre, ms[i as int]));
            }
            i = i + 1;
        }
        proof {
            assert(ms.take(ms.len() as int) =~= ms);
        }
        Ok(())
    }
}


/// The content of a freshly acquired lobby transaction: nothing populated.
pub open spec fn fresh_lobby_view() -> LobbyTxView {
    LobbyTxView { kind: None, owner: None, capacity: None, locked: None, metadata: Seq::empty() }
}

/// The content of a freshly acquired member transaction: nothing populated.
pub open spec fn fresh_member_view() -> MemberTxView {
    MemberTxView { metadata: Seq::empty() }
}

/// The content of a freshly acquired search query: nothing populated.
pub open spec fn fresh_search_view() -> SearchQueryView {
    SearchQueryView { filters: Seq::empty(), sorts: Seq::empty(), limit: None, distance: None }
}

} // verus!
