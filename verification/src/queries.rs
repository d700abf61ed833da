//! Synchronous native enumerations, split at the boundary.
//!
//! Reading a lobby's metadata, its member list or the current user's flags
//! drives a native counting loop: ask for a count, then fetch entry after
//! entry, where every native fetch can fail. The raw fetches happen at the
//! boundary; what stands here, verified, is the decision part: assemble the
//! fetched values in order and halt at the first failure, which is returned
//! as the whole read's error.

use vstd::prelude::*;
use crate::data::UserFlags;
use crate::discord::Discord;
use crate::error::Error;
use crate::transaction::keys_distinct;
use crate::transaction::meta_set;
use crate::transaction::meta_set_exec;

verus! {

/// Every fetched identifier arrived.
pub open spec fn ids_all_ok(fetched: Seq<Result<i64, Error>>) -> bool {
    forall|i: int| 0 <= i < fetched.len() ==> (#[trigger] fetched[i]) is Ok
}

/// The fetched identifiers, in fetch order.
pub open spec fn ids_of(fetched: Seq<Result<i64, Error>>) -> Seq<i64>
    decreases fetched.len(),
{
    if fetched.len() == 0 {
        Seq::empty()
    } else if fetched.last() is Ok {
        ids_of(fetched.drop_last()).push(fetched.last()->Ok_0)
    } else {
        ids_of(fetched.drop_last())
    }
}

/// The position of the first fetch that failed.
pub open spec fn first_id_err(fetched: Seq<Result<i64, Error>>) -> int {
    choose|i: int|
        0 <= i < fetched.len() && fetched[i] is Err && (forall|j: int|
            0 <= j < i ==> (#[trigger] fetched[j]) is Ok)
}

/// A failing position whose predecessors all arrived is the one
/// `first_id_err` picks.
proof fn lemma_first_id_err_unique(fetched: Seq<Result<i64, Error>>, i: int)
    requires
        0 <= i < fetched.len(),
        fetched[i] is Err,
        forall|j: int| 0 <= j < i ==> (#[trigger] fetched[j]) is Ok,
    ensures
        !ids_all_ok(fetched),
        first_id_err(fetched) == i,
{
    let k = first_id_err(fetched);
    assert(0 <= k < fetched.len() && fetched[k] is Err && (forall|j: int|
        0 <= j < k ==> (#[trigger] fetched[j]) is Ok));
}

/// One enumerated metadata entry: the fetched key, then the fetched value.
/// The native loop asks for the key first, so a key failure hides whatever
/// the value fetch would have said.
pub open spec fn pair_ok(p: (Result<String, Error>, Result<String, Error>)) -> bool {
    p.0 is Ok && p.1 is Ok
}

/// The error an entry's fetches surface: the key's, else the value's.
pub open spec fn pair_err(p: (Result<String, Error>, Result<String, Error>)) -> Error {
    if p.0 is Err {
        p.0->Err_0
    } else {
        p.1->Err_0
    }
}

/// Every enumerated entry arrived whole.
pub open spec fn pairs_all_ok(s: Seq<(Result<String, Error>, Result<String, Error>)>) -> bool {
    forall|i: int| 0 <= i < s.len() ==> pair_ok(#[trigger] s[i])
}

/// The metadata map the enumeration assembles: entries bound in fetch
/// order, a later key replacing an earlier one in place.
pub open spec fn assembled(s: Seq<(Result<String, Error>, Result<String, Error>)>) -> Seq<
    (String, String),
>
    decreases s.len(),
{
    if s.len() == 0 {
        Seq::empty()
    } else if pair_ok(s.last()) {
        meta_set(assembled(s.drop_last()), s.last().0->Ok_0, s.last().1->Ok_0)
    } else {
        assembled(s.drop_last())
    }
}

/// The position of the first entry whose fetches failed.
pub open spec fn first_pair_err(s: Seq<(Result<String, Error>, Result<String, Error>)>) -> int {
    choose|i: int|
        0 <= i < s.len() && !pair_ok(s[i]) && (forall|j: int| 0 <= j < i ==> pair_ok(#[trigger] s[j]))
}

/// A failing position whose predecessors all arrived is the one
/// `first_pair_err` picks.
proof fn lemma_first_pair_err_unique(
    s: Seq<(Result<String, Error>, Result<String, Error>)>,
    i: int,
)
    requires
        0 <= i < s.len(),
        !pair_ok(s[i]),
        forall|j: int| 0 <= j < i ==> pair_ok(#[trigger] s[j]),
    ensures
        !pairs_all_ok(s),
        first_pair_err(s) == i,
{
    let k = first_pair_err(s);
    assert(0 <= k < s.len() && !pair_ok(s[k]) && (forall|j: int|
        0 <= j < k ==> pair_ok(#[trigger] s[j])));
}

/// Every flag check arrived.
pub open spec fn checks_all_ok(checks: Seq<(u32, Result<bool, Error>)>) -> bool {
    forall|i: int| 0 <= i < checks.len() ==> (#[trigger] checks[i]).1 is Ok
}

/// The bitfield the checks assemble: each flag whose check answered true.
pub open spec fn flags_of(checks: Seq<(u32, Result<bool, Error>)>) -> u32
    decreases checks.len(),
{
    if checks.len() == 0 {
        0u32
    } else if checks.last().1->Ok_0 {
        flags_of(checks.drop_last()) | checks.last().0
    } else {
        flags_of(checks.drop_last())
    }
}

/// The position of the first flag check that failed.
pub open spec fn first_check_err(checks: Seq<(u32, Result<bool, Error>)>) -> int {
    choose|i: int|
        0 <= i < checks.len() && checks[i].1 is Err && (forall|j: int|
            0 <= j < i ==> (#[trigger] checks[j]).1 is Ok)
}

/// A failing position whose predecessors all arrived is the one
/// `first_check_err` picks.
proof fn lemma_first_check_err_unique(checks: Seq<(u32, Result<bool, Error>)>, i: int)
    requires
        0 <= i < checks.len(),
        checks[i].1 is Err,
        forall|j: int| 0 <= j < i ==> (#[trigger] checks[j]).1 is Ok,
    ensures
        !checks_all_ok(checks),
        first_check_err(checks) == i,
{
    let k = first_check_err(checks);
    assert(0 <= k < checks.len() && checks[k].1 is Err && (forall|j: int|
        0 <= j < k ==> (#[trigger] checks[j]).1 is Ok));
}

impl Discord {
    /// Assembles a lobby's member list from the native member enumeration:
    /// one fetched identifier per member index, in index order. The first
    /// fetch that failed halts the read and its error is returned.
    pub fn all_lobby_member_ids(&self, lobby_id: i64, fetched: &Vec<Result<i64, Error>>) -> (r:
        Result<Vec<i64>, Error>)
        ensures
            ids_all_ok(fetched@) ==> r is Ok && r->Ok_0@ == ids_of(fetched@),
            !ids_all_ok(fetched@) ==> r == Err::<Vec<i64>, Error>(
                fetched@[first_id_err(fetched@)]->Err_0,
            ),
    {
        let mut out: Vec<i64> = Vec::new();
        let mut i: usize = 0;
        while i < fetched.len()
            invariant
                i <= fetched@.len(),
                forall|j: int| 0 <= j < i ==> (#[trigger] fetched@[j]) is Ok,
                out@ == ids_of(fetched@.take(i as int)),
            decreases fetched@.len() - i,
        {
            proof {
                assert(fetched@.take(i + 1).drop_last() =~= fetched@.take(i as int));
                assert(fetched@.take(i + 1).last() == fetched@[i as int]);
            }
            match &fetched[i] {
                Ok(id) => {
                    out.push(*id);
                },
                Err(e) => {
                    proof {
                        lemma_first_id_err_unique(fetched@, i as int);
                    }
                    return Err(*e);
                },
            }
            i = i + 1;
        }
        proof {
            assert(fetched@.take(fetched@.len() as int) =~= fetched@);
        }
        Ok(out)
    }

    /// Assembles a lobby's metadata map from the native metadata
    /// enumeration: per index, the fetched key and the fetched value. The
    /// first fetch that failed halts the read and its error is returned; a
    /// key fetched twice keeps its last value, each key bound once.
    pub fn all_lobby_metadata(
        &self,
        lobby_id: i64,
        fetched: &Vec<(Result<String, Error>, Result<String, Error>)>,
    ) -> (r: Result<Vec<(String, String)>, Error>)
        ensures
            pairs_all_ok(fetched@) ==> r is Ok && r->Ok_0@ == assembled(fetched@)
                && keys_distinct(r->Ok_0@),
            !pairs_all_ok(fetched@) ==> r == Err::<Vec<(String, String)>, Error>(
                pair_err(fetched@[first_pair_err(fetched@)]),
            ),
    {
        let mut out: Vec<(String, String)> = Vec::new();
        let mut i: usize = 0;
        while i < fetched.len()
            invariant
                i <= fetched@.len(),
                forall|j: int| 0 <= j < i ==> pair_ok(#[trigger] fetched@[j]),
                out@ == assembled(fetched@.take(i as int)),
                keys_distinct(out@),
            decreases fetched@.len() - i,
        {
            proof {
                assert(fetched@.take(i + 1).drop_last() =~= fetched@.take(i as int));
                assert(fetched@.take(i + 1).last() == fetched@[i as int]);
            }
            match &fetched[i] {
                (Ok(k), Ok(v)) => {
                    meta_set_exec(&mut out, k.clone(), v.clone());
                },
                (Err(e), _) => {
                    proof {
                        lemma_first_pair_err_unique(fetched@, i as int);
                    }
                    return Err(*e);
                },
                (Ok(_), Err(e)) => {
                    proof {
                        lemma_first_pair_err_unique(fetched@, i as int);
                    }
                    return Err(*e);
                },
            }
            i = i + 1;
        }
        proof {
            assert(fetched@.take(fetched@.len() as int) =~= fetched@);
        }
        Ok(out)
    }

    /// Assembles one member's metadata map, as [`Discord::all_lobby_metadata`]
    /// does for the lobby's own.
    pub fn all_lobby_member_metadata(
        &self,
        lobby_id: i64,
        user_id: i64,
        fetched: &Vec<(Result<String, Error>, Result<String, Error>)>,
    ) -> (r: Result<Vec<(String, String)>, Error>)
        ensures
            pairs_all_ok(fetched@) ==> r is Ok && r->Ok_0@ == assembled(fetched@)
                && keys_distinct(r->Ok_0@),
            !pairs_all_ok(fetched@) ==> r == Err::<Vec<(String, String)>, Error>(
                pair_err(fetched@[first_pair_err(fetched@)]),
            ),
    {
        self.all_lobby_metadata(lobby_id, fetched)
    }

    /// Assembles the current user's flag bitfield from one native check per
    /// flag, in check order: a flag whose check answered true sets its bit.
    /// The first check that failed halts the read and its error is returned.
    pub fn current_user_flags(&self, checks: &Vec<(u32, Result<bool, Error>)>) -> (r: Result<
        UserFlags,
        Error,
    >)
        ensures
            checks_all_ok(checks@) ==> r == Ok::<UserFlags, Error>(
                (UserFlags { bits: flags_of(checks@) }),
            ),
            !checks_all_ok(checks@) ==> r == Err::<UserFlags, Error>(
                checks@[first_check_err(checks@)].1->Err_0,
            ),
    {
        let mut bits: u32 = 0;
        let mut i: usize = 0;
        while i < checks.len()
            invariant
                i <= checks@.len(),
                forall|j: int| 0 <= j < i ==> (#[trigger] checks@[j]).1 is Ok,
                bits == flags_of(checks@.take(i as int)),
            decreases checks@.len() - i,
        {
            proof {
                assert(checks@.take(i + 1).drop_last() =~= checks@.take(i as int));
                assert(checks@.take(i + 1).last() == checks@[i as int]);
            }
            match &checks[i] {
                (flag, Ok(set)) => {
                    if *set {
                        bits = bits | *flag;
                    }
                },
                (_, Err(e)) => {
                    proof {
                        lemma_first_check_err_unique(checks@, i as int);
                    }
                    return Err(*e);
                },
            }
            i = i + 1;
        }
        proof {
            assert(checks@.take(checks@.len() as int) =~= checks@);
        }
        Ok(UserFlags { bits })
    }
}

} // verus!
