//! Owned records decoded from native objects.
//!
//! A native object pointer handed to a completion callback is valid only for
//! the callback's duration, so every field is copied into one of these owned
//! records before the callback returns.

use vstd::prelude::*;
use crate::transaction::LobbyKind;

verus! {

/// The flag bit for a partnered user.
pub const USER_FLAG_PARTNER: u32 = 2;

/// The flag bit for an events participant.
pub const USER_FLAG_HYPE_SQUAD_EVENTS: u32 = 4;

/// The flag bit for membership in the first house.
pub const USER_FLAG_HYPE_SQUAD_HOUSE_1: u32 = 64;

/// The flag bit for membership in the second house.
pub const USER_FLAG_HYPE_SQUAD_HOUSE_2: u32 = 128;

/// The flag bit for membership in the third house.
pub const USER_FLAG_HYPE_SQUAD_HOUSE_3: u32 = 256;

/// The bitfield of flags set for a user.
#[derive(Debug, Clone, Copy, PartialEq, Eq, Structural)]
pub struct UserFlags {
    pub bits: u32,
}

/// An owned copy of a native user record.
#[derive(Debug, Clone, PartialEq, Eq)]
pub struct User {
    pub id: i64,
    pub username: String,
    pub discriminator: u32,
    pub avatar: String,
    pub bot: bool,
}

/// An owned copy of a native lobby record.
#[derive(Debug, Clone, PartialEq, Eq)]
pub struct Lobby {
    pub id: i64,
    pub kind: LobbyKind,
    pub owner_id: i64,
    pub secret: String,
    pub capacity: u32,
    pub locked: bool,
    pub metadata: Vec<(String, String)>,
}

} // verus!
