//! Event-callback bridging and transaction building for a native game-platform
//! session.
//!
//! The native layer is a closed dynamic library driven through a C-style call
//! table: it reports results through raw completion callbacks and delivers
//! notifications through raw event callbacks, both of which fire only while
//! the application runs the session's periodic tick. This crate holds the
//! bookkeeping that makes that boundary safe and predictable:
//!
//! - an event channel registry, one in-order queue per event kind, filled by
//!   the trampolines and drained by the application;
//! - a pending-operation table that records every issued asynchronous call
//!   and resolves each exactly once when its completion arrives;
//! - transaction builders that accumulate deferred field mutations and replay
//!   them, in order and stopping at the first failure, against a freshly
//!   acquired native transaction;
//! - the tick itself, which routes what the native layer reported this pass
//!   and then scans the table, tolerating new operations issued by completion
//!   handlers while the scan runs.
//!
//! What only the native layer can do (run the session, mark completions
//! ready, deliver event payloads) enters through a [`NativeTick`] value built
//! at the boundary; everything after that point is verified.

pub mod data;
pub mod discord;
pub mod error;
pub mod event;
pub mod pending;
pub mod queries;
pub mod transaction;

pub use data::Lobby;
pub use data::User;
pub use data::UserFlags;
pub use discord::CompletionHandler;
pub use discord::CreateFlags;
pub use discord::Discord;
pub use discord::NativeTick;
pub use error::Error;
pub use error::status_to_result;
pub use event::Event;
pub use event::EventChannels;
pub use event::EventKind;
pub use pending::Completion;
pub use pending::Outcome;
pub use pending::Payload;
pub use pending::Request;
pub use pending::Resolution;
pub use pending::Shape;
pub use pending::Slot;
pub use pending::SlotState;
pub use transaction::LobbyKind;
pub use transaction::LobbyMemberTransaction;
pub use transaction::LobbyTransaction;
pub use transaction::NativeLobbyTransaction;
pub use transaction::NativeMemberTransaction;
pub use transaction::NativeSearchQuery;
pub use transaction::SearchQuery;
