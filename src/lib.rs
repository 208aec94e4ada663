//! A client for a puzzle platform: identifiers of events and quests, the
//! session and seed, endpoint addresses, decryption of the inputs, and the
//! reading of submission verdicts; with the scaffolding decisions and the
//! solutions of two puzzles.
use vstd::prelude::*;

pub mod text;
pub mod event;
pub mod quest;
pub mod error;
pub mod crypto;
pub mod json;
pub mod verdict;
pub mod client;
pub mod notes;
pub mod split;
pub mod quest_e2025_01;
pub mod quest_e2025_02;
pub mod runner;

pub use crate::client::{ClientConfig, InputFetch, Setup};
pub use crate::crypto::decrypt_input;
pub use crate::error::ClientError;
pub use crate::event::Event;
pub use crate::notes::{determine_current_quest, determine_next_part, determine_next_quest};
pub use crate::quest::Quest;
pub use crate::verdict::format_submission_response;

verus! {

} // verus!
