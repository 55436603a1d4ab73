//! Verified core logic of the agent: tool-output previews, response
//! sanitising, history compaction, routine configuration, heartbeat and
//! self-repair decisions, and the dispatcher's tool pipeline planning.

use vstd::prelude::*;

pub mod dispatcher;
pub mod heartbeat;
pub mod json;
pub mod llm;
pub mod routine;
pub mod scheduler;
pub mod self_repair;
pub mod text;
pub mod timezone;

verus! {

} // verus!
