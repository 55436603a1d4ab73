//! Chat dispatcher logic: tool-output previews, auth detection, history
//! compaction, response sanitising, loop thresholds and the tool pipeline.

pub mod types;
pub mod llm_hooks;
pub mod postflight;
pub mod pipeline;
pub mod fold;
pub mod reply_shape;
pub mod agent_loop;
