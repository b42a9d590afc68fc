//! Verified core of sub-agent delegation: tool filtering, sub-agent
//! lifecycle, task queues, progress batching and the delegate-task tool's
//! decision logic.

pub mod text;
pub mod clock;
pub mod ids;
pub mod delegation;
pub mod tools;
