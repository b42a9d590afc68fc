//! Tools an agent can call, and the error a tool reports.

use vstd::prelude::*;
use crate::text::opt_view;

pub mod advanced;

verus! {

/// Why a tool call was refused: a message and an optional machine code.
#[derive(Debug)]
pub struct ToolError {
    pub message: String,
    pub code: Option<String>,
}

impl ToolError {
    /// Whether this error carries exactly `message` and `code`.
    pub open spec fn is(&self, message: Seq<char>, code: Seq<char>) -> bool {
        self.message@ == message && opt_view(self.code) == Some(code)
    }
}

} // verus!
