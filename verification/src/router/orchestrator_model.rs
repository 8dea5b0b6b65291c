//! What a routing model selects.

use crate::text::concat2;
use vstd::prelude::*;

verus! {

/// Why a routing model's reply could not be read.
#[derive(Debug)]
pub enum OrchestratorModelError {
    JsonError(String),
}

impl OrchestratorModelError {
    /// The error in words.
    pub open spec fn text(&self) -> Seq<char> {
        match *self {
            OrchestratorModelError::JsonError(m) => "Failed to parse JSON: "@ + m@,
        }
    }

    /// The error in words.
    pub fn message(&self) -> (r: String)
        ensures
            r@ == self.text(),
    {
        match self {
            OrchestratorModelError::JsonError(m) => concat2("Failed to parse JSON: ", m.as_str()),
        }
    }
}

/// The result of running the orchestrator over a conversation: zero or more
/// selected routes (each mapped to its upstream model name) plus zero or more
/// selected skills.
#[derive(Debug, Clone, Default, PartialEq, Eq)]
pub struct OrchestratorSelection {
    pub routes: Vec<(String, String)>,
    pub skills: Vec<String>,
}

impl OrchestratorSelection {
    /// Whether nothing was selected.
    pub fn is_empty(&self) -> (b: bool)
        ensures
            b == (self.routes@.len() == 0 && self.skills@.len() == 0),
    {
        self.routes.len() == 0 && self.skills.len() == 0
    }
}

} // verus!
