//! Errors of a high-level best-move request.

use vstd::prelude::*;

use crate::control::AnalysisStopped;

verus! {

/// Why a high-level best-move request could not be completed: the request
/// was stopped, the observation was not a valid information set, or the
/// planner failed. The last two carry the message of the failing component.
#[derive(Clone, Debug, PartialEq, Eq)]
pub enum AnalyzePositionError {
    Stopped(AnalysisStopped),
    InformationSet(String),
    Planner(String),
}

impl AnalyzePositionError {
    /// The human-readable reason.
    pub fn to_string(&self) -> (s: String)
        ensures
            s@ == match self {
                AnalyzePositionError::Stopped(stopped) => stopped.spec_text(),
                AnalyzePositionError::InformationSet(error) => "invalid observation: "@ + error@,
                AnalyzePositionError::Planner(error) => "planner failed: "@ + error@,
            },
    {
        match self {
            AnalyzePositionError::Stopped(stopped) => stopped.to_string(),
            AnalyzePositionError::InformationSet(error) => {
                let mut s = "invalid observation: ".to_owned();
                s.append(error.as_str());
                s
            },
            AnalyzePositionError::Planner(error) => {
                let mut s = "planner failed: ".to_owned();
                s.append(error.as_str());
                s
            },
        }
    }
}

} // verus!
