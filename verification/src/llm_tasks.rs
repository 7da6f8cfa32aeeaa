//! The single-step task adapter: a degenerate agent run — no tools, an
//! iteration budget of one — for fire-and-forget jobs such as summarizing
//! a text. It is a constrained instantiation of the agent loop, not a
//! second implementation of prompt building or error mapping.

use vstd::prelude::*;
use crate::engine::ModelSelector;
use crate::react::{AgentConfig, LoopState, React};
use crate::registry::{ToolRegistry, ToolSpec};
use crate::turns::Turn;

verus! {

/// The failures of a single-step task.
#[derive(Debug, Clone)]
pub enum LlmTaskErrors {
    SummaryError(String),
}

/// Holds the defaults a summarize run is configured with; the backend
/// client itself lives with the driver. Temperature is in thousandths.
pub struct LlmTasks {
    default_summary_model: String,
    default_summary_temperature_permille: u32,
}

/// The fixed instructional prefix plus the text to summarize: the request
/// the single reasoning call is seeded with.
pub open spec fn summary_request(text: Seq<char>) -> Seq<char> {
    "Summarize the following text: "@ + text
}

impl LlmTasks {
    /// The backend model identifier the driver should select.
    pub closed spec fn model_v(&self) -> Seq<char> {
        self.default_summary_model@
    }

    pub closed spec fn temperature_permille_v(&self) -> u32 {
        self.default_summary_temperature_permille
    }

    pub closed spec fn wf(&self) -> bool {
        self.default_summary_temperature_permille <= 1000
    }

    pub fn new(default_summary_model: &str, default_summary_temperature_permille: u32) -> (r:
        Self)
        requires
            default_summary_temperature_permille <= 1000,
        ensures
            r.wf(),
            r.model_v() == default_summary_model@,
            r.temperature_permille_v() == default_summary_temperature_permille,
    {
        LlmTasks {
            default_summary_model: default_summary_model.to_owned(),
            default_summary_temperature_permille,
        }
    }

    pub fn model_name(&self) -> (r: &String)
        ensures
            r@ == self.model_v(),
    {
        &self.default_summary_model
    }

    pub fn temperature_permille(&self) -> (r: u32)
        ensures
            r == self.temperature_permille_v(),
    {
        self.default_summary_temperature_permille
    }

    /// Starts a summarize run: an empty tool registry, exactly one
    /// reasoning call allowed, seeded with the fixed prefix plus `text`.
    /// The driver makes that one backend call and hands the response to the
    /// run; `conclude` then reads the outcome.
    pub fn summarize(&self, text: &str) -> (r: React)
        requires
            self.wf(),
        ensures
            r.wf(),
            r.state_v() == LoopState::Reasoning,
            r.transcript_v() == Seq::<Turn>::empty(),
            r.request_v() == summary_request(text@),
            r.config_v().max_iterations == 1,
            r.config_v().temperature_permille == self.temperature_permille_v(),
            r.registry_v().tools() == Seq::<ToolSpec>::empty(),
    {
        let registry = ToolRegistry::new();
        let config = AgentConfig {
            max_iterations: 1,
            per_step_timeout_ms: u64::MAX,
            total_timeout_ms: u64::MAX,
            model_selector: ModelSelector::OpenAi,
            temperature_permille: self.default_summary_temperature_permille,
        };
        let request = String::from_str("Summarize the following text: ").concat(text);
        React::new(request, registry, config)
    }

    /// Ends a summarize run: the answer of a completed run; any aborted run
    /// — a backend failure, or a tool call proposed with no tools available,
    /// which is a malformed decision — is a `SummaryError`.
    pub fn conclude(&self, run: React) -> (r: Result<String, LlmTaskErrors>)
        requires
            run.wf(),
            run.state_v() is Done || run.state_v() is Aborted,
        ensures
            run.state_v() is Done ==> (r matches Result::Ok(a) && a@ == run.answer_of()),
            run.state_v() is Aborted ==> r is Err,
    {
        let outcome = run.into_result();
        match outcome.answer {
            Option::Some(a) => Result::Ok(a),
            Option::None => Result::Err(
                LlmTaskErrors::SummaryError(
                    String::from_str("the run aborted before an answer was produced"),
                ),
            ),
        }
    }
}

} // verus!
