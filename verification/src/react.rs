//! The agent loop: a sequential state machine that drives the
//! reason-act-observe cycle over a run's transcript, enforces the iteration
//! and time budgets, and decides termination. The driver outside the
//! library performs the two blocking calls — the chat-completion backend
//! and the tool execution — and feeds each outcome back in; every decision
//! in between is made here.

use vstd::prelude::*;
use vstd::pervasive::unreached;
use crate::engine::{act_args, act_tool, build_prompt, finish_answer, is_act, is_finish,
    parse_decision, prompt_of, wellformed_decision, ModelSelector, StepDecision};
use crate::filter::{filter, filter_spec, OBSERVATION_MAX_LEN};
use crate::registry::{args_valid, validate_args, ToolError, ToolRegistry};
use crate::turns::{calls_paired, count_tool_calls, lemma_anchored_push, lemma_count_tool_calls_push,
    lemma_paired_push_plain, lemma_paired_push_result, results_anchored, RunResult, RunStatus,
    ToolArg, ToolStatus, Turn};

verus! {

/// The options a run is configured with; immutable for the run's duration.
/// Temperature is carried in thousandths, so `0..=1000` spans `0.0..=1.0`;
/// the driver converts at the backend boundary.
#[derive(Debug, Clone, Copy, PartialEq, Eq, Structural)]
pub struct AgentConfig {
    pub max_iterations: u32,
    pub per_step_timeout_ms: u64,
    pub total_timeout_ms: u64,
    pub model_selector: ModelSelector,
    pub temperature_permille: u32,
}

/// A usable configuration: at least one iteration, temperature within scale.
pub open spec fn config_valid(c: AgentConfig) -> bool {
    c.max_iterations > 0 && c.temperature_permille <= 1000
}

/// Where the state machine stands. `Done` and `Aborted` are terminal.
#[derive(Debug, Clone, Copy, PartialEq, Eq, Structural)]
pub enum LoopState {
    Reasoning,
    Acting,
    Observing,
    Done,
    Aborted,
}

/// The text a failed tool invocation surfaces to the next reasoning call.
pub open spec fn tool_failure_text(e: ToolError) -> Seq<char> {
    match e {
        ToolError::ToolTimeout => "tool timed out"@,
        ToolError::ToolExecutionError { detail } => "tool execution failed: "@ + detail@,
        ToolError::UnknownTool => "unknown tool"@,
        ToolError::ArgumentValidationError => "argument validation failed"@,
        ToolError::DuplicateTool => "duplicate tool"@,
    }
}

/// One agent run: the loop's state, its transcript, and its budgets.
pub struct React {
    config: AgentConfig,
    registry: ToolRegistry,
    request: String,
    transcript: Vec<Turn>,
    state: LoopState,
    iterations: u32,
    elapsed_ms: u64,
    answer: Option<String>,
    abort: Option<RunStatus>,
}

impl React {
    pub closed spec fn config_v(&self) -> AgentConfig {
        self.config
    }

    pub closed spec fn registry_v(&self) -> ToolRegistry {
        self.registry
    }

    pub closed spec fn request_v(&self) -> Seq<char> {
        self.request@
    }

    pub closed spec fn transcript_v(&self) -> Seq<Turn> {
        self.transcript@
    }

    pub closed spec fn state_v(&self) -> LoopState {
        self.state
    }

    pub closed spec fn iterations_v(&self) -> u32 {
        self.iterations
    }

    pub closed spec fn elapsed_v(&self) -> u64 {
        self.elapsed_ms
    }

    /// The final answer of a completed run.
    pub closed spec fn answer_of(&self) -> Seq<char>
        recommends
            self.state_v() is Done,
    {
        self.answer->0@
    }

    /// The terminal status: `Completed` for a finished run, else the abort
    /// status.
    pub closed spec fn status_v(&self) -> RunStatus {
        if self.state is Aborted {
            self.abort->0
        } else {
            RunStatus::Completed
        }
    }

    /// The run's internal consistency: the transcript is well-shaped for
    /// the current state, the iteration counter counts its `ToolCall`
    /// turns, and the count never exceeds the budget.
    pub closed spec fn wf(&self) -> bool {
        &&& self.registry.wf()
        &&& config_valid(self.config)
        &&& self.iterations as nat == count_tool_calls(self.transcript@)
        &&& self.iterations <= self.config.max_iterations
        &&& results_anchored(self.transcript@)
        &&& match self.state {
            LoopState::Reasoning => calls_paired(self.transcript@) && self.iterations
                < self.config.max_iterations,
            LoopState::Acting => self.transcript@.len() >= 1 && self.transcript@.last()
                is ToolCall && calls_paired(self.transcript@.drop_last()),
            LoopState::Observing => self.transcript@.len() >= 1 && self.transcript@.last()
                is ToolResult && calls_paired(self.transcript@),
            LoopState::Done => calls_paired(self.transcript@),
            LoopState::Aborted => calls_paired(self.transcript@),
        }
        &&& self.state is Done ==> self.answer is Some
        &&& !(self.state is Done) ==> self.answer is None
        &&& self.state is Aborted <==> self.abort is Some
    }

    /// Starts a run: an empty transcript, in the reasoning state.
    pub fn new(request: String, registry: ToolRegistry, config: AgentConfig) -> (r: Self)
        requires
            registry.wf(),
            config_valid(config),
        ensures
            r.wf(),
            r.state_v() == LoopState::Reasoning,
            r.transcript_v() == Seq::<Turn>::empty(),
            r.config_v() == config,
            r.registry_v() == registry,
            r.request_v() == request@,
            r.iterations_v() == 0,
            r.elapsed_v() == 0,
    {
        let r = React {
            config,
            registry,
            request,
            transcript: Vec::new(),
            state: LoopState::Reasoning,
            iterations: 0,
            elapsed_ms: 0,
            answer: Option::None,
            abort: Option::None,
        };
        proof {
            assert(r.transcript@ =~= Seq::<Turn>::empty());
        }
        r
    }

    pub fn state(&self) -> (r: LoopState)
        ensures
            r == self.state_v(),
    {
        self.state
    }

    pub fn transcript(&self) -> (r: &Vec<Turn>)
        ensures
            r@ == self.transcript_v(),
    {
        &self.transcript
    }

    pub fn config(&self) -> (r: &AgentConfig)
        ensures
            *r == self.config_v(),
    {
        &self.config
    }

    /// The prompt for the next backend call, built deterministically from
    /// the request and the transcript so far, oldest turn first.
    pub fn prompt(&self) -> (r: String)
        requires
            self.wf(),
            self.state_v() is Reasoning,
        ensures
            r@ == prompt_of(self.request_v(), self.transcript_v()),
    {
        build_prompt(self.request.as_str(), &self.transcript)
    }

    /// The backend call itself failed (transport or API error): fatal, the
    /// run aborts with `ReasoningError` and the transcript stays as it was.
    pub fn on_backend_failure(&mut self)
        requires
            old(self).wf(),
            old(self).state_v() is Reasoning,
        ensures
            final(self).wf(),
            final(self).state_v() is Aborted,
            final(self).status_v() == RunStatus::ReasoningError,
            final(self).transcript_v() == old(self).transcript_v(),
            final(self).config_v() == old(self).config_v(),
            final(self).iterations_v() == old(self).iterations_v(),
    {
        self.state = LoopState::Aborted;
        self.abort = Option::Some(RunStatus::ReasoningError);
    }

    /// Takes the backend's response text. The response is recorded as a
    /// `ReasoningStep`; a well-formed final answer finishes the run, a
    /// well-formed call of a registered tool appends a `ToolCall` (answered
    /// at once by a failed `ToolResult` when its arguments break the tool's
    /// schema), and anything else is a malformed decision: the run aborts
    /// with `ReasoningError` and no `ToolCall` is appended.
    pub fn on_backend_text(&mut self, text: String)
        requires
            old(self).wf(),
            old(self).state_v() is Reasoning,
        ensures
            final(self).wf(),
            final(self).config_v() == old(self).config_v(),
            final(self).request_v() == old(self).request_v(),
            final(self).registry_v() == old(self).registry_v(),
            final(self).elapsed_v() == old(self).elapsed_v(),
            final(self).transcript_v().len() >= old(self).transcript_v().len() + 1,
            final(self).transcript_v()[old(self).transcript_v().len() as int] == (
            Turn::ReasoningStep { thought: text }),
            (!wellformed_decision(text@) || (is_act(text@) && !old(self).registry_v().has_tool(
                act_tool(text@),
            ))) ==> {
                &&& final(self).transcript_v() == old(self).transcript_v().push(
                    (Turn::ReasoningStep { thought: text }),
                )
                &&& final(self).state_v() is Aborted
                &&& final(self).status_v() == RunStatus::ReasoningError
                &&& final(self).iterations_v() == old(self).iterations_v()
            },
            is_finish(text@) ==> {
                &&& final(self).transcript_v() == old(self).transcript_v().push(
                    (Turn::ReasoningStep { thought: text }),
                )
                &&& final(self).state_v() is Done
                &&& final(self).answer_of() == finish_answer(text@)
                &&& final(self).iterations_v() == old(self).iterations_v()
            },
            (is_act(text@) && old(self).registry_v().has_tool(act_tool(text@))) ==> {
                &&& final(self).iterations_v() == old(self).iterations_v() + 1
                &&& final(self).transcript_v()[old(self).transcript_v().len() as int + 1] matches
                    Turn::ToolCall { tool_name, arguments } && tool_name@ == act_tool(text@)
                    && arguments.deep_view() == act_args(text@) && (if args_valid(
                    old(self).registry_v().tool_named(act_tool(text@)),
                    arguments@,
                ) {
                    &&& final(self).transcript_v().len() == old(self).transcript_v().len() + 2
                    &&& final(self).state_v() is Acting
                } else {
                    &&& final(self).transcript_v().len() == old(self).transcript_v().len() + 3
                    &&& final(self).transcript_v().last() matches Turn::ToolResult {
                        raw_output,
                        status,
                    } && status is Failure && raw_output@ == tool_failure_text(
                        ToolError::ArgumentValidationError,
                    )
                    &&& final(self).state_v() is Observing
                })
            },
    {
        proof {
            reveal_strlit("finish");
            reveal_strlit("act");
            assert("finish"@.len() == 6 && "act"@.len() == 3);
        }
        let parsed = parse_decision(text.as_str(), &self.registry);
        let ghost t0 = self.transcript@;
        let ghost rs: Turn = Turn::ReasoningStep { thought: text };
        self.transcript.push(Turn::ReasoningStep { thought: text });
        proof {
            lemma_paired_push_plain(t0, rs);
            lemma_anchored_push(t0, rs);
            lemma_count_tool_calls_push(t0, rs);
        }
        match parsed {
            Result::Err(_) => {
                self.state = LoopState::Aborted;
                self.abort = Option::Some(RunStatus::ReasoningError);
            },
            Result::Ok(StepDecision::Finish { answer }) => {
                self.state = LoopState::Done;
                self.answer = Option::Some(answer);
            },
            Result::Ok(StepDecision::Act { tool_name, arguments }) => {
                let valid = match self.registry.lookup(&tool_name) {
                    Option::Some(sp) => validate_args(sp, &arguments),
                    Option::None => unreached(),
                };
                let ghost t1 = self.transcript@;
                let ghost tc: Turn = Turn::ToolCall { tool_name, arguments };
                self.transcript.push(Turn::ToolCall { tool_name, arguments });
                proof {
                    lemma_anchored_push(t1, tc);
                    lemma_count_tool_calls_push(t1, tc);
                    assert(self.transcript@.drop_last() =~= t1);
                }
                self.iterations = self.iterations + 1;
                if valid {
                    self.state = LoopState::Acting;
                } else {
                    let ghost t2 = self.transcript@;
                    let failed = Turn::ToolResult {
                        raw_output: String::from_str("argument validation failed"),
                        status: ToolStatus::Failure,
                    };
                    let ghost tr: Turn = failed;
                    self.transcript.push(failed);
                    proof {
                        lemma_paired_push_result(t2, tr);
                        lemma_anchored_push(t2, tr);
                        lemma_count_tool_calls_push(t2, tr);
                    }
                    self.state = LoopState::Observing;
                }
            },
        }
    }

    /// Adds time the driver spent at a suspension point — a backend call —
    /// to the spent budget (saturating). Tool time arrives with the tool's
    /// outcome instead; either way the budget is checked before the next
    /// reasoning call.
    pub fn note_elapsed(&mut self, duration_ms: u64)
        requires
            old(self).wf(),
        ensures
            final(self).wf(),
            final(self).config_v() == old(self).config_v(),
            final(self).request_v() == old(self).request_v(),
            final(self).registry_v() == old(self).registry_v(),
            final(self).transcript_v() == old(self).transcript_v(),
            final(self).state_v() == old(self).state_v(),
            final(self).status_v() == old(self).status_v(),
            final(self).iterations_v() == old(self).iterations_v(),
            final(self).elapsed_v() as int == if old(self).elapsed_v() + duration_ms > u64::MAX {
                u64::MAX as int
            } else {
                old(self).elapsed_v() + duration_ms
            },
    {
        if duration_ms > u64::MAX - self.elapsed_ms {
            self.elapsed_ms = u64::MAX;
        } else {
            self.elapsed_ms = self.elapsed_ms + duration_ms;
        }
    }

    /// The call the driver must execute: the tool name and arguments of the
    /// pending `ToolCall`, to be run within `per_step_timeout_ms`.
    pub fn pending_call(&self) -> (r: (&String, &Vec<ToolArg>))
        requires
            self.wf(),
            self.state_v() is Acting,
        ensures
            self.transcript_v().last() matches Turn::ToolCall { tool_name, arguments }
                && *r.0 == tool_name && *r.1 == arguments,
    {
        let n = self.transcript.len();
        match &self.transcript[n - 1] {
            Turn::ToolCall { tool_name, arguments } => (tool_name, arguments),
            _ => unreached(),
        }
    }

    /// Takes the outcome of the pending tool call. Success and failure are
    /// both recorded as a `ToolResult` — a tool-layer failure is
    /// recoverable, never an abort — and the reported duration is added to
    /// the spent budget (saturating).
    pub fn on_tool_outcome(&mut self, outcome: Result<String, ToolError>, duration_ms: u64)
        requires
            old(self).wf(),
            old(self).state_v() is Acting,
            outcome matches Result::Err(e) ==> (e is ToolTimeout || e is ToolExecutionError),
        ensures
            final(self).wf(),
            final(self).state_v() is Observing,
            final(self).config_v() == old(self).config_v(),
            final(self).request_v() == old(self).request_v(),
            final(self).registry_v() == old(self).registry_v(),
            final(self).iterations_v() == old(self).iterations_v(),
            final(self).transcript_v().len() == old(self).transcript_v().len() + 1,
            final(self).transcript_v().drop_last() == old(self).transcript_v(),
            final(self).transcript_v().last() matches Turn::ToolResult { raw_output, status }
                && (match outcome {
                Result::Ok(out) => raw_output@ == out@ && status is Success,
                Result::Err(e) => raw_output@ == tool_failure_text(e) && status is Failure,
            }),
            final(self).elapsed_v() as int == if old(self).elapsed_v() + duration_ms > u64::MAX {
                u64::MAX as int
            } else {
                old(self).elapsed_v() + duration_ms
            },
    {
        let turn = match outcome {
            Result::Ok(out) => Turn::ToolResult { raw_output: out, status: ToolStatus::Success },
            Result::Err(ToolError::ToolTimeout) => Turn::ToolResult {
                raw_output: String::from_str("tool timed out"),
                status: ToolStatus::Failure,
            },
            Result::Err(ToolError::ToolExecutionError { detail }) => Turn::ToolResult {
                raw_output: String::from_str("tool execution failed: ").concat(detail.as_str()),
                status: ToolStatus::Failure,
            },
            Result::Err(_) => unreached(),
        };
        let ghost t0 = self.transcript@;
        let ghost tr: Turn = turn;
        self.transcript.push(turn);
        proof {
            lemma_paired_push_result(t0, tr);
            lemma_anchored_push(t0, tr);
            lemma_count_tool_calls_push(t0, tr);
            assert(self.transcript@.drop_last() =~= t0);
        }
        if duration_ms > u64::MAX - self.elapsed_ms {
            self.elapsed_ms = u64::MAX;
        } else {
            self.elapsed_ms = self.elapsed_ms + duration_ms;
        }
        self.state = LoopState::Observing;
    }

    /// Filters the raw output of the last `ToolResult` into a bounded
    /// `Observation`, then re-enters reasoning — unless a budget is spent:
    /// a full iteration budget aborts with `IterationLimitExceeded`, a
    /// spent time budget with `TimedOut`, instead of another reasoning call.
    pub fn observe(&mut self)
        requires
            old(self).wf(),
            old(self).state_v() is Observing,
        ensures
            final(self).wf(),
            final(self).config_v() == old(self).config_v(),
            final(self).request_v() == old(self).request_v(),
            final(self).registry_v() == old(self).registry_v(),
            final(self).iterations_v() == old(self).iterations_v(),
            final(self).elapsed_v() == old(self).elapsed_v(),
            final(self).transcript_v().len() == old(self).transcript_v().len() + 1,
            final(self).transcript_v().drop_last() == old(self).transcript_v(),
            final(self).transcript_v().last() matches Turn::Observation { filtered_text } && (
            old(self).transcript_v().last() matches Turn::ToolResult { raw_output, .. }
                && filtered_text@ == filter_spec(raw_output@, OBSERVATION_MAX_LEN as nat)
                && filtered_text@.len() <= OBSERVATION_MAX_LEN),
            final(self).state_v() == if old(self).iterations_v()
                >= old(self).config_v().max_iterations {
                LoopState::Aborted
            } else if old(self).elapsed_v() >= old(self).config_v().total_timeout_ms {
                LoopState::Aborted
            } else {
                LoopState::Reasoning
            },
            final(self).state_v() is Aborted ==> final(self).status_v() == (if old(
                self,
            ).iterations_v() >= old(self).config_v().max_iterations {
                RunStatus::IterationLimitExceeded
            } else {
                RunStatus::TimedOut
            }),
    {
        let n = self.transcript.len();
        let filtered = match &self.transcript[n - 1] {
            Turn::ToolResult { raw_output, .. } => filter(raw_output.as_str(), OBSERVATION_MAX_LEN),
            _ => unreached(),
        };
        let ghost t0 = self.transcript@;
        let ghost ob: Turn = Turn::Observation { filtered_text: filtered };
        self.transcript.push(Turn::Observation { filtered_text: filtered });
        proof {
            lemma_paired_push_plain(t0, ob);
            lemma_anchored_push(t0, ob);
            lemma_count_tool_calls_push(t0, ob);
            assert(self.transcript@.drop_last() =~= t0);
        }
        if self.iterations >= self.config.max_iterations {
            self.state = LoopState::Aborted;
            self.abort = Option::Some(RunStatus::IterationLimitExceeded);
        } else if self.elapsed_ms >= self.config.total_timeout_ms {
            self.state = LoopState::Aborted;
            self.abort = Option::Some(RunStatus::TimedOut);
        } else {
            self.state = LoopState::Reasoning;
        }
    }

    /// Hands the run back to the caller: the answer when completed, the
    /// full transcript, and the terminal status. The emitted transcript
    /// keeps every `ToolCall` paired with its `ToolResult`, and its
    /// `ToolCall` count never exceeds the iteration budget.
    pub fn into_result(self) -> (r: RunResult)
        requires
            self.wf(),
            self.state_v() is Done || self.state_v() is Aborted,
        ensures
            r.transcript@ == self.transcript_v(),
            r.status == self.status_v(),
            self.state_v() is Done ==> r.status == RunStatus::Completed && (r.answer matches
                Option::Some(a) && a@ == self.answer_of()),
            self.state_v() is Aborted ==> r.answer is None,
            calls_paired(r.transcript@),
            count_tool_calls(r.transcript@) <= self.config_v().max_iterations as nat,
    {
        let status = match self.state {
            LoopState::Done => RunStatus::Completed,
            LoopState::Aborted => match self.abort {
                Option::Some(s) => s,
                Option::None => unreached(),
            },
            _ => unreached(),
        };
        RunResult { answer: self.answer, transcript: self.transcript, status }
    }
}

/// Every terminal run keeps each `ToolCall` immediately answered by a
/// `ToolResult`, and never holds more `ToolCall` turns than the iteration
/// budget allows.
pub proof fn lemma_terminal_transcript(r: &React)
    requires
        r.wf(),
        r.state_v() is Done || r.state_v() is Aborted,
    ensures
        calls_paired(r.transcript_v()),
        count_tool_calls(r.transcript_v()) <= r.config_v().max_iterations as nat,
{
}

/// Decides what to do next; implementations wrap a reasoning backend.
pub trait Reasoner {
    fn reason(&self, input: &str) -> String;
}

/// Performs an action; implementations wrap tool execution.
pub trait Actor {
    fn act(&self, input: &str) -> String;
}

/// Interprets raw tool output before it re-enters reasoning; every
/// implementation returns a bounded text.
pub trait Observer {
    spec fn bound(&self) -> nat;

    fn observe(&self, input: &str) -> (r: String)
        ensures
            r@.len() <= self.bound(),
    ;
}

/// A minimal action wrapper that merely labels its input.
pub struct SimpleActor {}

/// Filters tool output through the observation filter.
pub struct SimpleObserver {}

impl Actor for SimpleActor {
    fn act(&self, input: &str) -> String {
        String::from_str("Acting on ").concat(input)
    }
}

impl Observer for SimpleObserver {
    open spec fn bound(&self) -> nat {
        OBSERVATION_MAX_LEN as nat
    }

    fn observe(&self, input: &str) -> (r: String)
        ensures
            r@.len() <= self.bound(),
    {
        filter(input, OBSERVATION_MAX_LEN)
    }
}

} // verus!
