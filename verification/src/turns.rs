//! The transcript data model: the turns a run appends, the terminal statuses,
//! and the well-formedness conditions every emitted transcript satisfies.

use vstd::prelude::*;

verus! {

/// A value handed to a tool parameter.
#[derive(Debug, Clone)]
pub enum ArgValue {
    Text(String),
    Integer(u64),
    Boolean(bool),
}

/// A named argument of a tool call.
#[derive(Debug, Clone)]
pub struct ToolArg {
    pub name: String,
    pub value: ArgValue,
}

/// The mathematical value of an `ArgValue`: text as its character sequence.
pub enum ArgValueView {
    Text(Seq<char>),
    Integer(u64),
    Boolean(bool),
}

/// The mathematical value of a `ToolArg`.
pub struct ToolArgView {
    pub name: Seq<char>,
    pub value: ArgValueView,
}

impl DeepView for ArgValue {
    type V = ArgValueView;

    open spec fn deep_view(&self) -> ArgValueView {
        match self {
            ArgValue::Text(s) => ArgValueView::Text(s@),
            ArgValue::Integer(v) => ArgValueView::Integer(*v),
            ArgValue::Boolean(b) => ArgValueView::Boolean(*b),
        }
    }
}

impl DeepView for ToolArg {
    type V = ToolArgView;

    open spec fn deep_view(&self) -> ToolArgView {
        ToolArgView { name: self.name@, value: self.value.deep_view() }
    }
}

/// Whether a tool invocation produced its output or failed.
#[derive(Debug, Clone, Copy, PartialEq, Eq, Structural)]
pub enum ToolStatus {
    Success,
    Failure,
}

/// One atomic event of a run's transcript. A `ReasoningStep` records the
/// backend's response text, which carries the proposed action or the final
/// answer; each turn is immutable once appended.
#[derive(Debug, Clone)]
pub enum Turn {
    ReasoningStep { thought: String },
    ToolCall { tool_name: String, arguments: Vec<ToolArg> },
    ToolResult { raw_output: String, status: ToolStatus },
    Observation { filtered_text: String },
}

/// How a run ended.
#[derive(Debug, Clone, Copy, PartialEq, Eq, Structural)]
pub enum RunStatus {
    Completed,
    IterationLimitExceeded,
    TimedOut,
    ToolError,
    ReasoningError,
}

/// What a run hands back: the answer when it completed, the full transcript,
/// and the terminal status. A caller always receives one of these, never an
/// unstructured crash.
#[derive(Debug, Clone)]
pub struct RunResult {
    pub answer: Option<String>,
    pub transcript: Vec<Turn>,
    pub status: RunStatus,
}

/// Every `ToolCall` turn is immediately followed by a `ToolResult` turn —
/// in particular before any subsequent `ReasoningStep`.
pub open spec fn calls_paired(ts: Seq<Turn>) -> bool {
    forall|i: int| #![trigger ts[i]]
        0 <= i < ts.len() && ts[i] is ToolCall ==> i + 1 < ts.len() && ts[i + 1] is ToolResult
}

/// Every `ToolResult` turn stands immediately after the `ToolCall` it answers,
/// and every `Observation` immediately after a `ToolResult`.
pub open spec fn results_anchored(ts: Seq<Turn>) -> bool {
    &&& forall|i: int| #![trigger ts[i]]
        0 <= i < ts.len() && ts[i] is ToolResult ==> i >= 1 && ts[i - 1] is ToolCall
    &&& forall|i: int| #![trigger ts[i]]
        0 <= i < ts.len() && ts[i] is Observation ==> i >= 1 && ts[i - 1] is ToolResult
}

/// The number of `ToolCall` turns in a transcript.
pub open spec fn count_tool_calls(ts: Seq<Turn>) -> nat
    decreases ts.len(),
{
    if ts.len() == 0 {
        0
    } else {
        count_tool_calls(ts.drop_last()) + if ts.last() is ToolCall {
            1nat
        } else {
            0nat
        }
    }
}

/// Appending anything but a `ToolCall` keeps every call paired.
pub proof fn lemma_paired_push_plain(ts: Seq<Turn>, t: Turn)
    requires
        calls_paired(ts),
        !(t is ToolCall),
    ensures
        calls_paired(ts.push(t)),
{
    let p = ts.push(t);
    assert forall|i: int| #![trigger p[i]] 0 <= i < p.len() && p[i] is ToolCall implies i + 1
        < p.len() && p[i + 1] is ToolResult by {
        assert(p[i] == ts[i]);
        assert(p[i + 1] == ts[i + 1]);
    }
}

/// Appending the `ToolResult` that answers a trailing `ToolCall` restores
/// pairing for the whole transcript.
pub proof fn lemma_paired_push_result(ts: Seq<Turn>, r: Turn)
    requires
        ts.len() >= 1,
        ts.last() is ToolCall,
        calls_paired(ts.drop_last()),
        r is ToolResult,
    ensures
        calls_paired(ts.push(r)),
{
    let p = ts.push(r);
    assert forall|i: int| #![trigger p[i]] 0 <= i < p.len() && p[i] is ToolCall implies i + 1
        < p.len() && p[i + 1] is ToolResult by {
        if i < ts.len() - 1 {
            assert(ts.drop_last()[i] == p[i]);
            assert(ts.drop_last()[i + 1] == p[i + 1]);
        } else if i == ts.len() - 1 {
            assert(p[i + 1] == r);
        }
    }
}

/// Appending a turn keeps every `ToolResult` and `Observation` anchored, as
/// long as the new turn itself lands behind the right predecessor.
pub proof fn lemma_anchored_push(ts: Seq<Turn>, t: Turn)
    requires
        results_anchored(ts),
        t is ToolResult ==> ts.len() >= 1 && ts.last() is ToolCall,
        t is Observation ==> ts.len() >= 1 && ts.last() is ToolResult,
    ensures
        results_anchored(ts.push(t)),
{
    let p = ts.push(t);
    assert forall|i: int| #![trigger p[i]] 0 <= i < p.len() && p[i] is ToolResult implies i >= 1
        && p[i - 1] is ToolCall by {
        if i < ts.len() {
            assert(p[i] == ts[i]);
        }
        assert(p[i - 1] == if i - 1 < ts.len() {
            ts[i - 1]
        } else {
            t
        });
    }
    assert forall|i: int| #![trigger p[i]] 0 <= i < p.len() && p[i] is Observation implies i >= 1
        && p[i - 1] is ToolResult by {
        if i < ts.len() {
            assert(p[i] == ts[i]);
        }
        assert(p[i - 1] == if i - 1 < ts.len() {
            ts[i - 1]
        } else {
            t
        });
    }
}

/// In a paired transcript, a `ToolCall`'s `ToolResult` stands between it
/// and any subsequent `ReasoningStep`.
pub proof fn lemma_result_before_next_reasoning(ts: Seq<Turn>, i: int, j: int)
    requires
        calls_paired(ts),
        0 <= i < j < ts.len(),
        ts[i] is ToolCall,
        ts[j] is ReasoningStep,
    ensures
        i + 1 < j,
        ts[i + 1] is ToolResult,
{
}

pub proof fn lemma_count_tool_calls_push(ts: Seq<Turn>, t: Turn)
    ensures
        count_tool_calls(ts.push(t)) == count_tool_calls(ts) + if t is ToolCall {
            1nat
        } else {
            0nat
        },
{
    assert(ts.push(t).drop_last() =~= ts);
}

} // verus!
