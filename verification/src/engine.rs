//! The reasoning engine: builds the prompt for a chat-completion backend
//! deterministically from the request and the transcript (oldest turn
//! first), and parses the backend's response text into a step decision.
//! The network call itself is the driver's job; swapping the backend
//! variant never changes the parsing contract.
//!
//! The response wire shape is line-based: a decision whose first line is
//! `finish` carries the answer in the remaining text; one whose first line
//! is `act` names a tool on its second line and one `name=value` argument
//! per further line. A value reading `true` or `false` is a boolean, one of
//! 1 to 18 decimal digits is an integer, anything else is text.

use vstd::prelude::*;
use crate::registry::ToolRegistry;
use crate::text::{digits_val, find_char, first_pos, is_digits, lemma_digits_val_bound,
    lemma_pow10_18_bound, lemma_pow10_increases, parse_decimal, split_into_lines, split_lines};
use crate::turns::{ArgValue, ArgValueView, ToolArg, ToolArgView, Turn};

verus! {

/// Which interchangeable chat-completion backend a call goes to.
#[derive(Debug, Clone, Copy, PartialEq, Eq, Structural)]
pub enum ModelSelector {
    OpenAi,
    Gemini,
}

/// What a reasoning step proposes: invoke a tool, or finish with an answer.
#[derive(Debug, Clone)]
pub enum StepDecision {
    Act { tool_name: String, arguments: Vec<ToolArg> },
    Finish { answer: String },
}

/// The failures of the reasoning layer; both are fatal to a run.
#[derive(Debug, Clone)]
pub enum ReasonError {
    ReasoningBackendError { detail: String },
    MalformedDecision,
}

/// The response text announces a final answer: its first line is `finish`.
pub open spec fn is_finish(s: Seq<char>) -> bool {
    split_lines(s)[0] == "finish"@
}

/// The answer a `finish` response carries: everything after its first line.
pub open spec fn finish_answer(s: Seq<char>) -> Seq<char> {
    if first_pos(s, '\n') < s.len() {
        s.subrange(first_pos(s, '\n') as int + 1, s.len() as int)
    } else {
        Seq::<char>::empty()
    }
}

/// An argument line carries an `=` separating name from value.
pub open spec fn arg_line_ok(l: Seq<char>) -> bool {
    first_pos(l, '=') < l.len()
}

/// How a value text is typed: `true`/`false` as booleans, 1 to 18 decimal
/// digits as an integer, anything else as text.
pub open spec fn value_of(v: Seq<char>) -> ArgValueView {
    if v == "true"@ {
        ArgValueView::Boolean(true)
    } else if v == "false"@ {
        ArgValueView::Boolean(false)
    } else if is_digits(v) && 1 <= v.len() <= 18 {
        ArgValueView::Integer(digits_val(v) as u64)
    } else {
        ArgValueView::Text(v)
    }
}

/// The argument an argument line denotes: name before the first `=`, value
/// after it.
pub open spec fn arg_of_line(l: Seq<char>) -> ToolArgView {
    let e = first_pos(l, '=') as int;
    ToolArgView { name: l.subrange(0, e), value: value_of(l.subrange(e + 1, l.len() as int)) }
}

/// The response text is a well-formed tool call: first line `act`, a second
/// line naming the tool, and every further line a `name=value` argument.
pub open spec fn is_act(s: Seq<char>) -> bool {
    let ls = split_lines(s);
    &&& ls[0] == "act"@
    &&& ls.len() >= 2
    &&& forall|k: int| 2 <= k < ls.len() ==> arg_line_ok(#[trigger] ls[k])
}

/// The tool a well-formed `act` response names.
pub open spec fn act_tool(s: Seq<char>) -> Seq<char> {
    split_lines(s)[1]
}

/// The arguments a well-formed `act` response carries, in line order.
pub open spec fn act_args(s: Seq<char>) -> Seq<ToolArgView> {
    split_lines(s).skip(2).map_values(|l: Seq<char>| arg_of_line(l))
}

/// A response is well-formed when it is a final answer or a tool call.
pub open spec fn wellformed_decision(s: Seq<char>) -> bool {
    is_finish(s) || is_act(s)
}

/// What one turn contributes to the prompt.
pub open spec fn turn_text(t: Turn) -> Seq<char> {
    match t {
        Turn::ReasoningStep { thought } => "thought: "@ + thought@,
        Turn::ToolCall { tool_name, .. } => "call: "@ + tool_name@,
        Turn::ToolResult { raw_output, status } => (if status is Success {
            "result: "@
        } else {
            "failed: "@
        }) + raw_output@,
        Turn::Observation { filtered_text } => "observation: "@ + filtered_text@,
    }
}

/// The prompt: the user request, then each turn on its own line, oldest
/// first. Built deterministically from request and transcript alone.
pub open spec fn prompt_of(request: Seq<char>, ts: Seq<Turn>) -> Seq<char>
    decreases ts.len(),
{
    if ts.len() == 0 {
        request
    } else {
        prompt_of(request, ts.drop_last()) + seq!['\n'] + turn_text(ts.last())
    }
}

/// Serializes the request and the transcript into the backend prompt.
pub fn build_prompt(request: &str, transcript: &Vec<Turn>) -> (r: String)
    ensures
        r@ == prompt_of(request@, transcript@),
{
    let ghost ts = transcript@;
    let mut r = request.to_owned();
    let mut i: usize = 0;
    while i < transcript.len()
        invariant
            ts == transcript@,
            i <= ts.len(),
            r@ == prompt_of(request@, ts.take(i as int)),
        decreases ts.len() - i,
    {
        r.append("\n");
        proof {
            reveal_strlit("\n");
            assert("\n"@ =~= seq!['\n']);
        }
        match &transcript[i] {
            Turn::ReasoningStep { thought } => {
                r.append("thought: ");
                r.append(thought.as_str());
            },
            Turn::ToolCall { tool_name, .. } => {
                r.append("call: ");
                r.append(tool_name.as_str());
            },
            Turn::ToolResult { raw_output, status } => {
                if *status == crate::turns::ToolStatus::Success {
                    r.append("result: ");
                } else {
                    r.append("failed: ");
                }
                r.append(raw_output.as_str());
            },
            Turn::Observation { filtered_text } => {
                r.append("observation: ");
                r.append(filtered_text.as_str());
            },
        }
        proof {
            assert(ts.take(i + 1).drop_last() =~= ts.take(i as int));
            assert(ts.take(i + 1).last() == ts[i as int]);
        }
        i += 1;
    }
    proof {
        assert(ts.take(ts.len() as int) =~= ts);
    }
    r
}

/// Types a value text: booleans, then integers, then plain text.
fn classify_value(v: &str) -> (r: ArgValue)
    ensures
        r.deep_view() == value_of(v@),
{
    let owned = v.to_owned();
    if owned == String::from_str("true") {
        return ArgValue::Boolean(true);
    }
    if owned == String::from_str("false") {
        return ArgValue::Boolean(false);
    }
    match parse_decimal(v) {
        Option::Some(x) => {
            proof {
                lemma_digits_val_bound(v@);
                lemma_pow10_increases(v@.len(), 18);
                lemma_pow10_18_bound();
            }
            ArgValue::Integer(x)
        },
        Option::None => ArgValue::Text(owned),
    }
}

/// Parses a backend response into a decision. Fails with
/// `MalformedDecision` exactly when the response is neither a well-formed
/// final answer nor a well-formed tool call, or when it names a tool that
/// was never registered.
pub fn parse_decision(response: &str, registry: &ToolRegistry) -> (r: Result<
    StepDecision,
    ReasonError,
>)
    ensures
        match r {
            Result::Ok(d) => match d {
                StepDecision::Finish { answer } => is_finish(response@) && answer@
                    == finish_answer(response@),
                StepDecision::Act { tool_name, arguments } => is_act(response@) && tool_name@
                    == act_tool(response@) && arguments.deep_view() == act_args(response@)
                    && registry.has_tool(tool_name@),
            },
            Result::Err(e) => e is MalformedDecision && !(is_finish(response@) || (is_act(
                response@,
            ) && registry.has_tool(act_tool(response@)))),
        },
{
    let lines = split_into_lines(response);
    let ghost ls = split_lines(response@);
    proof {
        assert(lines.deep_view()[0] == lines@[0]@);
    }
    if lines[0] == String::from_str("finish") {
        let n = response.unicode_len();
        let p = find_char(response, '\n');
        let answer = if p < n {
            response.substring_char(p + 1, n).to_owned()
        } else {
            String::new()
        };
        return Result::Ok(StepDecision::Finish { answer });
    }
    if !(lines[0] == String::from_str("act")) || lines.len() < 2 {
        return Result::Err(ReasonError::MalformedDecision);
    }
    proof {
        assert(lines.deep_view()[1] == lines@[1]@);
    }
    let tool_name = lines[1].clone();
    let mut arguments: Vec<ToolArg> = Vec::new();
    let mut k: usize = 2;
    while k < lines.len()
        invariant
            ls == split_lines(response@),
            lines.deep_view() == ls,
            lines@.len() == ls.len(),
            2 <= k <= ls.len(),
            !is_finish(response@),
            ls[0] == "act"@,
            tool_name@ == ls[1],
            forall|j: int| 2 <= j < k ==> arg_line_ok(#[trigger] ls[j]),
            arguments.deep_view() == ls.subrange(2, k as int).map_values(
                |l: Seq<char>| arg_of_line(l),
            ),
        decreases ls.len() - k,
    {
        let ghost prev = arguments.deep_view();
        let line = &lines[k];
        proof {
            assert(lines.deep_view()[k as int] == lines@[k as int]@);
        }
        let llen = line.as_str().unicode_len();
        let e = find_char(line.as_str(), '=');
        if e >= llen {
            return Result::Err(ReasonError::MalformedDecision);
        }
        let name = line.as_str().substring_char(0, e).to_owned();
        let value = classify_value(line.as_str().substring_char(e + 1, llen));
        arguments.push(ToolArg { name, value });
        proof {
            assert(arguments.deep_view() =~= prev.push(arg_of_line(ls[k as int])));
            assert(ls.subrange(2, k + 1) =~= ls.subrange(2, k as int).push(ls[k as int]));
            assert(ls.subrange(2, k + 1).map_values(|l: Seq<char>| arg_of_line(l)) =~= ls.subrange(
                2,
                k as int,
            ).map_values(|l: Seq<char>| arg_of_line(l)).push(arg_of_line(ls[k as int])));
        }
        k += 1;
    }
    proof {
        assert(ls.subrange(2, ls.len() as int) =~= ls.skip(2));
        assert(is_act(response@));
    }
    match registry.lookup(&tool_name) {
        Option::Some(_) => Result::Ok(StepDecision::Act { tool_name, arguments }),
        Option::None => Result::Err(ReasonError::MalformedDecision),
    }
}

/// The engine facade: chooses nothing by itself — the backend clients live
/// with the driver — but owns prompt building and decision parsing.
pub struct SimpleReasoner {}

impl SimpleReasoner {
    pub fn new() -> (r: Self) {
        SimpleReasoner {  }
    }
}

impl crate::react::Reasoner for SimpleReasoner {
    fn reason(&self, input: &str) -> String {
        String::from_str("Reasoning about ").concat(input)
    }
}

} // verus!
