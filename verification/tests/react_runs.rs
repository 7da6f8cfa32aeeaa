use ai::engine::ModelSelector;
use ai::llm_tasks::{LlmTaskErrors, LlmTasks};
use ai::react::{AgentConfig, LoopState, React};
use ai::registry::ToolRegistry;
use ai::turns::{RunStatus, ToolStatus, Turn};
use ai::web_tools::WebTools;

fn config(max_iterations: u32) -> AgentConfig {
    AgentConfig {
        max_iterations,
        per_step_timeout_ms: 1_000,
        total_timeout_ms: 60_000,
        model_selector: ModelSelector::OpenAi,
        temperature_permille: 500,
    }
}

fn search_registry() -> ToolRegistry {
    let mut registry = ToolRegistry::new();
    let tools = WebTools::new("http://localhost:8080/search".to_string());
    registry.register(tools.tool_spec()).unwrap();
    registry
}

#[test]
fn single_step_finish_returns_answer() {
    let tasks = LlmTasks::new("gpt-4o-mini", 500);
    let mut run = tasks.summarize("some long text");
    assert_eq!(run.state(), LoopState::Reasoning);
    assert_eq!(
        run.prompt(),
        "Summarize the following text: some long text"
    );
    run.on_backend_text("finish\n42".to_string());
    assert_eq!(run.state(), LoopState::Done);
    let answer = tasks.conclude(run).unwrap();
    assert_eq!(answer, "42");
}

#[test]
fn single_step_tool_call_is_malformed() {
    let tasks = LlmTasks::new("gpt-4o-mini", 500);
    let mut run = tasks.summarize("text");
    run.on_backend_text("act\nsearch\nquery=foo".to_string());
    assert_eq!(run.state(), LoopState::Aborted);
    let err = tasks.conclude(run);
    assert!(matches!(err, Err(LlmTaskErrors::SummaryError(_))));
}

#[test]
fn search_then_finish_produces_five_turn_transcript() {
    let mut run = React::new("find foo".to_string(), search_registry(), config(5));
    run.on_backend_text("act\nsearch\nquery=foo".to_string());
    assert_eq!(run.state(), LoopState::Acting);
    {
        let (name, args) = run.pending_call();
        assert_eq!(name.as_str(), "search");
        assert_eq!(args.len(), 1);
    }
    run.on_tool_outcome(Ok("first result".to_string()), 5);
    assert_eq!(run.state(), LoopState::Observing);
    run.observe();
    assert_eq!(run.state(), LoopState::Reasoning);
    run.on_backend_text("finish\ndone".to_string());
    assert_eq!(run.state(), LoopState::Done);
    let outcome = run.into_result();
    assert_eq!(outcome.status, RunStatus::Completed);
    assert_eq!(outcome.answer.as_deref(), Some("done"));
    assert_eq!(outcome.transcript.len(), 5);
    assert!(matches!(outcome.transcript[0], Turn::ReasoningStep { .. }));
    assert!(matches!(outcome.transcript[1], Turn::ToolCall { .. }));
    assert!(matches!(outcome.transcript[2], Turn::ToolResult { .. }));
    assert!(matches!(outcome.transcript[3], Turn::Observation { .. }));
    assert!(matches!(outcome.transcript[4], Turn::ReasoningStep { .. }));
}

#[test]
fn failing_tool_is_recoverable_not_fatal() {
    let mut run = React::new("find foo".to_string(), search_registry(), config(5));
    run.on_backend_text("act\nsearch\nquery=foo".to_string());
    run.on_tool_outcome(
        Err(ai::registry::ToolError::ToolExecutionError {
            detail: "backend unreachable".to_string(),
        }),
        7,
    );
    run.observe();
    assert_eq!(run.state(), LoopState::Reasoning);
    run.on_backend_text("finish\ngave up".to_string());
    let outcome = run.into_result();
    assert_eq!(outcome.status, RunStatus::Completed);
    assert_eq!(outcome.answer.as_deref(), Some("gave up"));
    match &outcome.transcript[2] {
        Turn::ToolResult { raw_output, status } => {
            assert_eq!(*status, ToolStatus::Failure);
            assert_eq!(raw_output, "tool execution failed: backend unreachable");
        }
        other => panic!("expected a tool result, got {:?}", other),
    }
    match &outcome.transcript[3] {
        Turn::Observation { filtered_text } => {
            assert_eq!(filtered_text, "tool execution failed: backend unreachable");
        }
        other => panic!("expected an observation, got {:?}", other),
    }
}

#[test]
fn iteration_budget_aborts_after_one_tool_call() {
    let mut run = React::new("find foo".to_string(), search_registry(), config(1));
    run.on_backend_text("act\nsearch\nquery=foo".to_string());
    run.on_tool_outcome(Ok("something".to_string()), 1);
    run.observe();
    assert_eq!(run.state(), LoopState::Aborted);
    let outcome = run.into_result();
    assert_eq!(outcome.status, RunStatus::IterationLimitExceeded);
    let tool_calls = outcome
        .transcript
        .iter()
        .filter(|t| matches!(t, Turn::ToolCall { .. }))
        .count();
    assert_eq!(tool_calls, 1);
}

#[test]
fn unknown_tool_aborts_without_tool_call() {
    let mut run = React::new("find foo".to_string(), search_registry(), config(5));
    run.on_backend_text("act\nnosuchtool\nquery=foo".to_string());
    assert_eq!(run.state(), LoopState::Aborted);
    let outcome = run.into_result();
    assert_eq!(outcome.status, RunStatus::ReasoningError);
    assert_eq!(outcome.transcript.len(), 1);
    assert!(matches!(outcome.transcript[0], Turn::ReasoningStep { .. }));
    assert!(outcome.answer.is_none());
}

#[test]
fn backend_failure_aborts_with_reasoning_error() {
    let mut run = React::new("find foo".to_string(), search_registry(), config(5));
    run.on_backend_failure();
    let outcome = run.into_result();
    assert_eq!(outcome.status, RunStatus::ReasoningError);
    assert!(outcome.transcript.is_empty());
}

#[test]
fn malformed_response_aborts() {
    let mut run = React::new("find foo".to_string(), search_registry(), config(5));
    run.on_backend_text("no idea what to do".to_string());
    let outcome = run.into_result();
    assert_eq!(outcome.status, RunStatus::ReasoningError);
}

#[test]
fn invalid_arguments_become_failed_tool_result() {
    let mut run = React::new("find foo".to_string(), search_registry(), config(5));
    run.on_backend_text("act\nsearch\nbogus=1".to_string());
    assert_eq!(run.state(), LoopState::Observing);
    run.observe();
    assert_eq!(run.state(), LoopState::Reasoning);
    run.on_backend_text("finish\nok".to_string());
    let outcome = run.into_result();
    assert_eq!(outcome.status, RunStatus::Completed);
    match &outcome.transcript[2] {
        Turn::ToolResult { raw_output, status } => {
            assert_eq!(*status, ToolStatus::Failure);
            assert_eq!(raw_output, "argument validation failed");
        }
        other => panic!("expected a tool result, got {:?}", other),
    }
}

#[test]
fn tool_timeout_is_recorded_as_failure() {
    let mut run = React::new("find foo".to_string(), search_registry(), config(5));
    run.on_backend_text("act\nsearch\nquery=foo".to_string());
    run.on_tool_outcome(Err(ai::registry::ToolError::ToolTimeout), 1_000);
    match &run.transcript()[2] {
        Turn::ToolResult { raw_output, status } => {
            assert_eq!(*status, ToolStatus::Failure);
            assert_eq!(raw_output, "tool timed out");
        }
        other => panic!("expected a tool result, got {:?}", other),
    }
    run.observe();
    assert_eq!(run.state(), LoopState::Reasoning);
}

#[test]
fn time_budget_aborts_with_timed_out() {
    let mut config = config(5);
    config.total_timeout_ms = 10;
    let mut run = React::new("find foo".to_string(), search_registry(), config);
    run.on_backend_text("act\nsearch\nquery=foo".to_string());
    run.on_tool_outcome(Ok("something".to_string()), 50);
    run.observe();
    assert_eq!(run.state(), LoopState::Aborted);
    let outcome = run.into_result();
    assert_eq!(outcome.status, RunStatus::TimedOut);
}

#[test]
fn backend_time_counts_against_budget() {
    let mut config = config(5);
    config.total_timeout_ms = 10;
    let mut run = React::new("find foo".to_string(), search_registry(), config);
    run.note_elapsed(50);
    run.on_backend_text("act\nsearch\nquery=foo".to_string());
    run.on_tool_outcome(Ok("something".to_string()), 0);
    run.observe();
    assert_eq!(run.state(), LoopState::Aborted);
    assert_eq!(run.into_result().status, RunStatus::TimedOut);
}

#[test]
fn prompt_serializes_transcript_oldest_first() {
    let mut run = React::new("q".to_string(), search_registry(), config(5));
    run.on_backend_text("act\nsearch\nquery=a".to_string());
    run.on_tool_outcome(Ok("out".to_string()), 1);
    run.observe();
    assert_eq!(
        run.prompt(),
        "q\nthought: act\nsearch\nquery=a\ncall: search\nresult: out\nobservation: out"
    );
}
