use ai::engine::{parse_decision, ReasonError, SimpleReasoner, StepDecision};
use ai::filter::filter;
use ai::react::{Actor, Observer, Reasoner, SimpleActor, SimpleObserver};
use ai::registry::{ParamSpec, ParamType, ToolError, ToolRegistry, ToolSpec};
use ai::scraper::Scraper;
use ai::turns::{ArgValue, ToolArg};
use ai::web_tools::{SearchQuery, WebTools};

fn typed_registry() -> ToolRegistry {
    let mut registry = ToolRegistry::new();
    registry
        .register(ToolSpec {
            name: "search".to_string(),
            params: vec![
                ParamSpec {
                    name: "query".to_string(),
                    ty: ParamType::Text,
                    required: true,
                },
                ParamSpec {
                    name: "limit".to_string(),
                    ty: ParamType::Integer,
                    required: false,
                },
                ParamSpec {
                    name: "fresh".to_string(),
                    ty: ParamType::Boolean,
                    required: false,
                },
            ],
        })
        .unwrap();
    registry
}

#[test]
fn filter_collapses_consecutive_duplicate_lines() {
    assert_eq!(filter("a\na\nb", 100), "a\nb");
    assert_eq!(filter("a\nb\na", 100), "a\nb\na");
    assert_eq!(filter("same\nsame\nsame\nsame", 100), "same");
}

#[test]
fn filter_truncates_at_sentence_boundary() {
    assert_eq!(filter("hello. world and more", 10), "hello.");
    assert_eq!(filter("abcdefghijkl", 5), "abcde");
    assert_eq!(filter("ab\nab\nab", 6), "ab\n");
    assert_eq!(filter("anything", 0), "");
    assert_eq!(filter("", 10), "");
}

#[test]
fn filter_is_bounded() {
    let noisy = "word ".repeat(100);
    for n in [0usize, 1, 7, 50, 499] {
        assert!(filter(&noisy, n).chars().count() <= n);
    }
}

#[test]
fn filter_is_idempotent_on_samples() {
    let samples = [
        "line one\nline one\nline two. and more text that runs long",
        "a.b.\na.b.cd",
        "no newline at all, just one very long run of text.......",
        "",
    ];
    for x in samples {
        for n in [0usize, 3, 5, 10, 1000] {
            let once = filter(x, n);
            assert_eq!(filter(&once, n), once);
        }
    }
}

#[test]
fn registry_rejects_duplicate_names() {
    let mut registry = typed_registry();
    let again = ToolSpec {
        name: "search".to_string(),
        params: vec![],
    };
    assert!(matches!(
        registry.register(again),
        Err(ToolError::DuplicateTool)
    ));
    assert_eq!(registry.len(), 1);
}

#[test]
fn registry_checks_invocations() {
    let registry = typed_registry();
    let name = "search".to_string();
    let good = vec![ToolArg {
        name: "query".to_string(),
        value: ArgValue::Text("foo".to_string()),
    }];
    assert!(registry.check_invocation(&name, &good).is_ok());

    let missing_required: Vec<ToolArg> = vec![];
    assert!(matches!(
        registry.check_invocation(&name, &missing_required),
        Err(ToolError::ArgumentValidationError)
    ));

    let wrong_type = vec![ToolArg {
        name: "query".to_string(),
        value: ArgValue::Integer(3),
    }];
    assert!(matches!(
        registry.check_invocation(&name, &wrong_type),
        Err(ToolError::ArgumentValidationError)
    ));

    let extra = vec![
        ToolArg {
            name: "query".to_string(),
            value: ArgValue::Text("foo".to_string()),
        },
        ToolArg {
            name: "surprise".to_string(),
            value: ArgValue::Boolean(true),
        },
    ];
    assert!(matches!(
        registry.check_invocation(&name, &extra),
        Err(ToolError::ArgumentValidationError)
    ));

    let unknown = "nosuchtool".to_string();
    assert!(matches!(
        registry.check_invocation(&unknown, &good),
        Err(ToolError::UnknownTool)
    ));
}

#[test]
fn parse_reads_finish_and_act() {
    let registry = typed_registry();
    match parse_decision("finish\nthe answer\nwith two lines", &registry) {
        Ok(StepDecision::Finish { answer }) => assert_eq!(answer, "the answer\nwith two lines"),
        other => panic!("expected a finish decision, got {:?}", other),
    }
    match parse_decision("finish", &registry) {
        Ok(StepDecision::Finish { answer }) => assert_eq!(answer, ""),
        other => panic!("expected a finish decision, got {:?}", other),
    }
    match parse_decision(
        "act\nsearch\nquery=rust verifier\nlimit=12\nfresh=true",
        &registry,
    ) {
        Ok(StepDecision::Act {
            tool_name,
            arguments,
        }) => {
            assert_eq!(tool_name, "search");
            assert_eq!(arguments.len(), 3);
            assert_eq!(arguments[0].name, "query");
            assert!(
                matches!(&arguments[0].value, ArgValue::Text(t) if t == "rust verifier")
            );
            assert!(matches!(arguments[1].value, ArgValue::Integer(12)));
            assert!(matches!(arguments[2].value, ArgValue::Boolean(true)));
        }
        other => panic!("expected an act decision, got {:?}", other),
    }
}

#[test]
fn parse_rejects_malformed_responses() {
    let registry = typed_registry();
    for bad in [
        "no idea",
        "act",
        "act\nnosuchtool\nquery=x",
        "act\nsearch\nno separator here",
        "",
    ] {
        assert!(matches!(
            parse_decision(bad, &registry),
            Err(ReasonError::MalformedDecision)
        ));
    }
}

#[test]
fn parse_types_values_by_shape() {
    let registry = typed_registry();
    match parse_decision(
        "act\nsearch\nquery=false alarm\nlimit=9999999999999999999\nfresh=false",
        &registry,
    ) {
        Ok(StepDecision::Act { arguments, .. }) => {
            assert!(
                matches!(&arguments[0].value, ArgValue::Text(t) if t == "false alarm")
            );
            // 19 digits do not fit the integer shape and stay text.
            assert!(
                matches!(&arguments[1].value, ArgValue::Text(t) if t == "9999999999999999999")
            );
            assert!(matches!(arguments[2].value, ArgValue::Boolean(false)));
        }
        other => panic!("expected an act decision, got {:?}", other),
    }
}

#[test]
fn web_tools_build_query_params() {
    let full = SearchQuery {
        query: "verus".to_string(),
        time_range: Some("week".to_string()),
        website: Some("example.org".to_string()),
    };
    let params = WebTools::search_params(&full);
    assert_eq!(
        params,
        vec![
            ("query".to_string(), "verus".to_string()),
            ("time_range".to_string(), "week".to_string()),
            ("website".to_string(), "example.org".to_string()),
        ]
    );
    let bare = SearchQuery {
        query: "verus".to_string(),
        time_range: None,
        website: None,
    };
    assert_eq!(
        WebTools::search_params(&bare),
        vec![("query".to_string(), "verus".to_string())]
    );
}

#[test]
fn capability_specs_describe_their_tools() {
    let tools = WebTools::new("http://localhost:1234".to_string());
    assert_eq!(tools.endpoint_url().as_str(), "http://localhost:1234");
    let spec = tools.tool_spec();
    assert_eq!(spec.name, "search");
    assert_eq!(spec.params.len(), 3);
    assert!(spec.params[0].required);
    assert!(!spec.params[1].required);

    let scraper = Scraper::new("http://localhost:1234".to_string());
    let spec = scraper.tool_spec();
    assert_eq!(spec.name, "scrape");
    assert_eq!(spec.params.len(), 1);
    assert_eq!(spec.params[0].name, "url");
}

#[test]
fn simple_components_behave() {
    let reasoner = SimpleReasoner::new();
    assert_eq!(reasoner.reason("x"), "Reasoning about x");
    let actor = SimpleActor {};
    assert_eq!(actor.act("x"), "Acting on x");
    let observer = SimpleObserver {};
    assert_eq!(observer.observe("a\na\nb"), filter("a\na\nb", 2000));
}
