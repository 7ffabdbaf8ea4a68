use flow_api::profiles::{
    available_fields, extract_field, field_def, field_registry, is_valid_field,
    legacy_type_to_field, migrate_profiles, ComparisonOp, FieldKind, FieldValue, FilterLogic,
    FilterValue, Number, SessionAggregates, SessionFilter, SessionProfile,
};

fn num(x: f64) -> Number {
    Number::from_f64_bits(x.to_bits())
}

fn n(x: f64) -> Option<FilterValue> {
    Some(FilterValue::Number(num(x)))
}

fn s(t: &str) -> Option<FilterValue> {
    Some(FilterValue::Text(t.into()))
}

fn filter(field: &str, op: Option<ComparisonOp>, value: Option<FilterValue>) -> SessionFilter {
    SessionFilter { field: field.into(), op, value }
}

fn prof(name: &str, logic: FilterLogic, filters: Vec<SessionFilter>) -> SessionProfile {
    SessionProfile { id: uuid::Uuid::new_v4().as_u128(), name: name.into(), logic, filters }
}

fn matched_names(profiles: &[SessionProfile], agg: &SessionAggregates) -> Vec<String> {
    profiles.iter().filter(|p| p.matches(agg)).map(|p| p.name.clone()).collect()
}

fn default_agg() -> SessionAggregates {
    SessionAggregates {
        error_count: num(0.0),
        avg_latency_ms: num(0.0),
        max_latency_ms: num(0.0),
        total_cost: num(0.0),
        avg_cost_per_call: num(0.0),
        providers: vec![],
        models: vec![],
        prompt_config_ids: vec![],
        fallback_count: num(0.0),
        guardrail_count: num(0.0),
        tool_call_count: num(0.0),
        tool_names: vec![],
        labels: vec![],
    }
}

fn strs(v: &[&str]) -> Vec<String> {
    v.iter().map(|x| x.to_string()).collect()
}

fn make_profiles() -> Vec<SessionProfile> {
    vec![
        prof("has-errors", FilterLogic::And, vec![filter("errors.count", Some(ComparisonOp::Gte), n(1.0))]),
        prof("high-cost", FilterLogic::And, vec![filter("cost.total", Some(ComparisonOp::Gte), n(5.0))]),
        prof("slow", FilterLogic::And, vec![filter("latency.avg_ms", Some(ComparisonOp::Gt), n(1000.0))]),
        prof(
            "cheap-errors",
            FilterLogic::And,
            vec![
                filter("errors.count", Some(ComparisonOp::Gte), n(1.0)),
                filter("cost.total", Some(ComparisonOp::Lt), n(1.0)),
            ],
        ),
        prof("uses-openai", FilterLogic::And, vec![filter("provider.names", None, s("openai"))]),
        prof("uses-gpt4", FilterLogic::And, vec![filter("model.names", None, s("gpt-4o"))]),
        prof("uses-sonnet", FilterLogic::And, vec![filter("model.names", None, s("sonnet-4"))]),
        prof("empty-filters", FilterLogic::And, vec![]),
    ]
}

fn has(v: &[String], name: &str) -> bool {
    v.iter().any(|x| x == name)
}

#[test]
fn error_session_matches_correct_profiles() {
    let agg = SessionAggregates {
        error_count: num(3.0),
        avg_latency_ms: num(2000.0),
        max_latency_ms: num(8000.0),
        total_cost: num(0.40),
        avg_cost_per_call: num(0.04),
        providers: strs(&["openai"]),
        models: strs(&["gpt-4o"]),
        ..default_agg()
    };
    let matched = matched_names(&make_profiles(), &agg);
    assert!(has(&matched, "has-errors"));
    assert!(has(&matched, "slow"));
    assert!(has(&matched, "cheap-errors"));
    assert!(has(&matched, "uses-openai"));
    assert!(has(&matched, "uses-gpt4"));
    assert!(!has(&matched, "high-cost"));
    assert!(!has(&matched, "uses-sonnet"));
    assert!(!has(&matched, "empty-filters"));
}

#[test]
fn expensive_session_matches_only_cost_profile() {
    let agg = SessionAggregates {
        error_count: num(0.0),
        avg_latency_ms: num(200.0),
        max_latency_ms: num(400.0),
        total_cost: num(12.50),
        avg_cost_per_call: num(1.25),
        providers: strs(&["anthropic"]),
        models: strs(&["sonnet-4"]),
        ..default_agg()
    };
    let matched = matched_names(&make_profiles(), &agg);
    assert!(has(&matched, "high-cost"));
    assert!(has(&matched, "uses-sonnet"));
    assert!(!has(&matched, "has-errors"));
    assert!(!has(&matched, "slow"));
    assert!(!has(&matched, "cheap-errors"));
    assert!(!has(&matched, "uses-openai"));
    assert!(!has(&matched, "uses-gpt4"));
}

#[test]
fn perfect_session_matches_nothing() {
    let agg = SessionAggregates {
        avg_latency_ms: num(50.0),
        max_latency_ms: num(100.0),
        total_cost: num(0.01),
        avg_cost_per_call: num(0.001),
        providers: strs(&["local"]),
        models: strs(&["local-model"]),
        ..default_agg()
    };
    let matched = matched_names(&make_profiles(), &agg);
    assert!(matched.is_empty(), "expected no matches, got: {:?}", matched);
}

#[test]
fn multi_model_session() {
    let agg = SessionAggregates {
        avg_latency_ms: num(500.0),
        max_latency_ms: num(900.0),
        total_cost: num(2.00),
        avg_cost_per_call: num(0.20),
        providers: strs(&["openai", "anthropic"]),
        models: strs(&["gpt-4o", "sonnet-4"]),
        ..default_agg()
    };
    let matched = matched_names(&make_profiles(), &agg);
    assert!(has(&matched, "uses-openai"));
    assert!(has(&matched, "uses-gpt4"));
    assert!(has(&matched, "uses-sonnet"));
    assert!(!has(&matched, "has-errors"));
    assert!(!has(&matched, "slow"));
    assert!(!has(&matched, "high-cost"));
}

#[test]
fn or_vs_and_logic_with_same_filters() {
    let filters = || {
        vec![
            filter("errors.count", Some(ComparisonOp::Gte), n(1.0)),
            filter("cost.total", Some(ComparisonOp::Gte), n(100.0)),
        ]
    };
    let profiles = vec![
        prof("and-profile", FilterLogic::And, filters()),
        prof("or-profile", FilterLogic::Or, filters()),
    ];
    let agg = SessionAggregates {
        error_count: num(1.0),
        avg_latency_ms: num(100.0),
        max_latency_ms: num(200.0),
        total_cost: num(0.10),
        avg_cost_per_call: num(0.01),
        ..default_agg()
    };
    let matched = matched_names(&profiles, &agg);
    assert!(!has(&matched, "and-profile"), "AND should fail when only one filter passes");
    assert!(has(&matched, "or-profile"), "OR should pass when one filter passes");
}

#[test]
fn comparison_operator_boundaries() {
    let threshold = 1500.0;
    let profiles = vec![
        prof("lt-1500", FilterLogic::And, vec![filter("latency.avg_ms", Some(ComparisonOp::Lt), n(threshold))]),
        prof("lte-1500", FilterLogic::And, vec![filter("latency.avg_ms", Some(ComparisonOp::Lte), n(threshold))]),
        prof("gt-1500", FilterLogic::And, vec![filter("latency.avg_ms", Some(ComparisonOp::Gt), n(threshold))]),
        prof("gte-1500", FilterLogic::And, vec![filter("latency.avg_ms", Some(ComparisonOp::Gte), n(threshold))]),
    ];
    let at = |v: f64| SessionAggregates { avg_latency_ms: num(v), max_latency_ms: num(v), ..default_agg() };
    let m = matched_names(&profiles, &at(1500.0));
    assert!(!has(&m, "lt-1500"), "1500 is not < 1500");
    assert!(has(&m, "lte-1500"), "1500 is <= 1500");
    assert!(!has(&m, "gt-1500"), "1500 is not > 1500");
    assert!(has(&m, "gte-1500"), "1500 is >= 1500");
    let m = matched_names(&profiles, &at(1499.0));
    assert!(has(&m, "lt-1500"));
    assert!(has(&m, "lte-1500"));
    assert!(!has(&m, "gt-1500"));
    assert!(!has(&m, "gte-1500"));
    let m = matched_names(&profiles, &at(1501.0));
    assert!(!has(&m, "lt-1500"));
    assert!(!has(&m, "lte-1500"));
    assert!(has(&m, "gt-1500"));
    assert!(has(&m, "gte-1500"));
}

#[test]
fn all_numeric_filter_types() {
    let profiles = vec![
        prof("avg-latency", FilterLogic::And, vec![filter("latency.avg_ms", Some(ComparisonOp::Gt), n(500.0))]),
        prof("max-latency", FilterLogic::And, vec![filter("latency.max_ms", Some(ComparisonOp::Gt), n(3000.0))]),
        prof("total-cost", FilterLogic::And, vec![filter("cost.total", Some(ComparisonOp::Gte), n(1.0))]),
        prof("avg-cost", FilterLogic::And, vec![filter("cost.avg_per_call", Some(ComparisonOp::Gte), n(0.10))]),
    ];
    let agg = SessionAggregates {
        avg_latency_ms: num(800.0),
        max_latency_ms: num(4000.0),
        total_cost: num(2.50),
        avg_cost_per_call: num(0.25),
        ..default_agg()
    };
    let m = matched_names(&profiles, &agg);
    for name in ["avg-latency", "max-latency", "total-cost", "avg-cost"] {
        assert!(has(&m, name));
    }
}

#[test]
fn prompt_filter() {
    let profiles = vec![
        prof("uses-prompt-abc", FilterLogic::And, vec![filter("prompt.ids", None, s("prompt-abc"))]),
        prof("uses-prompt-xyz", FilterLogic::And, vec![filter("prompt.ids", None, s("prompt-xyz"))]),
    ];
    let agg = SessionAggregates { prompt_config_ids: strs(&["prompt-abc"]), ..default_agg() };
    let m = matched_names(&profiles, &agg);
    assert!(has(&m, "uses-prompt-abc"));
    assert!(!has(&m, "uses-prompt-xyz"));
}

#[test]
fn edge_case_missing_value_defaults_to_zero_threshold() {
    let profiles = vec![prof("no-value", FilterLogic::And, vec![filter("latency.avg_ms", None, None)])];
    let agg = SessionAggregates { avg_latency_ms: num(100.0), ..default_agg() };
    assert!(has(&matched_names(&profiles, &agg), "no-value"));
}

#[test]
fn edge_case_string_filter_with_empty_value_never_matches() {
    let profiles = vec![
        prof("empty-model", FilterLogic::And, vec![filter("model.names", None, s(""))]),
        prof("null-model", FilterLogic::And, vec![filter("model.names", None, None)]),
    ];
    let agg = SessionAggregates { models: strs(&["gpt-4o"]), ..default_agg() };
    assert!(matched_names(&profiles, &agg).is_empty(), "empty/null model value should never match");
}

#[test]
fn migrate_converts_legacy_types() {
    let mut profiles = vec![prof(
        "legacy",
        FilterLogic::And,
        vec![
            filter("has_errors", None, None),
            filter("avg_latency_ms", Some(ComparisonOp::Gt), n(1000.0)),
            filter("model", None, s("gpt-4o")),
        ],
    )];
    migrate_profiles(&mut profiles);
    assert_eq!(profiles[0].filters[0].field, "errors.count");
    assert_eq!(profiles[0].filters[0].op, Some(ComparisonOp::Gte));
    match &profiles[0].filters[0].value {
        Some(FilterValue::Number(v)) => assert_eq!(*v, num(1.0)),
        other => panic!("expected the number 1, got {other:?}"),
    }
    assert_eq!(profiles[0].filters[1].field, "latency.avg_ms");
    assert_eq!(profiles[0].filters[2].field, "model.names");
}

#[test]
fn tools_filter_numeric() {
    let profiles = vec![prof("many-tools", FilterLogic::And, vec![filter("tools.count", Some(ComparisonOp::Gte), n(3.0))])];
    let agg = SessionAggregates { tool_call_count: num(5.0), ..default_agg() };
    assert!(has(&matched_names(&profiles, &agg), "many-tools"));
    let agg2 = SessionAggregates { tool_call_count: num(1.0), ..default_agg() };
    assert!(matched_names(&profiles, &agg2).is_empty());
}

#[test]
fn tools_filter_set() {
    let profiles = vec![prof("uses-search", FilterLogic::And, vec![filter("tools.names", None, s("search"))])];
    let agg = SessionAggregates { tool_names: strs(&["search", "get"]), ..default_agg() };
    assert!(has(&matched_names(&profiles, &agg), "uses-search"));
}

#[test]
fn fallback_and_guardrail_filters() {
    let profiles = vec![
        prof("has-fallbacks", FilterLogic::And, vec![filter("fallback.count", Some(ComparisonOp::Gte), n(1.0))]),
        prof("has-guardrails", FilterLogic::And, vec![filter("guardrail.count", Some(ComparisonOp::Gte), n(1.0))]),
    ];
    let agg = SessionAggregates { fallback_count: num(2.0), guardrail_count: num(0.0), ..default_agg() };
    let m = matched_names(&profiles, &agg);
    assert!(has(&m, "has-fallbacks"));
    assert!(!has(&m, "has-guardrails"));
}

#[test]
fn unknown_field_never_matches() {
    let profiles = vec![prof("bogus", FilterLogic::And, vec![filter("bogus.field", Some(ComparisonOp::Gte), n(1.0))])];
    assert!(matched_names(&profiles, &default_agg()).is_empty());
}

#[test]
fn available_fields_returns_all_registered() {
    let fields = available_fields();
    assert!(fields.len() >= 13);
    assert!(fields.iter().any(|f| f.field == "tools.count"));
    assert!(fields.iter().any(|f| f.field == "errors.count"));
    assert!(fields.iter().any(|f| f.field == "fallback.count"));
    assert!(fields.iter().any(|f| f.field == "labels.names"));
}

#[test]
fn migrate_is_idempotent() {
    let mut profiles = vec![prof("legacy", FilterLogic::And, vec![filter("has_errors", None, None)])];
    migrate_profiles(&mut profiles);
    let field_after_first = profiles[0].filters[0].field.clone();
    let op_after_first = profiles[0].filters[0].op;
    let value_after_first = format!("{:?}", profiles[0].filters[0].value);
    migrate_profiles(&mut profiles);
    assert_eq!(profiles[0].filters[0].field, field_after_first);
    assert_eq!(profiles[0].filters[0].op, op_after_first);
    assert_eq!(format!("{:?}", profiles[0].filters[0].value), value_after_first);
}

#[test]
fn migrate_leaves_new_style_filters_unchanged() {
    let mut profiles = vec![prof(
        "modern",
        FilterLogic::And,
        vec![
            filter("errors.count", Some(ComparisonOp::Gte), n(5.0)),
            filter("tools.names", None, s("search")),
        ],
    )];
    migrate_profiles(&mut profiles);
    assert_eq!(profiles[0].filters[0].field, "errors.count");
    assert_eq!(profiles[0].filters[0].op, Some(ComparisonOp::Gte));
    match &profiles[0].filters[0].value {
        Some(FilterValue::Number(v)) => assert_eq!(*v, num(5.0)),
        other => panic!("expected the number 5, got {other:?}"),
    }
    assert_eq!(profiles[0].filters[1].field, "tools.names");
}

#[test]
fn migrate_all_legacy_types() {
    let legacy_types = vec![
        ("has_errors", "errors.count"),
        ("avg_latency_ms", "latency.avg_ms"),
        ("max_latency_ms", "latency.max_ms"),
        ("avg_cost_per_call", "cost.avg_per_call"),
        ("total_cost", "cost.total"),
        ("model", "model.names"),
        ("provider", "provider.names"),
        ("prompt", "prompt.ids"),
    ];
    for (legacy, expected) in &legacy_types {
        let mut profiles = vec![prof("test", FilterLogic::And, vec![filter(legacy, Some(ComparisonOp::Gte), n(1.0))])];
        migrate_profiles(&mut profiles);
        assert_eq!(profiles[0].filters[0].field, *expected, "Legacy type '{}' should migrate to '{}'", legacy, expected);
        assert_eq!(legacy_type_to_field(legacy), Some(*expected));
    }
}

#[test]
fn field_registry_kinds_are_correct() {
    let numeric_fields = [
        "errors.count",
        "latency.avg_ms",
        "latency.max_ms",
        "cost.total",
        "cost.avg_per_call",
        "fallback.count",
        "guardrail.count",
        "tools.count",
    ];
    for f in &numeric_fields {
        assert_eq!(field_def(f).unwrap().kind, FieldKind::Numeric, "Field {} should be Numeric", f);
    }
    let set_fields = ["model.names", "provider.names", "prompt.ids", "tools.names", "labels.names"];
    for f in &set_fields {
        assert_eq!(field_def(f).unwrap().kind, FieldKind::StrSet, "Field {} should be a set", f);
    }
    assert_eq!(field_registry().len(), 13);
    assert!(is_valid_field("tools.names"));
    assert!(!is_valid_field("bogus.field"));
}

#[test]
fn field_extraction_returns_correct_values() {
    let agg = SessionAggregates {
        error_count: num(7.0),
        avg_latency_ms: num(250.0),
        max_latency_ms: num(1200.0),
        total_cost: num(3.14),
        avg_cost_per_call: num(0.42),
        providers: strs(&["openai"]),
        models: strs(&["gpt-4o"]),
        prompt_config_ids: strs(&["p1"]),
        fallback_count: num(2.0),
        guardrail_count: num(1.0),
        tool_call_count: num(10.0),
        tool_names: strs(&["search", "get"]),
        labels: strs(&["support"]),
    };
    match extract_field("errors.count", &agg).unwrap() {
        FieldValue::Numeric(v) => assert_eq!(v, num(7.0)),
        _ => panic!("Expected Numeric"),
    }
    match extract_field("tools.count", &agg).unwrap() {
        FieldValue::Numeric(v) => assert_eq!(v, num(10.0)),
        _ => panic!("Expected Numeric"),
    }
    match extract_field("tools.names", &agg).unwrap() {
        FieldValue::StrSet(v) => {
            assert!(v.contains(&"search".to_string()));
            assert!(v.contains(&"get".to_string()));
        }
        _ => panic!("Expected a set"),
    }
    match extract_field("cost.total", &agg).unwrap() {
        FieldValue::Numeric(v) => assert_eq!(v, num(3.14)),
        _ => panic!("Expected Numeric"),
    }
}

#[test]
fn combined_tool_and_error_profile() {
    let profiles = vec![prof(
        "error-with-tools",
        FilterLogic::And,
        vec![
            filter("errors.count", Some(ComparisonOp::Gte), n(1.0)),
            filter("tools.count", Some(ComparisonOp::Gte), n(1.0)),
            filter("tools.names", None, s("dangerous_tool")),
        ],
    )];
    let agg_match = SessionAggregates {
        error_count: num(2.0),
        tool_call_count: num(3.0),
        tool_names: strs(&["dangerous_tool", "safe_tool"]),
        ..default_agg()
    };
    assert!(has(&matched_names(&profiles, &agg_match), "error-with-tools"));
    let agg_no_tool = SessionAggregates {
        error_count: num(2.0),
        tool_call_count: num(3.0),
        tool_names: strs(&["safe_tool"]),
        ..default_agg()
    };
    assert!(matched_names(&profiles, &agg_no_tool).is_empty());
    let agg_no_errors = SessionAggregates {
        tool_call_count: num(3.0),
        tool_names: strs(&["dangerous_tool"]),
        ..default_agg()
    };
    assert!(matched_names(&profiles, &agg_no_errors).is_empty());
}

#[test]
fn numeric_filter_with_zero_threshold() {
    let profiles = vec![prof("any-tools", FilterLogic::And, vec![filter("tools.count", Some(ComparisonOp::Gt), n(0.0))])];
    let agg_with_tools = SessionAggregates { tool_call_count: num(1.0), ..default_agg() };
    assert!(has(&matched_names(&profiles, &agg_with_tools), "any-tools"));
    assert!(matched_names(&profiles, &default_agg()).is_empty());
}

#[test]
fn labels_filter_matches_when_label_present() {
    let profiles = vec![
        prof("has-support", FilterLogic::And, vec![filter("labels.names", None, s("support"))]),
        prof("has-billing", FilterLogic::And, vec![filter("labels.names", None, s("billing"))]),
    ];
    let agg = SessionAggregates { labels: strs(&["support", "onboarding"]), ..default_agg() };
    let m = matched_names(&profiles, &agg);
    assert!(has(&m, "has-support"));
    assert!(!has(&m, "has-billing"));
}

#[test]
fn labels_filter_no_match_when_labels_empty() {
    let profiles = vec![prof("has-support", FilterLogic::And, vec![filter("labels.names", None, s("support"))])];
    assert!(matched_names(&profiles, &default_agg()).is_empty());
}

#[test]
fn labels_combined_with_other_filters() {
    let profiles = vec![
        prof(
            "costly-support",
            FilterLogic::And,
            vec![filter("labels.names", None, s("support")), filter("cost.total", Some(ComparisonOp::Gte), n(5.0))],
        ),
        prof(
            "support-or-expensive",
            FilterLogic::Or,
            vec![filter("labels.names", None, s("support")), filter("cost.total", Some(ComparisonOp::Gte), n(100.0))],
        ),
    ];
    let cheap = SessionAggregates { labels: strs(&["support"]), total_cost: num(1.0), ..default_agg() };
    let m = matched_names(&profiles, &cheap);
    assert!(!has(&m, "costly-support"), "AND: support present but cost too low");
    assert!(has(&m, "support-or-expensive"), "OR: support label satisfies one branch");
    let pricey = SessionAggregates { labels: strs(&["support"]), total_cost: num(10.0), ..default_agg() };
    let m = matched_names(&profiles, &pricey);
    assert!(has(&m, "costly-support"), "AND: both label and cost match");
    assert!(has(&m, "support-or-expensive"), "OR: both branches match");
}

#[test]
fn labels_extraction_returns_correct_values() {
    let agg = SessionAggregates { labels: strs(&["support", "billing"]), ..default_agg() };
    match extract_field("labels.names", &agg).unwrap() {
        FieldValue::StrSet(v) => {
            assert!(v.contains(&"support".to_string()));
            assert!(v.contains(&"billing".to_string()));
            assert_eq!(v.len(), 2);
        }
        _ => panic!("Expected a set"),
    }
}

#[test]
fn negative_and_nan_numbers_order_as_floats() {
    let profiles = vec![prof("neg", FilterLogic::And, vec![filter("cost.total", Some(ComparisonOp::Lt), n(0.0))])];
    let agg = SessionAggregates { total_cost: num(-1.5), ..default_agg() };
    assert!(has(&matched_names(&profiles, &agg), "neg"));
    let nan = SessionAggregates { total_cost: num(f64::NAN), ..default_agg() };
    assert!(matched_names(&profiles, &nan).is_empty());
    assert_eq!(num(-0.0), num(0.0));
}
