use flow_api::compiler::{
    attempt_of_candidate, check_cancel_target, compile_report_start, compile_rounds, compile_source,
    derive_optimization_target, finished_compilation, optimization_target_for, rounds_used,
    stored_filter_fields, task_result_reading,
    CandidatePrompt, TaskResultReading,
};
use flow_api::errors::ApiError;
use flow_api::compiler::{
    build_generation_prompt, candidates_json_text, decomposition_json_texts, hint_text,
    is_compilation_cancelled_err, CandidateSearch, DecompStep, Decomposition, OptimizationTarget,
    PreviousAttempt,
};
use flow_api::profiles::Number;

fn num(x: f64) -> Number {
    Number::from_f64_bits(x.to_bits())
}

fn attempt(prompt: &str, reasoning: &str, score: f64) -> PreviousAttempt {
    PreviousAttempt {
        system_prompt: prompt.into(),
        reasoning: reasoning.into(),
        score: num(score),
        score_text: format!("{:.3}", score),
    }
}

/// The candidates a reply yields: the JSON text the library selects, read
/// as an array of objects with `system_prompt` and `reasoning` strings.
fn parse_candidates(input: &str) -> Vec<(String, String)> {
    let text = candidates_json_text(input);
    let v: serde_json::Value = match serde_json::from_str(&text) {
        Ok(v) => v,
        Err(_) => return vec![],
    };
    let Some(items) = v.as_array() else { return vec![] };
    let mut out = vec![];
    for item in items {
        match (item.get("system_prompt").and_then(|s| s.as_str()), item.get("reasoning").and_then(|s| s.as_str())) {
            (Some(p), Some(r)) => out.push((p.to_string(), r.to_string())),
            _ => return vec![],
        }
    }
    out
}

fn step_names(v: &serde_json::Value) -> Option<Vec<String>> {
    let items = v.as_array()?;
    let mut out = vec![];
    for item in items {
        for key in ["name", "description", "inputs", "output"] {
            item.get(key)?.as_str()?;
        }
        out.push(item.get("name")?.as_str()?.to_string());
    }
    Some(out)
}

/// The step names a decomposition reply yields: the object form first, then
/// a bare array, else none.
fn parse_decomposition(input: &str) -> Vec<String> {
    let texts = decomposition_json_texts(input);
    if let Some(obj) = texts.object {
        if let Ok(v) = serde_json::from_str::<serde_json::Value>(&obj) {
            if let Some(names) = v.get("steps").and_then(step_names) {
                return names;
            }
        }
    }
    if let Some(arr) = texts.array {
        if let Ok(v) = serde_json::from_str::<serde_json::Value>(&arr) {
            if let Some(names) = step_names(&v) {
                return names;
            }
        }
    }
    vec![]
}

#[test]
fn gen_prompt_contains_source() {
    let prompt = build_generation_prompt("You are a helpful assistant.", None, &[], None);
    assert!(prompt.contains("You are a helpful assistant."));
    assert!(prompt.contains("generally improved variants"));
}

#[test]
fn gen_prompt_with_hint() {
    let prompt = build_generation_prompt("test", Some("Minimize error rate"), &[], None);
    assert!(prompt.contains("Minimize error rate"));
    assert!(!prompt.contains("generally improved"));
}

#[test]
fn gen_prompt_includes_history() {
    let history = vec![
        attempt("attempt one", "tried adding examples", 0.6),
        attempt("attempt two", "simplified instructions", 0.8),
    ];
    let prompt = build_generation_prompt("original", None, &history, None);
    assert!(prompt.contains("PREVIOUS ATTEMPTS"));
    assert!(prompt.contains("tried adding examples"));
    assert!(prompt.contains("simplified instructions"));
    let pos_06 = prompt.find("0.600").unwrap();
    let pos_08 = prompt.find("0.800").unwrap();
    assert!(pos_06 < pos_08);
}

#[test]
fn gen_prompt_no_history_no_attempts_section() {
    let prompt = build_generation_prompt("test", Some("Minimize cost"), &[], None);
    assert!(!prompt.contains("PREVIOUS ATTEMPTS"));
    assert!(prompt.contains("Minimize cost"));
}

#[test]
fn gen_prompt_with_decomposition() {
    let decomp = Decomposition {
        steps: vec![
            DecompStep {
                name: "extract_intent".into(),
                description: "Identify what the user wants".into(),
                inputs: "user message".into(),
                output: "intent classification".into(),
            },
            DecompStep {
                name: "generate_response".into(),
                description: "Produce the answer".into(),
                inputs: "intent + context".into(),
                output: "final response".into(),
            },
        ],
    };
    let prompt = build_generation_prompt("test prompt", Some("Improve quality"), &[], Some(&decomp));
    assert!(prompt.contains("DECOMPOSITION"));
    assert!(prompt.contains("extract_intent"));
    assert!(prompt.contains("generate_response"));
    assert!(prompt.contains("step-by-step structure"));
}

#[test]
fn gen_prompt_empty_decomposition_no_section() {
    let decomp = Decomposition { steps: vec![] };
    let prompt = build_generation_prompt("test", None, &[], Some(&decomp));
    assert!(!prompt.contains("DECOMPOSITION"));
}

#[test]
fn gen_prompt_orders_attempts_worst_first_and_keeps_ties_in_order() {
    let history = vec![
        attempt("p1", "best", 0.9),
        attempt("p2", "tie-a", 0.5),
        attempt("p3", "tie-b", 0.5),
    ];
    let prompt = build_generation_prompt("src", None, &history, None);
    let a = prompt.find("tie-a").unwrap();
    let b = prompt.find("tie-b").unwrap();
    let c = prompt.find("Reasoning: best").unwrap();
    assert!(a < b && b < c);
    assert!(prompt.contains("--- Attempt 1 (score: 0.500) ---"));
}

#[test]
fn parse_valid_json() {
    let input = r#"[{"system_prompt": "hello", "reasoning": "simplified"}]"#;
    let candidates = parse_candidates(input);
    assert_eq!(candidates.len(), 1);
    assert_eq!(candidates[0].0, "hello");
    assert_eq!(candidates[0].1, "simplified");
}

#[test]
fn parse_fenced_json() {
    let input = "```json\n[{\"system_prompt\": \"hi\", \"reasoning\": \"test\"}]\n```";
    assert_eq!(parse_candidates(input).len(), 1);
}

#[test]
fn parse_malformed_returns_empty() {
    assert!(parse_candidates("this is not json").is_empty());
}

#[test]
fn parse_wrong_structure_returns_empty() {
    let input = r#"{"system_prompt": "single object, not array"}"#;
    assert!(parse_candidates(input).is_empty());
}

#[test]
fn parse_json_with_preamble() {
    let input = "Sure! Here are the candidates:\n[{\"system_prompt\": \"ok\", \"reasoning\": \"r\"}]";
    assert_eq!(parse_candidates(input).len(), 1);
}

#[test]
fn candidates_text_is_unfenced_and_bracketed() {
    assert_eq!(candidates_json_text("```json\n[1]\n```"), "[1]");
    assert_eq!(candidates_json_text("text [1, 2] more"), "[1, 2]");
    assert_eq!(candidates_json_text("  no brackets  "), "no brackets");
}

#[test]
fn parse_decomposition_valid() {
    let input = r#"{"steps": [{"name": "extract", "description": "d", "inputs": "i", "output": "o"}]}"#;
    let d = parse_decomposition(input);
    assert_eq!(d.len(), 1);
    assert_eq!(d[0], "extract");
}

#[test]
fn parse_decomposition_fenced() {
    let input = "```json\n{\"steps\": [{\"name\": \"a\", \"description\": \"b\", \"inputs\": \"c\", \"output\": \"d\"}]}\n```";
    assert_eq!(parse_decomposition(input).len(), 1);
}

#[test]
fn parse_decomposition_bare_array() {
    let input = r#"[{"name": "step1", "description": "d", "inputs": "i", "output": "o"}]"#;
    let d = parse_decomposition(input);
    assert_eq!(d.len(), 1);
    assert_eq!(d[0], "step1");
}

#[test]
fn parse_decomposition_malformed() {
    assert!(parse_decomposition("not json at all").is_empty());
}

#[test]
fn candidate_search_tracks_best_and_stops_without_progress() {
    let mut s = CandidateSearch::new();
    s.begin_round();
    assert!(s.record(num(0.5)));
    assert!(s.record(num(0.7)));
    assert!(!s.record(num(0.6)));
    assert_eq!(s.best, Some(1));
    assert!(!s.should_stop(0));
    s.begin_round();
    assert!(!s.record(num(0.65)));
    assert!(s.should_stop(1));
    s.begin_round();
    assert!(s.record(num(0.9)));
    assert!(!s.should_stop(2));
}

#[test]
fn hints_and_cancellation() {
    assert_eq!(hint_text(None, OptimizationTarget::Cost), "Reduce token usage and cost while maintaining quality");
    assert_eq!(hint_text(Some("x".into()), OptimizationTarget::Cost), "x");
    assert_eq!(OptimizationTarget::ErrorRate.to_string(), "error_rate");
    assert!(is_compilation_cancelled_err(&vec!["outer".into(), "compilation_cancelled".into()]));
    assert!(!is_compilation_cancelled_err(&vec!["outer".into()]));
}

#[test]
fn internal_compiles_run_bounded_rounds() {
    assert_eq!(compile_rounds(None), 1);
    assert_eq!(compile_rounds(Some(2)), 2);
    assert_eq!(compile_rounds(Some(9)), 3);
    assert_eq!(rounds_used(0), 0);
    assert_eq!(rounds_used(1), 1);
    assert_eq!(rounds_used(3), 1);
    assert_eq!(rounds_used(4), 2);
    assert_eq!(rounds_used(9), 3);
}

#[test]
fn candidates_join_the_history_with_score_zero() {
    let a = attempt_of_candidate(&CandidatePrompt {
        system_prompt: "be brief".to_string(),
        reasoning: "shorter".to_string(),
    });
    assert_eq!(a.system_prompt, "be brief");
    assert_eq!(a.reasoning, "shorter");
    assert_eq!(a.score.key, Some(0));
    assert_eq!(a.score_text, "0.000");
}

#[test]
fn the_first_telling_filter_field_picks_the_target() {
    let f = |v: &[&str]| v.iter().map(|s| s.to_string()).collect::<Vec<_>>();
    assert_eq!(optimization_target_for(&f(&[])), OptimizationTarget::Quality);
    assert_eq!(optimization_target_for(&f(&["providers", "models"])), OptimizationTarget::Quality);
    assert_eq!(optimization_target_for(&f(&["latency.avg_ms", "errors.count"])), OptimizationTarget::Latency);
    assert_eq!(optimization_target_for(&f(&["has_errors"])), OptimizationTarget::ErrorRate);
    assert_eq!(optimization_target_for(&f(&["error_cost"])), OptimizationTarget::ErrorRate);
    assert_eq!(optimization_target_for(&f(&["cost.total"])), OptimizationTarget::Cost);
}

#[test]
fn compile_reports_reuse_running_compilations() {
    let t = 5u128;
    assert_eq!(compile_report_start(true, Some(t)).unwrap(), Some(t));
    assert_eq!(compile_report_start(true, None).unwrap(), None);
    match compile_report_start(false, Some(t)) {
        Err(ApiError::NotFound(m)) => assert_eq!(m, "Prompt config not found"),
        other => panic!("unexpected {:?}", other),
    }
    let p = 1u128;
    assert!(check_cancel_target(Some(p), &p).is_ok());
    assert!(matches!(check_cancel_target(Some(t), &p), Err(ApiError::NotFound(_))));
    assert!(matches!(check_cancel_target(None, &p), Err(ApiError::NotFound(_))));
    assert_eq!(
        finished_compilation(Ok("{}".to_string())),
        ("completed".to_string(), "{}".to_string())
    );
    assert_eq!(
        finished_compilation(Err(vec!["stopped".to_string(), "compilation_cancelled".to_string()])),
        ("cancelled".to_string(), "compilation_cancelled".to_string())
    );
    assert_eq!(
        finished_compilation(Err(vec!["gateway down".to_string(), "timeout".to_string()])),
        ("failed".to_string(), "gateway down".to_string())
    );
    assert_eq!(task_result_reading("completed"), TaskResultReading::Report);
    assert_eq!(task_result_reading("running"), TaskResultReading::Progress);
    assert_eq!(task_result_reading("failed"), TaskResultReading::Error);
}

#[test]
fn a_compile_needs_a_system_prompt() {
    assert_eq!(compile_source(Some("be kind".to_string())).unwrap(), "be kind");
    for p in [None, Some(String::new())] {
        match compile_source(p) {
            Err(ApiError::Validation(m)) => assert_eq!(m, "Active version has no system prompt to compile"),
            other => panic!("unexpected {:?}", other),
        }
    }
}

#[test]
fn stored_profiles_give_their_filter_fields() {
    let text = r#"[
        {"name":"a","filters":[{"field":"cost.total","op":"gt"},{"type":"has_errors"}]},
        {"name":"b"},
        {"name":"c","filters":[{"field":7,"type":"latency"},{}]}
    ]"#;
    assert_eq!(stored_filter_fields(text), vec!["cost.total", "has_errors", "", ""]);
    assert!(stored_filter_fields("{}").is_empty());
    assert!(stored_filter_fields("not json").is_empty());
    assert!(stored_filter_fields(r#"[{"filters":"x"}]"#).is_empty());
}

#[test]
fn optimization_target_comes_from_stored_profiles() {
    assert_eq!(derive_optimization_target(None), OptimizationTarget::Quality);
    let text = r#"[{"filters":[{"field":"latency.p95"},{"field":"cost.total"}]}]"#;
    assert_eq!(derive_optimization_target(Some(text)), OptimizationTarget::Latency);
    assert_eq!(derive_optimization_target(Some("[]")), OptimizationTarget::Quality);
}
