use flow_api::topology::{topology_context, TopologyInput, TraceService};

fn s(x: &str) -> String {
    x.to_string()
}

#[test]
fn topology_lists_components_in_name_order() {
    let input = TopologyInput {
        traces: vec![
            TraceService { name: s("checkout"), error_pct: 0 },
            TraceService { name: s("api"), error_pct: 7 },
        ],
        log_services: vec![s("api"), s("worker")],
        metric_services: vec![s("checkout")],
        infra: vec![(s("worker"), s("worker-b")), (s("worker"), s("worker-a")), (s("worker"), s("worker-b"))],
        metric_prefixes: vec![(s("http"), 12), (s("db"), 3)],
    };
    assert_eq!(
        topology_context(&input),
        "Components:\n- api: traces (7% errors), logs\n- checkout: traces (healthy), metrics\n- worker: logs [statefulsets: worker-a, worker-b]\n\nMetric prefixes: http (12), db (3)"
    );
}

#[test]
fn topology_of_nothing_is_empty() {
    let input = TopologyInput {
        traces: vec![],
        log_services: vec![],
        metric_services: vec![],
        infra: vec![],
        metric_prefixes: vec![],
    };
    assert_eq!(topology_context(&input), "");
    let only_prefixes = TopologyInput { metric_prefixes: vec![(s("jvm"), 1)], ..input };
    assert_eq!(topology_context(&only_prefixes), "Metric prefixes: jvm (1)");
}
