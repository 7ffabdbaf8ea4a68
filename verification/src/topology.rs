//! The service topology the agent is told about: every component seen in
//! traces, logs, metrics or infrastructure, in name order, with its signals,
//! and the busiest metric-name prefixes.

use vstd::prelude::*;
use vstd::string::*;

use crate::text::{
    chars_of, decimal, decimal_string, has_prefix, join, join_spec, owned, str_eq, strings_view,
};

verus! {

// ─── Text order ────────────────────────────────────────────────────────────

/// Lexicographic order of texts by code point, which is the byte order of
/// their UTF-8 encodings.
pub open spec fn text_less(a: Seq<char>, b: Seq<char>) -> bool
    decreases a.len(),
{
    if a.len() == 0 {
        b.len() > 0
    } else if b.len() == 0 {
        false
    } else if a[0] != b[0] {
        (a[0] as int) < (b[0] as int)
    } else {
        text_less(a.drop_first(), b.drop_first())
    }
}

proof fn lemma_less_irreflexive(a: Seq<char>)
    ensures
        !text_less(a, a),
    decreases a.len(),
{
    if a.len() > 0 {
        lemma_less_irreflexive(a.drop_first());
    }
}

proof fn lemma_less_total(a: Seq<char>, b: Seq<char>)
    ensures
        a == b || text_less(a, b) || text_less(b, a),
        !(text_less(a, b) && text_less(b, a)),
    decreases a.len(),
{
    if a.len() > 0 && b.len() > 0 {
        lemma_less_total(a.drop_first(), b.drop_first());
        if a[0] == b[0] && a.drop_first() == b.drop_first() {
            assert(a =~= seq![a[0]] + a.drop_first());
            assert(b =~= seq![b[0]] + b.drop_first());
        }
        if a[0] != b[0] {
            assert((a[0] as int) != (b[0] as int));
        }
    } else if a.len() == 0 && b.len() == 0 {
        assert(a =~= b);
    }
}

proof fn lemma_less_transitive(a: Seq<char>, b: Seq<char>, c: Seq<char>)
    requires
        text_less(a, b),
        text_less(b, c),
    ensures
        text_less(a, c),
    decreases a.len(),
{
    if a.len() > 0 && b.len() > 0 && c.len() > 0 {
        if a[0] == b[0] && b[0] == c[0] {
            lemma_less_transitive(a.drop_first(), b.drop_first(), c.drop_first());
        }
    }
}

/// Strictly increasing texts: each occurs once, in order.
pub open spec fn strictly_sorted(v: Seq<Seq<char>>) -> bool {
    forall|i: int, j: int| 0 <= i < j < v.len() ==> text_less(v[i], v[j])
}

/// The texts of a finite set in increasing order.
pub open spec fn sorted_of(s: Set<Seq<char>>) -> Seq<Seq<char>> {
    choose|v: Seq<Seq<char>>|
        strictly_sorted(v) && forall|x: Seq<char>| #[trigger] v.contains(x) <==> s.contains(x)
}

proof fn lemma_sorted_unique(a: Seq<Seq<char>>, b: Seq<Seq<char>>)
    requires
        strictly_sorted(a),
        strictly_sorted(b),
        forall|x: Seq<char>| #[trigger] a.contains(x) <==> b.contains(x),
    ensures
        a == b,
    decreases a.len(),
{
    if a.len() == 0 {
        if b.len() > 0 {
            assert(b[0] == b[0]);
            assert(b.contains(b[0]));
            assert(a.contains(b[0]));
        }
        assert(a =~= b);
    } else {
        assert(a[0] == a[0]);
        assert(a.contains(a[0]));
        assert(b.contains(a[0]));
        assert(b.len() > 0);
        assert(b[0] == b[0]);
        assert(b.contains(b[0]));
        assert(a.contains(b[0]));
        assert(a[0] == b[0]) by {
            if a[0] != b[0] {
                let i = choose|i: int| 0 <= i < a.len() && a[i] == b[0];
                let j = choose|j: int| 0 <= j < b.len() && b[j] == a[0];
                assert(i != 0);
                assert(j != 0);
                assert(text_less(a[0], a[i]));
                assert(text_less(b[0], b[j]));
                lemma_less_total(a[0], b[0]);
            }
        }
        let a1 = a.drop_first();
        let b1 = b.drop_first();
        assert forall|x: Seq<char>| #[trigger] a1.contains(x) <==> b1.contains(x) by {
            if a1.contains(x) {
                let i = choose|i: int| 0 <= i < a1.len() && a1[i] == x;
                assert(a.contains(x)) by {
                    assert(a[i + 1] == x);
                }
                let j = choose|j: int| 0 <= j < b.len() && b[j] == x;
                if j == 0 {
                    assert(text_less(a[0], a[i + 1]));
                    lemma_less_irreflexive(x);
                }
                assert(b1[j - 1] == x);
                assert(b1.contains(x));
            }
            if b1.contains(x) {
                let j = choose|j: int| 0 <= j < b1.len() && b1[j] == x;
                assert(b.contains(x)) by {
                    assert(b[j + 1] == x);
                }
                assert(a.contains(x));
                let i = choose|i: int| 0 <= i < a.len() && a[i] == x;
                if i == 0 {
                    assert(text_less(b[0], b[j + 1]));
                    lemma_less_irreflexive(x);
                }
                assert(a1[i - 1] == x);
                assert(a1.contains(x));
            }
        }
        lemma_sorted_unique(a1, b1);
        assert(a =~= seq![a[0]] + a1);
        assert(b =~= seq![b[0]] + b1);
    }
}

/// A strictly sorted list of a set's texts is the set's sorted list.
proof fn lemma_is_sorted_of(v: Seq<Seq<char>>, s: Set<Seq<char>>)
    requires
        strictly_sorted(v),
        forall|x: Seq<char>| #[trigger] v.contains(x) <==> s.contains(x),
    ensures
        sorted_of(s) == v,
{
    let w = sorted_of(s);
    assert(strictly_sorted(w) && forall|x: Seq<char>| #[trigger] w.contains(x) <==> s.contains(x));
    lemma_sorted_unique(v, w);
}

fn less_chars(a: &Vec<char>, b: &Vec<char>) -> (r: bool)
    ensures
        r == text_less(a@, b@),
{
    let mut i: usize = 0;
    proof {
        assert(a@.skip(0) =~= a@);
        assert(b@.skip(0) =~= b@);
    }
    while i < a.len() && i < b.len()
        invariant
            i <= a@.len(),
            i <= b@.len(),
            text_less(a@, b@) == text_less(a@.skip(i as int), b@.skip(i as int)),
        decreases a.len() - i,
    {
        let x = a[i];
        let y = b[i];
        proof {
            assert(a@.skip(i as int)[0] == x);
            assert(b@.skip(i as int)[0] == y);
        }
        if x != y {
            return x < y;
        }
        proof {
            assert(a@.skip(i as int).drop_first() =~= a@.skip(i as int + 1));
            assert(b@.skip(i as int).drop_first() =~= b@.skip(i as int + 1));
        }
        i = i + 1;
    }
    proof {
        if i == a.len() {
            assert(a@.skip(i as int).len() == 0);
        } else {
            assert(b@.skip(i as int).len() == 0);
        }
    }
    i == a.len() && i < b.len()
}

/// Whether `a` comes before `b`.
fn text_lt(a: &str, b: &str) -> (r: bool)
    ensures
        r == text_less(a@, b@),
{
    less_chars(&chars_of(a), &chars_of(b))
}

/// Add a text to a strictly sorted list of texts, unless it is there.
fn insert_sorted(v: &mut Vec<String>, x: &str)
    requires
        strictly_sorted(strings_view(old(v)@)),
    ensures
        strictly_sorted(strings_view(final(v)@)),
        forall|s: Seq<char>|
            #[trigger] strings_view(final(v)@).contains(s) <==> (strings_view(old(v)@).contains(s)
                || s == x@),
{
    let ghost sv = strings_view(v@);
    let mut p: usize = 0;
    while p < v.len()
        invariant
            p <= v@.len(),
            sv == strings_view(v@),
            forall|i: int| 0 <= i < p ==> text_less(#[trigger] sv[i], x@),
        ensures
            p <= v@.len(),
            sv == strings_view(v@),
            forall|i: int| 0 <= i < p ==> text_less(#[trigger] sv[i], x@),
            p < v@.len() ==> !text_less(sv[p as int], x@),
        decreases v.len() - p,
    {
        if !text_lt(v[p].as_str(), x) {
            proof {
                assert(sv[p as int] == v@[p as int]@);
            }
            break;
        }
        p = p + 1;
    }
    if p < v.len() && str_eq(v[p].as_str(), x) {
        proof {
            assert(sv[p as int] == x@);
            assert forall|s: Seq<char>| #[trigger] sv.contains(s) <==> (sv.contains(s) || s == x@) by {
                if s == x@ {
                    assert(sv[p as int] == s);
                }
            }
        }
        return;
    }
    proof {
        if p < sv.len() {
            assert(!text_less(sv[p as int], x@));
            lemma_less_total(sv[p as int], x@);
        }
    }
    v.insert(p, owned(x));
    proof {
        let nv = strings_view(v@);
        assert(nv =~= sv.insert(p as int, x@));
        assert forall|i: int, j: int| 0 <= i < j < nv.len() implies text_less(nv[i], nv[j]) by {
            if j < p {
            } else if j == p {
                assert(nv[i] == sv[i]);
            } else if i < p {
                assert(nv[j] == sv[j - 1]);
                if j - 1 > p {
                    assert(text_less(sv[p as int], sv[j - 1]));
                    lemma_less_transitive(x@, sv[p as int], sv[j - 1]);
                }
                lemma_less_transitive(sv[i], x@, sv[j - 1]);
            } else if i == p {
                assert(nv[j] == sv[j - 1]);
                if j - 1 > p {
                    assert(text_less(sv[p as int], sv[j - 1]));
                    lemma_less_transitive(x@, sv[p as int], sv[j - 1]);
                }
            } else {
                assert(nv[i] == sv[i - 1] && nv[j] == sv[j - 1]);
            }
        }
        assert forall|s: Seq<char>| #[trigger] nv.contains(s) <==> (sv.contains(s) || s == x@) by {
            if nv.contains(s) {
                let k = choose|k: int| 0 <= k < nv.len() && nv[k] == s;
                if k < p {
                    assert(sv[k] == s);
                } else if k > p {
                    assert(sv[k - 1] == s);
                }
            }
            if sv.contains(s) {
                let k = choose|k: int| 0 <= k < sv.len() && sv[k] == s;
                if k < p {
                    assert(nv[k] == s);
                } else {
                    assert(nv[k + 1] == s);
                }
            }
            if s == x@ {
                assert(nv[p as int] == s);
            }
        }
    }
}


// ─── The topology text ─────────────────────────────────────────────────────

/// Seconds the topology text is cached.
pub const TOPOLOGY_CACHE_TTL_SECS: u64 = 600;

/// A service seen in traces, with its error rate in percent (rounded; 0
/// when it has no spans).
#[derive(Debug)]
pub struct TraceService {
    pub name: String,
    pub error_pct: u64,
}

/// What the topology is made from: services seen in traces, in logs and in
/// metrics, `(service, statefulset)` pairs seen in infrastructure logs, and
/// metric-name prefixes with their series counts.
#[derive(Debug)]
pub struct TopologyInput {
    pub traces: Vec<TraceService>,
    pub log_services: Vec<String>,
    pub metric_services: Vec<String>,
    pub infra: Vec<(String, String)>,
    pub metric_prefixes: Vec<(String, u64)>,
}

/// Abstract value of a [`TopologyInput`].
pub struct TopologyView {
    pub traces: Seq<(Seq<char>, u64)>,
    pub logs: Seq<Seq<char>>,
    pub metrics: Seq<Seq<char>>,
    pub infra: Seq<(Seq<char>, Seq<char>)>,
    pub prefixes: Seq<(Seq<char>, u64)>,
}

impl View for TopologyInput {
    type V = TopologyView;

    open spec fn view(&self) -> TopologyView {
        TopologyView {
            traces: self.traces@.map_values(|t: TraceService| (t.name@, t.error_pct)),
            logs: strings_view(self.log_services@),
            metrics: strings_view(self.metric_services@),
            infra: self.infra@.map_values(|p: (String, String)| (p.0@, p.1@)),
            prefixes: self.metric_prefixes@.map_values(|p: (String, u64)| (p.0@, p.1)),
        }
    }
}

/// Every component: each service seen anywhere.
pub open spec fn component_names(t: TopologyView) -> Set<Seq<char>> {
    Set::new(
        |n: Seq<char>|
            (exists|i: int| 0 <= i < t.traces.len() && t.traces[i].0 == n) || t.logs.contains(n)
                || t.metrics.contains(n) || exists|i: int| 0 <= i < t.infra.len() && t.infra[i].0 == n,
    )
}

/// The error rate of a service in the last trace entry that names it.
pub open spec fn last_error_pct(traces: Seq<(Seq<char>, u64)>, n: Seq<char>) -> Option<u64>
    decreases traces.len(),
{
    if traces.len() == 0 {
        None
    } else if traces.last().0 == n {
        Some(traces.last().1)
    } else {
        last_error_pct(traces.drop_last(), n)
    }
}

/// The statefulsets a service runs in.
pub open spec fn statefulsets_of(infra: Seq<(Seq<char>, Seq<char>)>, n: Seq<char>) -> Set<Seq<char>> {
    Set::new(|s: Seq<char>| exists|i: int| 0 <= i < infra.len() && infra[i] == (n, s))
}

/// How the traces describe a service's health.
pub open spec fn health_text(pct: Option<u64>) -> Seq<char> {
    match pct {
        Some(p) => if p > 0 {
            decimal(p as nat) + "% errors"@
        } else {
            "healthy"@
        },
        None => "healthy"@,
    }
}

/// The signals seen for a service.
pub open spec fn signals(t: TopologyView, n: Seq<char>) -> Seq<Seq<char>> {
    (match last_error_pct(t.traces, n) {
        Some(p) => seq!["traces ("@ + health_text(Some(p)) + ")"@],
        None => Seq::empty(),
    }) + (if t.logs.contains(n) {
        seq!["logs"@]
    } else {
        Seq::empty()
    }) + (if t.metrics.contains(n) {
        seq!["metrics"@]
    } else {
        Seq::empty()
    })
}

/// A component's signals name each source that saw it, independently of the
/// others: "metrics" exactly when the metrics list it, "logs" exactly when
/// the logs list it, and a trace entry exactly when a trace names it.
pub proof fn lemma_signals_follow_sources(t: TopologyView, n: Seq<char>)
    ensures
        signals(t, n).contains("metrics"@) <==> t.metrics.contains(n),
        signals(t, n).contains("logs"@) <==> t.logs.contains(n),
        (exists|k: int| 0 <= k < signals(t, n).len() && has_prefix(signals(t, n)[k], "traces ("@))
            <==> last_error_pct(t.traces, n) is Some,
        signals(t, n).len() <= 3,
{
    reveal_strlit("metrics");
    reveal_strlit("logs");
    reveal_strlit("traces (");
    let p1: Seq<Seq<char>> = match last_error_pct(t.traces, n) {
        Some(p) => seq!["traces ("@ + health_text(Some(p)) + ")"@],
        None => Seq::empty(),
    };
    let p2: Seq<Seq<char>> = if t.logs.contains(n) {
        seq!["logs"@]
    } else {
        Seq::empty()
    };
    let p3: Seq<Seq<char>> = if t.metrics.contains(n) {
        seq!["metrics"@]
    } else {
        Seq::empty()
    };
    let s = signals(t, n);
    assert(s == p1 + p2 + p3);
    let m = "metrics"@;
    let l = "logs"@;
    assert(m[0] == 'm' && l[0] == 'l' && m != l);
    assert forall|k: int| 0 <= k < p1.len() implies p1[k][0] == 't' && has_prefix(p1[k], "traces ("@)
        by {
        let x = p1[k];
        assert(x.subrange(0, 8) =~= "traces ("@);
    }
    if t.metrics.contains(n) {
        assert(s[(p1.len() + p2.len()) as int] == m);
    }
    if s.contains(m) {
        let k = choose|k: int| 0 <= k < s.len() && s[k] == m;
        if k < p1.len() {
            assert(s[k] == p1[k]);
        } else if k < p1.len() + p2.len() {
            assert(s[k] == p2[k - p1.len()]);
        }
    }
    if t.logs.contains(n) {
        assert(s[p1.len() as int] == l);
    }
    if s.contains(l) {
        let k = choose|k: int| 0 <= k < s.len() && s[k] == l;
        if k < p1.len() {
            assert(s[k] == p1[k]);
        } else if k >= p1.len() + p2.len() {
            assert(s[k] == p3[k - p1.len() - p2.len()]);
        }
    }
    if last_error_pct(t.traces, n) is Some {
        assert(s[0] == p1[0]);
        assert(has_prefix(s[0], "traces ("@));
    }
    if exists|k: int| 0 <= k < s.len() && has_prefix(s[k], "traces ("@) {
        let k = choose|k: int| 0 <= k < s.len() && has_prefix(s[k], "traces ("@);
        if k >= p1.len() {
            assert(s[k][0] == 't');
            if k < p1.len() + p2.len() {
                assert(s[k] == l);
            } else {
                assert(s[k] == m);
            }
        }
    }
}

/// The line of a component.
pub open spec fn component_line(t: TopologyView, n: Seq<char>) -> Seq<char> {
    let sts = sorted_of(statefulsets_of(t.infra, n));
    "- "@ + n + ": "@ + join_spec(signals(t, n), ", "@) + if sts.len() > 0 {
        " [statefulsets: "@ + join_spec(sts, ", "@) + "]"@
    } else {
        Seq::empty()
    }
}

/// The entry of a metric prefix.
pub open spec fn prefix_entry(p: (Seq<char>, u64)) -> Seq<char> {
    p.0 + " ("@ + decimal(p.1 as nat) + ")"@
}

/// The sections of the topology text.
pub open spec fn topology_sections(t: TopologyView) -> Seq<Seq<char>> {
    let names = sorted_of(component_names(t));
    (if names.len() > 0 {
        seq![
            "Components:\n"@ + join_spec(
                names.map_values(|n: Seq<char>| component_line(t, n)),
                "\n"@,
            ),
        ]
    } else {
        Seq::empty()
    }) + (if t.prefixes.len() > 0 {
        seq![
            "Metric prefixes: "@ + join_spec(
                t.prefixes.map_values(|p: (Seq<char>, u64)| prefix_entry(p)),
                ", "@,
            ),
        ]
    } else {
        Seq::empty()
    })
}

/// The topology text: its sections separated by blank lines; empty when
/// nothing was seen.
pub open spec fn topology_text(t: TopologyView) -> Seq<char> {
    join_spec(topology_sections(t), "\n\n"@)
}

fn collect_names(input: &TopologyInput) -> (r: Vec<String>)
    ensures
        strictly_sorted(strings_view(r@)),
        forall|n: Seq<char>| #[trigger] strings_view(r@).contains(n) <==> component_names(input@).contains(n),
{
    let ghost t = input@;
    let mut names: Vec<String> = Vec::new();
    let mut i: usize = 0;
    while i < input.traces.len()
        invariant
            i <= input.traces@.len(),
            t == input@,
            strictly_sorted(strings_view(names@)),
            forall|n: Seq<char>| #[trigger] strings_view(names@).contains(n) <==> exists|k: int|
                0 <= k < i && t.traces[k].0 == n,
        decreases input.traces.len() - i,
    {
        insert_sorted(&mut names, input.traces[i].name.as_str());
        proof {
            assert(t.traces[i as int].0 == input.traces@[i as int].name@);
            assert forall|n: Seq<char>| #[trigger] strings_view(names@).contains(n) <==> exists|k: int|
                0 <= k < i + 1 && t.traces[k].0 == n by {
                if n == t.traces[i as int].0 {
                    assert(exists|k: int| 0 <= k < i + 1 && t.traces[k].0 == n);
                }
            }
        }
        i = i + 1;
    }
    let mut i: usize = 0;
    proof {
        assert forall|n: Seq<char>| !#[trigger] t.logs.subrange(0, 0).contains(n) by {
        }
    }
    while i < input.log_services.len()
        invariant
            i <= input.log_services@.len(),
            t == input@,
            strictly_sorted(strings_view(names@)),
            forall|n: Seq<char>| #[trigger] strings_view(names@).contains(n) <==> ((exists|k: int|
                0 <= k < t.traces.len() && t.traces[k].0 == n) || t.logs.subrange(0, i as int).contains(n)),
        decreases input.log_services.len() - i,
    {
        insert_sorted(&mut names, input.log_services[i].as_str());
        proof {
            let l = t.logs;
            assert(l[i as int] == input.log_services@[i as int]@);
            assert(l.subrange(0, i as int + 1) =~= l.subrange(0, i as int).push(l[i as int]));
            assert forall|n: Seq<char>| #[trigger] l.subrange(0, i as int + 1).contains(n) <==> (
            l.subrange(0, i as int).contains(n) || n == l[i as int]) by {
                let a = l.subrange(0, i as int);
                if a.push(l[i as int]).contains(n) {
                    let k = choose|k: int| 0 <= k < a.len() + 1 && a.push(l[i as int])[k] == n;
                    if k < a.len() {
                        assert(a[k] == n);
                    }
                }
                if a.contains(n) {
                    let k = choose|k: int| 0 <= k < a.len() && a[k] == n;
                    assert(a.push(l[i as int])[k] == n);
                }
                if n == l[i as int] {
                    assert(a.push(l[i as int])[a.len() as int] == n);
                }
            }
        }
        i = i + 1;
    }
    let mut i: usize = 0;
    proof {
        assert(t.logs.subrange(0, t.logs.len() as int) =~= t.logs);
        assert forall|n: Seq<char>| !#[trigger] t.metrics.subrange(0, 0).contains(n) by {
        }
    }
    while i < input.metric_services.len()
        invariant
            i <= input.metric_services@.len(),
            t == input@,
            strictly_sorted(strings_view(names@)),
            forall|n: Seq<char>| #[trigger] strings_view(names@).contains(n) <==> ((exists|k: int|
                0 <= k < t.traces.len() && t.traces[k].0 == n) || t.logs.contains(n)
                || t.metrics.subrange(0, i as int).contains(n)),
        decreases input.metric_services.len() - i,
    {
        insert_sorted(&mut names, input.metric_services[i].as_str());
        proof {
            let l = t.metrics;
            assert(l[i as int] == input.metric_services@[i as int]@);
            assert(l.subrange(0, i as int + 1) =~= l.subrange(0, i as int).push(l[i as int]));
            assert forall|n: Seq<char>| #[trigger] l.subrange(0, i as int + 1).contains(n) <==> (
            l.subrange(0, i as int).contains(n) || n == l[i as int]) by {
                let a = l.subrange(0, i as int);
                if a.push(l[i as int]).contains(n) {
                    let k = choose|k: int| 0 <= k < a.len() + 1 && a.push(l[i as int])[k] == n;
                    if k < a.len() {
                        assert(a[k] == n);
                    }
                }
                if a.contains(n) {
                    let k = choose|k: int| 0 <= k < a.len() && a[k] == n;
                    assert(a.push(l[i as int])[k] == n);
                }
                if n == l[i as int] {
                    assert(a.push(l[i as int])[a.len() as int] == n);
                }
            }
        }
        i = i + 1;
    }
    proof {
        assert(t.metrics.subrange(0, t.metrics.len() as int) =~= t.metrics);
    }
    let mut i: usize = 0;
    while i < input.infra.len()
        invariant
            i <= input.infra@.len(),
            t == input@,
            strictly_sorted(strings_view(names@)),
            forall|n: Seq<char>| #[trigger] strings_view(names@).contains(n) <==> ((exists|k: int|
                0 <= k < t.traces.len() && t.traces[k].0 == n) || t.logs.contains(n)
                || t.metrics.contains(n) || exists|k: int| 0 <= k < i && t.infra[k].0 == n),
        decreases input.infra.len() - i,
    {
        insert_sorted(&mut names, input.infra[i].0.as_str());
        proof {
            assert(t.infra[i as int].0 == input.infra@[i as int].0@);
            assert forall|n: Seq<char>| #[trigger] strings_view(names@).contains(n) <==> ((exists|k: int|
                0 <= k < t.traces.len() && t.traces[k].0 == n) || t.logs.contains(n)
                || t.metrics.contains(n) || exists|k: int| 0 <= k < i + 1 && t.infra[k].0 == n) by {
                if n == t.infra[i as int].0 {
                    assert(exists|k: int| 0 <= k < i + 1 && t.infra[k].0 == n);
                }
            }
        }
        i = i + 1;
    }
    names
}

fn last_pct(input: &TopologyInput, name: &str) -> (r: Option<u64>)
    ensures
        r == last_error_pct(input@.traces, name@),
{
    let ghost tr = input@.traces;
    let mut i: usize = input.traces.len();
    proof {
        assert(tr.subrange(0, tr.len() as int) =~= tr);
    }
    while i > 0
        invariant
            i <= tr.len(),
            tr == input@.traces,
            last_error_pct(tr, name@) == last_error_pct(tr.subrange(0, i as int), name@),
        decreases i,
    {
        proof {
            let sub = tr.subrange(0, i as int);
            assert(sub.drop_last() =~= tr.subrange(0, i as int - 1));
            assert(sub.last() == tr[i as int - 1]);
            assert(tr[i as int - 1] == (input.traces@[i as int - 1].name@, input.traces@[i as int - 1].error_pct));
        }
        if str_eq(input.traces[i - 1].name.as_str(), name) {
            return Some(input.traces[i - 1].error_pct);
        }
        i = i - 1;
    }
    None
}

fn contains_text(v: &Vec<String>, n: &str) -> (r: bool)
    ensures
        r == strings_view(v@).contains(n@),
{
    let mut i: usize = 0;
    while i < v.len()
        invariant
            i <= v@.len(),
            forall|k: int| 0 <= k < i ==> strings_view(v@)[k] != n@,
        decreases v.len() - i,
    {
        if str_eq(v[i].as_str(), n) {
            proof {
                assert(strings_view(v@)[i as int] == n@);
            }
            return true;
        }
        i = i + 1;
    }
    false
}

fn statefulsets(input: &TopologyInput, name: &str) -> (r: Vec<String>)
    ensures
        strings_view(r@) == sorted_of(statefulsets_of(input@.infra, name@)),
{
    let ghost inf = input@.infra;
    let mut out: Vec<String> = Vec::new();
    let mut i: usize = 0;
    while i < input.infra.len()
        invariant
            i <= inf.len(),
            inf == input@.infra,
            strictly_sorted(strings_view(out@)),
            forall|s: Seq<char>| #[trigger] strings_view(out@).contains(s) <==> exists|k: int|
                0 <= k < i && inf[k] == (name@, s),
        decreases input.infra.len() - i,
    {
        proof {
            assert(inf[i as int] == (input.infra@[i as int].0@, input.infra@[i as int].1@));
        }
        if str_eq(input.infra[i].0.as_str(), name) {
            insert_sorted(&mut out, input.infra[i].1.as_str());
        }
        proof {
            assert forall|s: Seq<char>| #[trigger] strings_view(out@).contains(s) <==> exists|k: int|
                0 <= k < i + 1 && inf[k] == (name@, s) by {
                if inf[i as int] == (name@, s) {
                    assert(exists|k: int| 0 <= k < i + 1 && inf[k] == (name@, s));
                }
            }
        }
        i = i + 1;
    }
    proof {
        lemma_is_sorted_of(strings_view(out@), statefulsets_of(inf, name@));
    }
    out
}

fn component_line_string(input: &TopologyInput, name: &str) -> (r: String)
    ensures
        r@ == component_line(input@, name@),
{
    let ghost t = input@;
    let mut sig: Vec<String> = Vec::new();
    let ghost pct = last_error_pct(t.traces, name@);
    let ghost part1: Seq<Seq<char>> = match pct {
        Some(p) => seq!["traces ("@ + health_text(Some(p)) + ")"@],
        None => Seq::empty(),
    };
    let ghost part2: Seq<Seq<char>> = if t.logs.contains(name@) {
        seq!["logs"@]
    } else {
        Seq::empty()
    };
    let ghost part3: Seq<Seq<char>> = if t.metrics.contains(name@) {
        seq!["metrics"@]
    } else {
        Seq::empty()
    };
    match last_pct(input, name) {
        Some(p) => {
            let mut s = owned("traces (");
            if p > 0 {
                s.append(decimal_string(p).as_str());
                s.append("% errors");
            } else {
                s.append("healthy");
            }
            s.append(")");
            proof {
                assert(s@ == "traces ("@ + health_text(Some(p)) + ")"@);
            }
            sig.push(s);
        },
        None => {},
    }
    proof {
        assert(strings_view(sig@) =~= part1);
    }
    if contains_text(&input.log_services, name) {
        sig.push(owned("logs"));
    }
    proof {
        assert(strings_view(sig@) =~= part1 + part2);
    }
    if contains_text(&input.metric_services, name) {
        sig.push(owned("metrics"));
    }
    proof {
        assert(strings_view(sig@) =~= part1 + part2 + part3);
        assert(part1 + part2 + part3 == signals(t, name@));
    }
    let sts = statefulsets(input, name);
    let mut line = owned("- ");
    line.append(name);
    line.append(": ");
    line.append(join(&sig, ", ").as_str());
    if sts.len() > 0 {
        line.append(" [statefulsets: ");
        line.append(join(&sts, ", ").as_str());
        line.append("]");
    }
    proof {
        reveal_strlit("");
    }
    line
}

/// The topology text the agent is given.
pub fn topology_context(input: &TopologyInput) -> (r: String)
    ensures
        r@ == topology_text(input@),
{
    let ghost t = input@;
    let names = collect_names(input);
    proof {
        lemma_is_sorted_of(strings_view(names@), component_names(t));
    }
    let ghost nv = strings_view(names@);
    let mut sections: Vec<String> = Vec::new();
    if names.len() > 0 {
        let mut lines: Vec<String> = Vec::new();
        let mut i: usize = 0;
        while i < names.len()
            invariant
                i <= names@.len(),
                t == input@,
                nv == strings_view(names@),
                strings_view(lines@) == nv.subrange(0, i as int).map_values(
                    |n: Seq<char>| component_line(t, n),
                ),
            decreases names.len() - i,
        {
            let line = component_line_string(input, names[i].as_str());
            let ghost before = lines@;
            lines.push(line);
            proof {
                assert(strings_view(lines@) =~= strings_view(before).push(line@));
                assert(nv.subrange(0, i as int + 1) =~= nv.subrange(0, i as int).push(nv[i as int]));
                assert(nv.subrange(0, i as int + 1).map_values(|n: Seq<char>| component_line(t, n))
                    =~= nv.subrange(0, i as int).map_values(|n: Seq<char>| component_line(t, n)).push(
                    component_line(t, nv[i as int]),
                ));
            }
            i = i + 1;
        }
        proof {
            assert(nv.subrange(0, nv.len() as int) =~= nv);
        }
        let mut sec = owned("Components:\n");
        sec.append(join(&lines, "\n").as_str());
        sections.push(sec);
    }
    if input.metric_prefixes.len() > 0 {
        let ghost pv = t.prefixes;
        let mut entries: Vec<String> = Vec::new();
        let mut i: usize = 0;
        while i < input.metric_prefixes.len()
            invariant
                i <= pv.len(),
                pv == input@.prefixes,
                strings_view(entries@) == pv.subrange(0, i as int).map_values(
                    |p: (Seq<char>, u64)| prefix_entry(p),
                ),
            decreases input.metric_prefixes.len() - i,
        {
            let mut e = owned(input.metric_prefixes[i].0.as_str());
            e.append(" (");
            e.append(decimal_string(input.metric_prefixes[i].1).as_str());
            e.append(")");
            let ghost before = entries@;
            entries.push(e);
            proof {
                assert(pv[i as int] == (input.metric_prefixes@[i as int].0@, input.metric_prefixes@[i as int].1));
                assert(strings_view(entries@) =~= strings_view(before).push(e@));
                assert(pv.subrange(0, i as int + 1).map_values(|p: (Seq<char>, u64)| prefix_entry(p))
                    =~= pv.subrange(0, i as int).map_values(|p: (Seq<char>, u64)| prefix_entry(p)).push(
                    prefix_entry(pv[i as int]),
                ));
            }
            i = i + 1;
        }
        proof {
            assert(pv.subrange(0, pv.len() as int) =~= pv);
        }
        let mut sec = owned("Metric prefixes: ");
        sec.append(join(&entries, ", ").as_str());
        sections.push(sec);
    }
    proof {
        assert(strings_view(sections@) =~= topology_sections(t));
    }
    join(&sections, "\n\n")
}
} // verus!
