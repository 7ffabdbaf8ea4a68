//! Session profiles: named filter sets over a session's aggregated data that
//! decide which sessions keep their full content for replay.
//!
//! Filters name a virtual field (`errors.count`, `latency.avg_ms`,
//! `tools.names`, ...) resolved against [`SessionAggregates`]. Numbers are
//! carried as order keys of the floating-point values they stand for, so that
//! comparing keys compares the numbers.

use vstd::prelude::*;
use vstd::string::*;

use crate::text::{owned, str_eq, strings_view};

verus! {

/// Order key of a floating-point number: comparing the keys of two numbers
/// compares the numbers; `None` stands for "not a number", which compares
/// false with everything.
#[derive(Debug, Clone, Copy, PartialEq, Eq, Structural)]
pub struct Number {
    pub key: Option<i64>,
}

/// The key of the floating-point number with IEEE-754 bit pattern `bits`:
/// the magnitude bits, negated for negative numbers (so that both zeros have
/// key 0); none for NaN.
pub open spec fn key_of_bits(bits: u64) -> Option<i64> {
    let mag = bits % 0x8000_0000_0000_0000;
    if mag > 0x7FF0_0000_0000_0000 {
        None
    } else if bits >= 0x8000_0000_0000_0000 {
        Some(-(mag as int) as i64)
    } else {
        Some(mag as i64)
    }
}

impl Number {
    /// The number whose IEEE-754 bit pattern is `bits`.
    pub fn from_f64_bits(bits: u64) -> (r: Number)
        ensures
            r.key == key_of_bits(bits),
    {
        let mag = bits % 0x8000_0000_0000_0000;
        if mag > 0x7FF0_0000_0000_0000 {
            Number { key: None }
        } else if bits >= 0x8000_0000_0000_0000 {
            let m = mag as i64;
            Number { key: Some(-m) }
        } else {
            Number { key: Some(mag as i64) }
        }
    }

    /// Zero.
    pub fn zero() -> (r: Number)
        ensures
            r.key == Some(0i64),
    {
        Number { key: Some(0) }
    }
}

/// Kind of a virtual field.
#[derive(Debug, Clone, Copy, PartialEq, Eq, Structural)]
pub enum FieldKind {
    Numeric,
    StrSet,
}

/// Value of a virtual field for one session.
#[derive(Debug)]
pub enum FieldValue {
    Numeric(Number),
    StrSet(Vec<String>),
}

/// Descriptor of a virtual field, as the filter UI lists them.
#[derive(Debug, Clone, Copy)]
pub struct FieldDescriptor {
    pub field: &'static str,
    pub kind: FieldKind,
    pub namespace: &'static str,
    pub label: &'static str,
    pub unit: Option<&'static str>,
}

/// Abstract value of a [`FieldDescriptor`].
pub struct FieldEntry {
    pub field: Seq<char>,
    pub kind: FieldKind,
    pub namespace: Seq<char>,
    pub label: Seq<char>,
    pub unit: Option<Seq<char>>,
}

impl View for FieldDescriptor {
    type V = FieldEntry;

    open spec fn view(&self) -> FieldEntry {
        FieldEntry {
            field: self.field@,
            kind: self.kind,
            namespace: self.namespace@,
            label: self.label@,
            unit: match self.unit {
                Some(u) => Some(u@),
                None => None,
            },
        }
    }
}

/// One registry entry.
pub open spec fn entry(
    field: &str,
    kind: FieldKind,
    namespace: &str,
    label: &str,
    unit: Option<&str>,
) -> FieldEntry {
    FieldEntry {
        field: field@,
        kind,
        namespace: namespace@,
        label: label@,
        unit: match unit {
            Some(u) => Some(u@),
            None => None,
        },
    }
}

/// The registered virtual fields, by namespace and then label.
pub open spec fn registry() -> Seq<FieldEntry> {
    seq![
        entry("cost.avg_per_call", FieldKind::Numeric, "Cost", "avg_per_call", Some("USD")),
        entry("cost.total", FieldKind::Numeric, "Cost", "total", Some("USD")),
        entry("errors.count", FieldKind::Numeric, "Errors", "count", None),
        entry("fallback.count", FieldKind::Numeric, "Fallback", "count", None),
        entry("guardrail.count", FieldKind::Numeric, "Guardrail", "count", None),
        entry("labels.names", FieldKind::StrSet, "Labels", "names", None),
        entry("latency.avg_ms", FieldKind::Numeric, "Latency", "avg_ms", Some("ms")),
        entry("latency.max_ms", FieldKind::Numeric, "Latency", "max_ms", Some("ms")),
        entry("model.names", FieldKind::StrSet, "Model", "names", None),
        entry("prompt.ids", FieldKind::StrSet, "Prompt", "ids", None),
        entry("provider.names", FieldKind::StrSet, "Provider", "names", None),
        entry("tools.count", FieldKind::Numeric, "Tools", "count", None),
        entry("tools.names", FieldKind::StrSet, "Tools", "names", None),
    ]
}

/// Views of a list of descriptors.
pub open spec fn descriptors_view(v: Seq<FieldDescriptor>) -> Seq<FieldEntry> {
    v.map_values(|d: FieldDescriptor| d@)
}

fn descriptor(
    field: &'static str,
    kind: FieldKind,
    namespace: &'static str,
    label: &'static str,
    unit: Option<&'static str>,
) -> (r: FieldDescriptor)
    ensures
        r@ == entry(field, kind, namespace, label, unit),
{
    FieldDescriptor { field, kind, namespace, label, unit }
}

/// The registered virtual fields.
pub fn field_registry() -> (r: Vec<FieldDescriptor>)
    ensures
        descriptors_view(r@) == registry(),
{
    let mut v: Vec<FieldDescriptor> = Vec::new();
    v.push(descriptor("cost.avg_per_call", FieldKind::Numeric, "Cost", "avg_per_call", Some("USD")));
    v.push(descriptor("cost.total", FieldKind::Numeric, "Cost", "total", Some("USD")));
    v.push(descriptor("errors.count", FieldKind::Numeric, "Errors", "count", None));
    v.push(descriptor("fallback.count", FieldKind::Numeric, "Fallback", "count", None));
    v.push(descriptor("guardrail.count", FieldKind::Numeric, "Guardrail", "count", None));
    v.push(descriptor("labels.names", FieldKind::StrSet, "Labels", "names", None));
    v.push(descriptor("latency.avg_ms", FieldKind::Numeric, "Latency", "avg_ms", Some("ms")));
    v.push(descriptor("latency.max_ms", FieldKind::Numeric, "Latency", "max_ms", Some("ms")));
    v.push(descriptor("model.names", FieldKind::StrSet, "Model", "names", None));
    v.push(descriptor("prompt.ids", FieldKind::StrSet, "Prompt", "ids", None));
    v.push(descriptor("provider.names", FieldKind::StrSet, "Provider", "names", None));
    v.push(descriptor("tools.count", FieldKind::Numeric, "Tools", "count", None));
    v.push(descriptor("tools.names", FieldKind::StrSet, "Tools", "names", None));
    proof {
        assert(descriptors_view(v@) =~= registry());
    }
    v
}

/// Descriptors for every registered field, sorted by namespace then label.
pub fn available_fields() -> (r: Vec<FieldDescriptor>)
    ensures
        descriptors_view(r@) == registry(),
{
    field_registry()
}

/// Whether a field path is registered.
pub open spec fn is_registered(field: Seq<char>) -> bool {
    exists|i: int| 0 <= i < registry().len() && #[trigger] registry()[i].field == field
}

/// The descriptor of a registered field.
pub fn field_def(field: &str) -> (r: Option<FieldDescriptor>)
    ensures
        match r {
            Some(d) => is_registered(field@) && d@.field == field@ && exists|i: int|
                0 <= i < registry().len() && #[trigger] registry()[i] == d@,
            None => !is_registered(field@),
        },
{
    let reg = field_registry();
    let mut i: usize = 0;
    while i < reg.len()
        invariant
            i <= reg@.len(),
            descriptors_view(reg@) == registry(),
            forall|j: int| 0 <= j < i ==> registry()[j].field != field@,
        decreases reg.len() - i,
    {
        proof {
            assert(descriptors_view(reg@)[i as int] == reg@[i as int]@);
        }
        if str_eq(reg[i].field, field) {
            let d = reg[i];
            proof {
                assert(registry()[i as int] == d@);
                assert(registry()[i as int].field == field@);
            }
            return Some(d);
        }
        i = i + 1;
    }
    None
}

/// Check that a field path exists in the registry.
pub fn is_valid_field(field: &str) -> (r: bool)
    ensures
        r == is_registered(field@),
{
    match field_def(field) {
        Some(_) => true,
        None => false,
    }
}

/// The field path that replaces a legacy filter type.
pub open spec fn legacy_field(legacy: Seq<char>) -> Option<Seq<char>> {
    if legacy == "has_errors"@ {
        Some("errors.count"@)
    } else if legacy == "avg_latency_ms"@ {
        Some("latency.avg_ms"@)
    } else if legacy == "max_latency_ms"@ {
        Some("latency.max_ms"@)
    } else if legacy == "avg_cost_per_call"@ {
        Some("cost.avg_per_call"@)
    } else if legacy == "total_cost"@ {
        Some("cost.total"@)
    } else if legacy == "model"@ {
        Some("model.names"@)
    } else if legacy == "provider"@ {
        Some("provider.names"@)
    } else if legacy == "prompt"@ {
        Some("prompt.ids"@)
    } else {
        None
    }
}

/// Map a legacy filter `type` to its field path.
pub fn legacy_type_to_field(legacy: &str) -> (r: Option<&'static str>)
    ensures
        match r {
            Some(f) => legacy_field(legacy@) == Some(f@),
            None => legacy_field(legacy@) is None,
        },
{
    if str_eq(legacy, "has_errors") {
        Some("errors.count")
    } else if str_eq(legacy, "avg_latency_ms") {
        Some("latency.avg_ms")
    } else if str_eq(legacy, "max_latency_ms") {
        Some("latency.max_ms")
    } else if str_eq(legacy, "avg_cost_per_call") {
        Some("cost.avg_per_call")
    } else if str_eq(legacy, "total_cost") {
        Some("cost.total")
    } else if str_eq(legacy, "model") {
        Some("model.names")
    } else if str_eq(legacy, "provider") {
        Some("provider.names")
    } else if str_eq(legacy, "prompt") {
        Some("prompt.ids")
    } else {
        None
    }
}

// ---------------------------------------------------------------------------
// Profiles and filters
// ---------------------------------------------------------------------------

/// How the filters of a profile combine.
#[derive(Debug, Clone, Copy, PartialEq, Eq, Structural)]
pub enum FilterLogic {
    And,
    Or,
}

/// The logic of a profile that names none.
pub fn default_logic() -> (r: FilterLogic)
    ensures
        r == FilterLogic::And,
{
    FilterLogic::And
}

/// Comparison operator of a numeric filter.
#[derive(Debug, Clone, Copy, PartialEq, Eq, Structural)]
pub enum ComparisonOp {
    Lt,
    Lte,
    Gt,
    Gte,
}

/// The value of a filter: a number (the threshold of a numeric field), a
/// string (the item a set field must hold), or any other JSON value.
#[derive(Debug)]
pub enum FilterValue {
    Number(Number),
    Text(String),
    Other,
}

/// A single filter rule of a profile.
#[derive(Debug)]
pub struct SessionFilter {
    /// Virtual field path (or, before migration, a legacy filter type).
    pub field: String,
    /// Comparison operator for numeric fields.
    pub op: Option<ComparisonOp>,
    pub value: Option<FilterValue>,
}

/// A named collection of filters with AND/OR logic.
#[derive(Debug)]
pub struct SessionProfile {
    pub id: u128,
    pub name: String,
    pub logic: FilterLogic,
    pub filters: Vec<SessionFilter>,
}

/// Aggregated session data against which filters are evaluated.
pub struct SessionAggregates {
    pub error_count: Number,
    pub avg_latency_ms: Number,
    pub max_latency_ms: Number,
    pub total_cost: Number,
    pub avg_cost_per_call: Number,
    pub providers: Vec<String>,
    pub models: Vec<String>,
    pub prompt_config_ids: Vec<String>,
    pub fallback_count: Number,
    pub guardrail_count: Number,
    pub tool_call_count: Number,
    pub tool_names: Vec<String>,
    pub labels: Vec<String>,
}

/// Abstract value of a field's value.
pub enum FieldValueView {
    Numeric(Number),
    StrSet(Seq<Seq<char>>),
}

impl View for FieldValue {
    type V = FieldValueView;

    open spec fn view(&self) -> FieldValueView {
        match self {
            FieldValue::Numeric(n) => FieldValueView::Numeric(*n),
            FieldValue::StrSet(v) => FieldValueView::StrSet(strings_view(v@)),
        }
    }
}

/// The value of a virtual field for a session, if the field is registered.
pub open spec fn field_value(field: Seq<char>, agg: SessionAggregates) -> Option<FieldValueView> {
    if field == "errors.count"@ {
        Some(FieldValueView::Numeric(agg.error_count))
    } else if field == "latency.avg_ms"@ {
        Some(FieldValueView::Numeric(agg.avg_latency_ms))
    } else if field == "latency.max_ms"@ {
        Some(FieldValueView::Numeric(agg.max_latency_ms))
    } else if field == "cost.total"@ {
        Some(FieldValueView::Numeric(agg.total_cost))
    } else if field == "cost.avg_per_call"@ {
        Some(FieldValueView::Numeric(agg.avg_cost_per_call))
    } else if field == "model.names"@ {
        Some(FieldValueView::StrSet(strings_view(agg.models@)))
    } else if field == "provider.names"@ {
        Some(FieldValueView::StrSet(strings_view(agg.providers@)))
    } else if field == "prompt.ids"@ {
        Some(FieldValueView::StrSet(strings_view(agg.prompt_config_ids@)))
    } else if field == "fallback.count"@ {
        Some(FieldValueView::Numeric(agg.fallback_count))
    } else if field == "guardrail.count"@ {
        Some(FieldValueView::Numeric(agg.guardrail_count))
    } else if field == "tools.count"@ {
        Some(FieldValueView::Numeric(agg.tool_call_count))
    } else if field == "tools.names"@ {
        Some(FieldValueView::StrSet(strings_view(agg.tool_names@)))
    } else if field == "labels.names"@ {
        Some(FieldValueView::StrSet(strings_view(agg.labels@)))
    } else {
        None
    }
}

fn clone_strings(v: &Vec<String>) -> (r: Vec<String>)
    ensures
        strings_view(r@) == strings_view(v@),
{
    let mut out: Vec<String> = Vec::new();
    let mut i: usize = 0;
    while i < v.len()
        invariant
            i <= v.len(),
            strings_view(out@) == strings_view(v@.subrange(0, i as int)),
        decreases v.len() - i,
    {
        let ghost before = out@;
        out.push(v[i].clone());
        proof {
            assert(strings_view(out@) =~= strings_view(before).push(v@[i as int]@));
            assert(strings_view(v@.subrange(0, i as int + 1)) =~= strings_view(
                v@.subrange(0, i as int),
            ).push(v@[i as int]@));
        }
        i = i + 1;
    }
    proof {
        assert(v@.subrange(0, v@.len() as int) =~= v@);
    }
    out
}

/// The value of a virtual field for a session.
pub fn extract_field(field: &str, agg: &SessionAggregates) -> (r: Option<FieldValue>)
    ensures
        match r {
            Some(v) => field_value(field@, *agg) == Some(v@),
            None => field_value(field@, *agg) is None,
        },
{
    if str_eq(field, "errors.count") {
        Some(FieldValue::Numeric(agg.error_count))
    } else if str_eq(field, "latency.avg_ms") {
        Some(FieldValue::Numeric(agg.avg_latency_ms))
    } else if str_eq(field, "latency.max_ms") {
        Some(FieldValue::Numeric(agg.max_latency_ms))
    } else if str_eq(field, "cost.total") {
        Some(FieldValue::Numeric(agg.total_cost))
    } else if str_eq(field, "cost.avg_per_call") {
        Some(FieldValue::Numeric(agg.avg_cost_per_call))
    } else if str_eq(field, "model.names") {
        Some(FieldValue::StrSet(clone_strings(&agg.models)))
    } else if str_eq(field, "provider.names") {
        Some(FieldValue::StrSet(clone_strings(&agg.providers)))
    } else if str_eq(field, "prompt.ids") {
        Some(FieldValue::StrSet(clone_strings(&agg.prompt_config_ids)))
    } else if str_eq(field, "fallback.count") {
        Some(FieldValue::Numeric(agg.fallback_count))
    } else if str_eq(field, "guardrail.count") {
        Some(FieldValue::Numeric(agg.guardrail_count))
    } else if str_eq(field, "tools.count") {
        Some(FieldValue::Numeric(agg.tool_call_count))
    } else if str_eq(field, "tools.names") {
        Some(FieldValue::StrSet(clone_strings(&agg.tool_names)))
    } else if str_eq(field, "labels.names") {
        Some(FieldValue::StrSet(clone_strings(&agg.labels)))
    } else {
        None
    }
}

/// The threshold of a numeric filter: its numeric value, else zero.
pub open spec fn threshold_of(v: Option<FilterValue>) -> Number {
    match v {
        Some(FilterValue::Number(n)) => n,
        _ => Number { key: Some(0) },
    }
}

/// The item a set filter looks for: its string value, else nothing.
pub open spec fn target_of(v: Option<FilterValue>) -> Seq<char> {
    match v {
        Some(FilterValue::Text(t)) => t@,
        _ => Seq::empty(),
    }
}

/// `actual op threshold`, with `>=` when no operator is given; any
/// comparison with "not a number" is false.
pub open spec fn compares(op: Option<ComparisonOp>, actual: Number, threshold: Number) -> bool {
    match (actual.key, threshold.key) {
        (Some(a), Some(t)) => match op {
            Some(ComparisonOp::Lt) => a < t,
            Some(ComparisonOp::Lte) => a <= t,
            Some(ComparisonOp::Gt) => a > t,
            _ => a >= t,
        },
        _ => false,
    }
}

/// Whether a filter holds for a session: an unknown field never holds; a
/// numeric field is compared with the threshold; a set field must hold the
/// (non-empty) target.
pub open spec fn filter_holds(f: SessionFilter, agg: SessionAggregates) -> bool {
    match field_value(f.field@, agg) {
        None => false,
        Some(FieldValueView::Numeric(actual)) => compares(f.op, actual, threshold_of(f.value)),
        Some(FieldValueView::StrSet(items)) => target_of(f.value).len() > 0 && items.contains(
            target_of(f.value),
        ),
    }
}

/// Whether a profile matches a session: never without filters; otherwise all
/// filters (AND) or some filter (OR) hold.
pub open spec fn profile_matches(p: SessionProfile, agg: SessionAggregates) -> bool {
    p.filters@.len() > 0 && match p.logic {
        FilterLogic::And => forall|i: int|
            0 <= i < p.filters@.len() ==> filter_holds(#[trigger] p.filters@[i], agg),
        FilterLogic::Or => exists|i: int|
            0 <= i < p.filters@.len() && filter_holds(#[trigger] p.filters@[i], agg),
    }
}

fn compare_numeric(op: Option<ComparisonOp>, actual: Number, threshold: Number) -> (r: bool)
    ensures
        r == compares(op, actual, threshold),
{
    match (actual.key, threshold.key) {
        (Some(a), Some(t)) => match op {
            Some(ComparisonOp::Lt) => a < t,
            Some(ComparisonOp::Lte) => a <= t,
            Some(ComparisonOp::Gt) => a > t,
            _ => a >= t,
        },
        _ => false,
    }
}

fn list_contains(items: &Vec<String>, target: &str) -> (r: bool)
    ensures
        r == strings_view(items@).contains(target@),
{
    let mut i: usize = 0;
    while i < items.len()
        invariant
            i <= items.len(),
            forall|j: int| 0 <= j < i ==> items@[j]@ != target@,
        decreases items.len() - i,
    {
        if str_eq(items[i].as_str(), target) {
            proof {
                assert(strings_view(items@)[i as int] == target@);
            }
            return true;
        }
        i = i + 1;
    }
    proof {
        if strings_view(items@).contains(target@) {
            let j = choose|j: int| 0 <= j < strings_view(items@).len() && strings_view(items@)[j] == target@;
            assert(items@[j]@ == strings_view(items@)[j]);
        }
    }
    false
}

impl SessionFilter {
    /// Evaluate this filter against a session's aggregated data.
    pub fn evaluate(&self, agg: &SessionAggregates) -> (r: bool)
        ensures
            r == filter_holds(*self, *agg),
    {
        match extract_field(self.field.as_str(), agg) {
            None => false,
            Some(FieldValue::Numeric(actual)) => {
                let threshold = match &self.value {
                    Some(FilterValue::Number(n)) => *n,
                    _ => Number::zero(),
                };
                compare_numeric(self.op, actual, threshold)
            },
            Some(FieldValue::StrSet(items)) => {
                match &self.value {
                    Some(FilterValue::Text(t)) => {
                        if t.as_str().is_empty() {
                            false
                        } else {
                            list_contains(&items, t.as_str())
                        }
                    },
                    _ => false,
                }
            },
        }
    }
}

impl SessionProfile {
    /// Evaluate this profile against a session's aggregated data.
    pub fn matches(&self, agg: &SessionAggregates) -> (r: bool)
        ensures
            r == profile_matches(*self, *agg),
    {
        if self.filters.len() == 0 {
            return false;
        }
        let mut i: usize = 0;
        match self.logic {
            FilterLogic::And => {
                while i < self.filters.len()
                    invariant
                        i <= self.filters@.len(),
                        self.filters@.len() > 0,
                        self.logic == FilterLogic::And,
                        forall|j: int| 0 <= j < i ==> filter_holds(#[trigger] self.filters@[j], *agg),
                    decreases self.filters.len() - i,
                {
                    if !self.filters[i].evaluate(agg) {
                        proof {
                            assert(!filter_holds(self.filters@[i as int], *agg));
                        }
                        return false;
                    }
                    i = i + 1;
                }
                true
            },
            FilterLogic::Or => {
                while i < self.filters.len()
                    invariant
                        i <= self.filters@.len(),
                        self.filters@.len() > 0,
                        self.logic == FilterLogic::Or,
                        forall|j: int| 0 <= j < i ==> !filter_holds(#[trigger] self.filters@[j], *agg),
                    decreases self.filters.len() - i,
                {
                    if self.filters[i].evaluate(agg) {
                        proof {
                            assert(filter_holds(self.filters@[i as int], *agg));
                        }
                        return true;
                    }
                    i = i + 1;
                }
                false
            },
        }
    }
}

// ---------------------------------------------------------------------------
// Migration
// ---------------------------------------------------------------------------

/// Whether a filter is the migrated form of `old`: a legacy type becomes its
/// field path (`has_errors` additionally becomes `>= 1`); other filters stay
/// as they were.
pub open spec fn migrated_filter(old: SessionFilter, new: SessionFilter, one: Number) -> bool {
    match legacy_field(old.field@) {
        Some(f) => {
            &&& new.field@ == f
            &&& if old.field@ == "has_errors"@ {
                new.op == Some(ComparisonOp::Gte) && new.value == Some(FilterValue::Number(one))
            } else {
                new.op == old.op && new.value == old.value
            }
        },
        None => new.field@ == old.field@ && new.op == old.op && new.value == old.value,
    }
}

/// Key of the number 1 (IEEE-754 bits 0x3FF0000000000000).
pub open spec fn one_key() -> Number {
    Number { key: Some(0x3FF0_0000_0000_0000i64) }
}

fn migrate_filter(f: &mut SessionFilter)
    ensures
        migrated_filter(*old(f), *final(f), one_key()),
{
    match legacy_type_to_field(f.field.as_str()) {
        Some(new_field) => {
            let was_has_errors = str_eq(f.field.as_str(), "has_errors");
            f.field = owned(new_field);
            if was_has_errors {
                f.op = Some(ComparisonOp::Gte);
                f.value = Some(FilterValue::Number(Number { key: Some(0x3FF0_0000_0000_0000i64) }));
            }
        },
        None => {},
    }
}

/// Upgrade legacy filters in place; call after reading stored profiles.
pub fn migrate_profiles(profiles: &mut Vec<SessionProfile>)
    ensures
        final(profiles)@.len() == old(profiles)@.len(),
        forall|i: int|
            #![trigger final(profiles)@[i]]
            0 <= i < old(profiles)@.len() ==> {
                &&& final(profiles)@[i].id == old(profiles)@[i].id
                &&& final(profiles)@[i].name@ == old(profiles)@[i].name@
                &&& final(profiles)@[i].logic == old(profiles)@[i].logic
                &&& final(profiles)@[i].filters@.len() == old(profiles)@[i].filters@.len()
                &&& forall|j: int|
                    0 <= j < old(profiles)@[i].filters@.len() ==> migrated_filter(
                        #[trigger] old(profiles)@[i].filters@[j],
                        final(profiles)@[i].filters@[j],
                        one_key(),
                    )
            },
{
    let ghost orig = profiles@;
    let mut i: usize = 0;
    while i < profiles.len()
        invariant
            i <= profiles@.len(),
            profiles@.len() == orig.len(),
            forall|k: int| i <= k < orig.len() ==> #[trigger] profiles@[k] == orig[k],
            forall|k: int|
                #![trigger profiles@[k]]
                0 <= k < i ==> {
                    &&& profiles@[k].id == orig[k].id
                    &&& profiles@[k].name@ == orig[k].name@
                    &&& profiles@[k].logic == orig[k].logic
                    &&& profiles@[k].filters@.len() == orig[k].filters@.len()
                    &&& forall|j: int|
                        0 <= j < orig[k].filters@.len() ==> migrated_filter(
                            #[trigger] orig[k].filters@[j],
                            profiles@[k].filters@[j],
                            one_key(),
                        )
                },
        decreases profiles.len() - i,
    {
        let mut p = profiles.remove(i);
        let ghost p0 = p;
        let mut j: usize = 0;
        while j < p.filters.len()
            invariant
                j <= p.filters@.len(),
                p.filters@.len() == p0.filters@.len(),
                p.id == p0.id,
                p.name == p0.name,
                p.logic == p0.logic,
                forall|q: int| j <= q < p0.filters@.len() ==> #[trigger] p.filters@[q] == p0.filters@[q],
                forall|q: int|
                    0 <= q < j ==> migrated_filter(#[trigger] p0.filters@[q], p.filters@[q], one_key()),
            decreases p.filters.len() - j,
        {
            let mut f = p.filters.remove(j);
            migrate_filter(&mut f);
            p.filters.insert(j, f);
            j = j + 1;
        }
        profiles.insert(i, p);
        i = i + 1;
    }
}

// ---------------------------------------------------------------------------
// Laws
// ---------------------------------------------------------------------------

/// Lexicographic order on texts (by character code, as `str::cmp` orders).
pub open spec fn text_le(a: Seq<char>, b: Seq<char>) -> bool
    decreases a.len(),
{
    if a.len() == 0 {
        true
    } else if b.len() == 0 {
        false
    } else if a[0] != b[0] {
        a[0] < b[0]
    } else {
        text_le(a.drop_first(), b.drop_first())
    }
}

/// The order of the descriptor list: by namespace, then by label.
pub open spec fn entry_le(a: FieldEntry, b: FieldEntry) -> bool {
    (a.namespace != b.namespace && text_le(a.namespace, b.namespace)) || (a.namespace
        == b.namespace && text_le(a.label, b.label))
}

/// The available fields come sorted by namespace, then label.
pub proof fn lemma_available_fields_sorted()
    ensures
        forall|i: int|
            0 <= i < registry().len() - 1 ==> entry_le(registry()[i], #[trigger] registry()[i + 1]),
{
    reveal_strlit("Cost");
    reveal_strlit("Errors");
    reveal_strlit("Fallback");
    reveal_strlit("Guardrail");
    reveal_strlit("Labels");
    reveal_strlit("Latency");
    reveal_strlit("Model");
    reveal_strlit("Prompt");
    reveal_strlit("Provider");
    reveal_strlit("Tools");
    reveal_strlit("avg_per_call");
    reveal_strlit("total");
    reveal_strlit("avg_ms");
    reveal_strlit("max_ms");
    reveal_strlit("count");
    reveal_strlit("names");
    assert("Cost"@[0] == 'C' && "Cost"@.len() == 4);
    assert("Errors"@[0] == 'E' && "Errors"@.len() == 6);
    assert("Fallback"@[0] == 'F' && "Fallback"@.len() == 8);
    assert("Guardrail"@[0] == 'G' && "Guardrail"@.len() == 9);
    assert("Labels"@[0] == 'L' && "Labels"@[1] == 'a' && "Labels"@[2] == 'b' && "Labels"@.len() == 6);
    assert("Latency"@[0] == 'L' && "Latency"@[1] == 'a' && "Latency"@[2] == 't' && "Latency"@.len() == 7);
    assert("Model"@[0] == 'M' && "Model"@.len() == 5);
    assert("Prompt"@[0] == 'P' && "Prompt"@[1] == 'r' && "Prompt"@[2] == 'o' && "Prompt"@[3] == 'm' && "Prompt"@.len() == 6);
    assert("Provider"@[0] == 'P' && "Provider"@[1] == 'r' && "Provider"@[2] == 'o' && "Provider"@[3] == 'v' && "Provider"@.len() == 8);
    assert("Tools"@[0] == 'T' && "Tools"@.len() == 5);
    assert("avg_per_call"@[0] == 'a' && "avg_per_call"@.len() == 12);
    assert("total"@[0] == 't' && "total"@.len() == 5);
    assert("avg_ms"@[0] == 'a' && "avg_ms"@.len() == 6);
    assert("max_ms"@[0] == 'm' && "max_ms"@.len() == 6);
    assert("count"@[0] == 'c' && "count"@.len() == 5);
    assert("names"@[0] == 'n' && "names"@.len() == 5);
    let l1 = "Labels"@;
    let l2 = "Latency"@;
    assert(text_le(l1.drop_first().drop_first(), l2.drop_first().drop_first()));
    assert(text_le(l1.drop_first(), l2.drop_first()));
    assert(text_le(l1, l2));
    let p1 = "Prompt"@;
    let p2 = "Provider"@;
    assert(text_le(p1.drop_first().drop_first().drop_first(), p2.drop_first().drop_first().drop_first()));
    assert(text_le(p1.drop_first().drop_first(), p2.drop_first().drop_first()));
    assert(text_le(p1.drop_first(), p2.drop_first()));
    assert(text_le(p1, p2));
}

/// Every registered field has a value for every session, of the kind the
/// registry gives it; no other field has one.
pub proof fn lemma_registry_consistent(agg: SessionAggregates)
    ensures
        forall|i: int|
            0 <= i < registry().len() ==> match field_value(#[trigger] registry()[i].field, agg) {
                Some(FieldValueView::Numeric(_)) => registry()[i].kind == FieldKind::Numeric,
                Some(FieldValueView::StrSet(_)) => registry()[i].kind == FieldKind::StrSet,
                None => false,
            },
{
    reveal_strlit("errors.count");
    reveal_strlit("latency.avg_ms");
    reveal_strlit("latency.max_ms");
    reveal_strlit("cost.total");
    reveal_strlit("cost.avg_per_call");
    reveal_strlit("model.names");
    reveal_strlit("provider.names");
    reveal_strlit("prompt.ids");
    reveal_strlit("fallback.count");
    reveal_strlit("guardrail.count");
    reveal_strlit("tools.count");
    reveal_strlit("tools.names");
    reveal_strlit("labels.names");
    assert("errors.count"@.len() == 12 && "errors.count"@[0] == 'e');
    assert("latency.avg_ms"@.len() == 14 && "latency.avg_ms"@[0] == 'l' && "latency.avg_ms"@[8] == 'a');
    assert("latency.max_ms"@.len() == 14 && "latency.max_ms"@[0] == 'l' && "latency.max_ms"@[8] == 'm');
    assert("cost.total"@.len() == 10 && "cost.total"@[0] == 'c');
    assert("cost.avg_per_call"@.len() == 17 && "cost.avg_per_call"@[0] == 'c');
    assert("model.names"@.len() == 11 && "model.names"@[0] == 'm');
    assert("provider.names"@.len() == 14 && "provider.names"@[0] == 'p');
    assert("prompt.ids"@.len() == 10 && "prompt.ids"@[0] == 'p');
    assert("fallback.count"@.len() == 14 && "fallback.count"@[0] == 'f');
    assert("guardrail.count"@.len() == 15 && "guardrail.count"@[0] == 'g');
    assert("tools.count"@.len() == 11 && "tools.count"@[0] == 't' && "tools.count"@[6] == 'c');
    assert("tools.names"@.len() == 11 && "tools.names"@[0] == 't' && "tools.names"@[6] == 'n');
    assert("labels.names"@.len() == 12 && "labels.names"@[0] == 'l');
}

/// A profile whose filters all hold matches under AND, and then also under
/// OR with the same filters.
pub proof fn lemma_and_implies_or(p: SessionProfile, q: SessionProfile, agg: SessionAggregates)
    requires
        p.filters == q.filters,
        p.logic == FilterLogic::And,
        q.logic == FilterLogic::Or,
        profile_matches(p, agg),
    ensures
        profile_matches(q, agg),
{
    assert(filter_holds(q.filters@[0], agg));
}

/// A set filter whose value is not a non-empty string never holds.
pub proof fn lemma_empty_target_never_matches(f: SessionFilter, agg: SessionAggregates)
    requires
        target_of(f.value).len() == 0,
        field_value(f.field@, agg) matches Some(FieldValueView::StrSet(_)),
    ensures
        !filter_holds(f, agg),
{
}

/// Migration is idempotent: migrating a migrated filter changes nothing.
pub proof fn lemma_migrate_idempotent(f0: SessionFilter, f1: SessionFilter, f2: SessionFilter)
    requires
        migrated_filter(f0, f1, one_key()),
        migrated_filter(f1, f2, one_key()),
    ensures
        f2.field@ == f1.field@,
        f2.op == f1.op,
        f2.value == f1.value,
{
    reveal_strlit("has_errors");
    reveal_strlit("avg_latency_ms");
    reveal_strlit("max_latency_ms");
    reveal_strlit("avg_cost_per_call");
    reveal_strlit("total_cost");
    reveal_strlit("model");
    reveal_strlit("provider");
    reveal_strlit("prompt");
    assert("has_errors"@.len() == 10 && "has_errors"@[0] == 'h');
    assert("avg_latency_ms"@.len() == 14 && "avg_latency_ms"@[0] == 'a');
    assert("max_latency_ms"@.len() == 14 && "max_latency_ms"@[0] == 'm');
    assert("avg_cost_per_call"@.len() == 17 && "avg_cost_per_call"@[0] == 'a');
    assert("total_cost"@.len() == 10 && "total_cost"@[0] == 't');
    assert("model"@.len() == 5);
    assert("provider"@.len() == 8);
    assert("prompt"@.len() == 6);
    reveal_strlit("errors.count");
    reveal_strlit("latency.avg_ms");
    reveal_strlit("latency.max_ms");
    reveal_strlit("cost.total");
    reveal_strlit("cost.avg_per_call");
    reveal_strlit("model.names");
    reveal_strlit("provider.names");
    reveal_strlit("prompt.ids");
    reveal_strlit("fallback.count");
    reveal_strlit("guardrail.count");
    reveal_strlit("tools.count");
    reveal_strlit("tools.names");
    reveal_strlit("labels.names");
    assert("errors.count"@.len() == 12 && "errors.count"@[0] == 'e');
    assert("latency.avg_ms"@.len() == 14 && "latency.avg_ms"@[0] == 'l' && "latency.avg_ms"@[8] == 'a');
    assert("latency.max_ms"@.len() == 14 && "latency.max_ms"@[0] == 'l' && "latency.max_ms"@[8] == 'm');
    assert("cost.total"@.len() == 10 && "cost.total"@[0] == 'c');
    assert("cost.avg_per_call"@.len() == 17 && "cost.avg_per_call"@[0] == 'c');
    assert("model.names"@.len() == 11 && "model.names"@[0] == 'm');
    assert("provider.names"@.len() == 14 && "provider.names"@[0] == 'p');
    assert("prompt.ids"@.len() == 10 && "prompt.ids"@[0] == 'p');
    assert("fallback.count"@.len() == 14 && "fallback.count"@[0] == 'f');
    assert("guardrail.count"@.len() == 15 && "guardrail.count"@[0] == 'g');
    assert("tools.count"@.len() == 11 && "tools.count"@[0] == 't' && "tools.count"@[6] == 'c');
    assert("tools.names"@.len() == 11 && "tools.names"@[0] == 't' && "tools.names"@[6] == 'n');
    assert("labels.names"@.len() == 12 && "labels.names"@[0] == 'l');
    if legacy_field(f0.field@) is Some {
        let p = legacy_field(f0.field@)->0;
        assert(legacy_field(p) is None);
    }
}

} // verus!
