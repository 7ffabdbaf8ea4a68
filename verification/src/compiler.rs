//! Prompt compiler helpers: the generation prompt, reading the model's JSON
//! answers out of fenced replies, and the search over candidate rounds.

use vstd::prelude::*;
use vstd::string::*;

use crate::errors::ApiError;
use crate::json::{
    json_has_member, json_list, json_list_items, json_member_items, json_member_list,
    json_member_present, json_member_str, json_member_string,
};
use crate::profiles::Number;
use crate::text::{
    chars_of, chars_range, decimal, decimal_string, find_char, has_prefix, has_substring, occurs_at,
    owned, rfind_char, rfind_chars, str_contains, str_eq, strings_view, take_chars, take_chars_spec,
    trim_chars, trim_spec,
};

verus! {

/// Rounds of candidate generation at most.
pub const MAX_ROUNDS: usize = 3;

/// Candidates asked for per round.
pub const CANDIDATES_PER_ROUND: usize = 3;

/// The error text that marks a cancelled compilation.
pub open spec fn cancelled_marker() -> Seq<char> {
    "compilation_cancelled"@
}

/// Whether an error chain (each error's message) says the compilation was
/// cancelled.
pub fn is_compilation_cancelled_err(chain: &Vec<String>) -> (r: bool)
    ensures
        r == exists|i: int| 0 <= i < chain@.len() && (#[trigger] chain@[i])@ == cancelled_marker(),
{
    let mut i: usize = 0;
    while i < chain.len()
        invariant
            i <= chain@.len(),
            forall|j: int| 0 <= j < i ==> (#[trigger] chain@[j])@ != cancelled_marker(),
        decreases chain.len() - i,
    {
        if str_eq(chain[i].as_str(), "compilation_cancelled") {
            return true;
        }
        i = i + 1;
    }
    false
}

/// A candidate system prompt proposed by the model.
#[derive(Debug)]
pub struct CandidatePrompt {
    pub system_prompt: String,
    pub reasoning: String,
}

/// One step of a prompt's decomposition into sub-tasks.
#[derive(Debug)]
pub struct DecompStep {
    pub name: String,
    pub description: String,
    pub inputs: String,
    pub output: String,
}

/// A prompt's decomposition into sub-tasks.
#[derive(Debug)]
pub struct Decomposition {
    pub steps: Vec<DecompStep>,
}

/// What the compiler optimises for.
#[derive(Debug, Clone, Copy, PartialEq, Eq, Structural)]
pub enum OptimizationTarget {
    Quality,
    ErrorRate,
    Cost,
    Latency,
}

/// The name of a target.
pub open spec fn target_name(t: OptimizationTarget) -> Seq<char> {
    match t {
        OptimizationTarget::Quality => "quality"@,
        OptimizationTarget::ErrorRate => "error_rate"@,
        OptimizationTarget::Cost => "cost"@,
        OptimizationTarget::Latency => "latency"@,
    }
}

/// The hint used for a target when the request gives none.
pub open spec fn default_hint(t: OptimizationTarget) -> Seq<char> {
    match t {
        OptimizationTarget::Quality => "Maximize response quality and helpfulness"@,
        OptimizationTarget::ErrorRate => "Minimize error rate and improve reliability"@,
        OptimizationTarget::Cost => "Reduce token usage and cost while maintaining quality"@,
        OptimizationTarget::Latency => "Reduce response latency by being more concise"@,
    }
}

impl OptimizationTarget {
    /// The target's name.
    pub fn to_string(&self) -> (r: String)
        ensures
            r@ == target_name(*self),
    {
        match self {
            OptimizationTarget::Quality => owned("quality"),
            OptimizationTarget::ErrorRate => owned("error_rate"),
            OptimizationTarget::Cost => owned("cost"),
            OptimizationTarget::Latency => owned("latency"),
        }
    }
}

/// The optimisation hint: the requested one, else the target's default.
pub fn hint_text(hint: Option<String>, target: OptimizationTarget) -> (r: String)
    ensures
        r@ == (match hint {
            Some(h) => h@,
            None => default_hint(target),
        }),
{
    match hint {
        Some(h) => h,
        None => match target {
            OptimizationTarget::Quality => owned("Maximize response quality and helpfulness"),
            OptimizationTarget::ErrorRate => owned("Minimize error rate and improve reliability"),
            OptimizationTarget::Cost => owned("Reduce token usage and cost while maintaining quality"),
            OptimizationTarget::Latency => owned("Reduce response latency by being more concise"),
        },
    }
}

// ---------------------------------------------------------------------------
// Generation prompt
// ---------------------------------------------------------------------------

/// An earlier candidate with its composite score: `score` orders attempts,
/// `score_text` is the score written with three decimals.
pub struct PreviousAttempt {
    pub system_prompt: String,
    pub reasoning: String,
    pub score: Number,
    pub score_text: String,
}

/// Whether `o` lists the attempts' indices ordered by score, ties in their
/// original order (the order a stable sort gives).
pub open spec fn stable_score_order(keys: Seq<i64>, o: Seq<int>) -> bool {
    &&& o.len() == keys.len()
    &&& forall|a: int| 0 <= a < o.len() ==> 0 <= #[trigger] o[a] < keys.len()
    &&& forall|a: int, b: int| 0 <= a < b < o.len() ==> o[a] != o[b]
    &&& forall|a: int|
        0 <= a < o.len() - 1 ==> keys[o[a]] < keys[#[trigger] o[a + 1]] || (keys[o[a]] == keys[o[a
            + 1]] && o[a] < o[a + 1])
}

/// The order keys of the scores.
pub open spec fn score_keys(h: Seq<PreviousAttempt>) -> Seq<i64> {
    h.map_values(|a: PreviousAttempt| a.score.key->0)
}

fn score_at_most(n: &Number, k: i64) -> (r: bool)
    ensures
        r == (match n.key {
            Some(x) => x <= k,
            None => true,
        }),
{
    match n.key {
        Some(x) => x <= k,
        None => true,
    }
}

/// Indices of the attempts, ordered by score, ties in their original order.
pub fn attempts_by_score(history: &[PreviousAttempt]) -> (r: Vec<usize>)
    requires
        forall|i: int| 0 <= i < history@.len() ==> (#[trigger] history@[i]).score.key is Some,
    ensures
        stable_score_order(score_keys(history@), r@.map_values(|x: usize| x as int)),
{
    let ghost keys = score_keys(history@);
    let mut order: Vec<usize> = Vec::new();
    let mut i: usize = 0;
    while i < history.len()
        invariant
            i <= history@.len(),
            keys == score_keys(history@),
            forall|q: int| 0 <= q < history@.len() ==> (#[trigger] history@[q]).score.key is Some,
            order@.len() == i,
            forall|a: int| 0 <= a < order@.len() ==> (#[trigger] order@[a]) < i,
            forall|a: int, b: int| 0 <= a < b < order@.len() ==> order@[a] != order@[b],
            forall|a: int|
                0 <= a < order@.len() - 1 ==> keys[order@[a] as int] < keys[#[trigger] order@[a
                    + 1] as int] || (keys[order@[a] as int] == keys[order@[a + 1] as int]
                    && order@[a] < order@[a + 1]),
        decreases history.len() - i,
    {
        let k = match history[i].score.key {
            Some(k) => k,
            None => 0,
        };
        proof {
            assert(keys[i as int] == k);
        }
        let mut p: usize = 0;
        while p < order.len() && score_at_most(&history[order[p]].score, k)
            invariant
                p <= order@.len(),
                keys == score_keys(history@),
                forall|q: int| 0 <= q < history@.len() ==> (#[trigger] history@[q]).score.key is Some,
                forall|a: int| 0 <= a < order@.len() ==> (#[trigger] order@[a]) < i,
                i < history@.len(),
                keys[i as int] == k,
                forall|a: int| 0 <= a < p ==> keys[(#[trigger] order@[a]) as int] <= k,
            decreases order.len() - p,
        {
            proof {
                assert(keys[order@[p as int] as int] == history@[order@[p as int] as int].score.key->0);
            }
            p = p + 1;
        }
        proof {
            if p < order@.len() {
                assert(keys[order@[p as int] as int] == history@[order@[p as int] as int].score.key->0);
                assert(keys[order@[p as int] as int] > k);
            }
        }
        let ghost old_order = order@;
        proof {
            assert forall|a: int| 0 <= a < p implies keys[(#[trigger] old_order[a]) as int] <= k by {}
        }
        order.insert(p, i);
        proof {
            assert(order@[p as int] == i);
            assert forall|a: int| 0 <= a < order@.len() - 1 implies keys[order@[a] as int] < keys[#[trigger] order@[a + 1] as int] || (keys[order@[a] as int] == keys[order@[a + 1] as int] && order@[a] < order@[a + 1]) by {
                if a + 1 < p {
                    assert(order@[a] == old_order[a] && order@[a + 1] == old_order[a + 1]);
                    assert(keys[old_order[a] as int] < keys[old_order[a + 1] as int] || (keys[old_order[a] as int] == keys[old_order[a + 1] as int] && old_order[a] < old_order[a + 1]));
                } else if a + 1 == p {
                    assert(order@[a] == old_order[a]);
                    assert(keys[old_order[a] as int] <= k);
                    assert(old_order[a] < i);
                } else if a == p {
                    assert(order@[a + 1] == old_order[a]);
                    assert(keys[old_order[a] as int] > k);
                } else {
                    let b = a - 1;
                    assert(order@[a] == old_order[b] && order@[a + 1] == old_order[b + 1]);
                    assert(keys[old_order[b] as int] < keys[old_order[b + 1] as int] || (keys[old_order[b] as int] == keys[old_order[b + 1] as int] && old_order[b] < old_order[b + 1]));
                }
            }
            assert forall|a: int, b: int| 0 <= a < b < order@.len() implies order@[a] != order@[b] by {
                if a < p && b < p {
                    assert(order@[a] == old_order[a] && order@[b] == old_order[b]);
                } else if a < p && b == p {
                    assert(order@[a] == old_order[a]);
                } else if a < p {
                    assert(order@[a] == old_order[a]);
                    assert(order@[b] == old_order[b - 1]);
                } else if a == p {
                    assert(order@[b] == old_order[b - 1]);
                } else {
                    assert(order@[a] == old_order[a - 1] && order@[b] == old_order[b - 1]);
                }
            }
            assert forall|a: int| 0 <= a < order@.len() implies (#[trigger] order@[a]) < i + 1 by {
                if a < p {
                    assert(order@[a] == old_order[a]);
                } else if a > p {
                    assert(order@[a] == old_order[a - 1]);
                }
            }
        }
        i = i + 1;
    }
    proof {
        let o = order@.map_values(|x: usize| x as int);
        assert forall|a: int| 0 <= a < o.len() - 1 implies keys[o[a]] < keys[#[trigger] o[a + 1]] || (keys[o[a]] == keys[o[a + 1]] && o[a] < o[a + 1]) by {
            assert(o[a] == order@[a] as int && o[a + 1] == order@[a + 1] as int);
        }
        assert forall|a: int, b: int| 0 <= a < b < o.len() implies o[a] != o[b] by {
            assert(o[a] == order@[a] as int && o[b] == order@[b] as int);
        }
        assert forall|a: int| 0 <= a < o.len() implies 0 <= #[trigger] o[a] < keys.len() by {
            assert(o[a] == order@[a] as int);
        }
    }
    order
}

/// The line that states what to optimise for.
pub open spec fn target_line(hint: Option<Seq<char>>) -> Seq<char> {
    match hint {
        Some(h) => "OPTIMIZATION HINT: "@ + h + "\n"@,
        None => "Generate generally improved variants with better clarity, structure, and specificity.\n"@,
    }
}

/// The text describing step `i` (from 0) of a decomposition.
pub open spec fn step_block(i: int, s: DecompStep) -> Seq<char> {
    "\nStep "@ + decimal((i + 1) as nat) + " \u{2014} "@ + s.name@ + ":\n  Description: "@
        + s.description@ + "\n  Inputs: "@ + s.inputs@ + "\n  Output: "@ + s.output@ + "\n"@
}

/// The step texts of a decomposition, in order.
pub open spec fn steps_text(steps: Seq<DecompStep>) -> Seq<char>
    decreases steps.len(),
{
    if steps.len() == 0 {
        Seq::empty()
    } else {
        steps_text(steps.drop_last()) + step_block(steps.len() - 1, steps.last())
    }
}

/// The decomposition section: empty without steps.
pub open spec fn decomposition_section(steps: Seq<DecompStep>) -> Seq<char> {
    if steps.len() == 0 {
        Seq::empty()
    } else {
        "\nDECOMPOSITION (identified sub-tasks to structure the prompt around):\n"@ + steps_text(steps)
            + "\nRewrite the prompt with explicit step-by-step structure based on the decomposition above.\n"@
    }
}

/// The text describing attempt number `i` (from 0) in score order.
pub open spec fn attempt_block(i: int, a: PreviousAttempt) -> Seq<char> {
    "\n--- Attempt "@ + decimal((i + 1) as nat) + " (score: "@ + a.score_text@ + ") ---\nReasoning: "@
        + a.reasoning@ + "\nPrompt excerpt: "@ + take_chars_spec(a.system_prompt@, 200) + "...\n"@
}

/// The attempt texts, in the given order.
pub open spec fn attempts_text(h: Seq<PreviousAttempt>, o: Seq<int>) -> Seq<char>
    decreases o.len(),
{
    if o.len() == 0 {
        Seq::empty()
    } else {
        attempts_text(h, o.drop_last()) + attempt_block(o.len() - 1, h[o.last()])
    }
}

/// The history section for attempts in order `o`: empty without attempts.
pub open spec fn history_section(h: Seq<PreviousAttempt>, o: Seq<int>) -> Seq<char> {
    if h.len() == 0 {
        Seq::empty()
    } else {
        "\nPREVIOUS ATTEMPTS (sorted worst to best):\n"@ + attempts_text(h, o)
    }
}

/// The whole generation prompt, with attempts in order `o`.
pub open spec fn generation_prompt(
    source: Seq<char>,
    hint: Option<Seq<char>>,
    h: Seq<PreviousAttempt>,
    o: Seq<int>,
    steps: Seq<DecompStep>,
) -> Seq<char> {
    "CURRENT SYSTEM PROMPT:\n```\n"@ + source + "\n```\n\n"@ + target_line(hint)
        + decomposition_section(steps) + history_section(h, o)
}

fn step_block_string(i: usize, step: &DecompStep) -> (r: String)
    requires
        i < usize::MAX,
    ensures
        r@ == step_block(i as int, *step),
{
    let mut b = owned("\nStep ");
    b.append(decimal_string((i + 1) as u64).as_str());
    b.append(" \u{2014} ");
    b.append(step.name.as_str());
    b.append(":\n  Description: ");
    b.append(step.description.as_str());
    b.append("\n  Inputs: ");
    b.append(step.inputs.as_str());
    b.append("\n  Output: ");
    b.append(step.output.as_str());
    b.append("\n");
    b
}

fn attempt_block_string(i: usize, attempt: &PreviousAttempt) -> (r: String)
    requires
        i < usize::MAX,
    ensures
        r@ == attempt_block(i as int, *attempt),
{
    let mut b = owned("\n--- Attempt ");
    b.append(decimal_string((i + 1) as u64).as_str());
    b.append(" (score: ");
    b.append(attempt.score_text.as_str());
    b.append(") ---\nReasoning: ");
    b.append(attempt.reasoning.as_str());
    b.append("\nPrompt excerpt: ");
    b.append(take_chars(attempt.system_prompt.as_str(), 200).as_str());
    b.append("...\n");
    b
}

fn append_steps(prompt: &mut String, steps: &Vec<DecompStep>)
    ensures
        final(prompt)@ == old(prompt)@ + steps_text(steps@),
{
    let ghost sec_start = prompt@;
    let mut i: usize = 0;
    proof {
        assert(sec_start + steps_text(steps@.subrange(0, 0)) =~= sec_start);
    }
    while i < steps.len()
        invariant
            i <= steps@.len(),
            prompt@ == sec_start + steps_text(steps@.subrange(0, i as int)),
        decreases steps.len() - i,
    {
        proof {
            assert(steps@.subrange(0, i as int + 1).drop_last() =~= steps@.subrange(0, i as int));
        }
        let block = step_block_string(i, &steps[i]);
        proof {
            assert(steps@.subrange(0, i as int + 1).last() == steps@[i as int]);
        }
        prompt.append(block.as_str());
        i = i + 1;
    }
    proof {
        assert(steps@.subrange(0, steps@.len() as int) =~= steps@);
    }
}

fn append_attempts(prompt: &mut String, history: &[PreviousAttempt], order: &Vec<usize>)
    requires
        stable_score_order(score_keys(history@), order@.map_values(|x: usize| x as int)),
    ensures
        final(prompt)@ == old(prompt)@ + attempts_text(
            history@,
            order@.map_values(|x: usize| x as int),
        ),
{
    let ghost o = order@.map_values(|x: usize| x as int);
    let ghost sec_start = prompt@;
    let mut i: usize = 0;
    proof {
        assert(sec_start + attempts_text(history@, o.subrange(0, 0)) =~= sec_start);
    }
    while i < order.len()
        invariant
            i <= order@.len(),
            o == order@.map_values(|x: usize| x as int),
            stable_score_order(score_keys(history@), o),
            prompt@ == sec_start + attempts_text(history@, o.subrange(0, i as int)),
        decreases order.len() - i,
    {
        proof {
            assert(o.subrange(0, i as int + 1).drop_last() =~= o.subrange(0, i as int));
            assert(o[i as int] == order@[i as int] as int);
            assert(0 <= o[i as int] < history@.len());
        }
        let block = attempt_block_string(i, &history[order[i]]);
        prompt.append(block.as_str());
        i = i + 1;
    }
    proof {
        assert(o.subrange(0, o.len() as int) =~= o);
    }
}

/// Build the user message for candidate generation: the current prompt, the
/// hint, the decomposition (if it has steps) and the earlier attempts from
/// worst to best score.
pub fn build_generation_prompt(
    source_prompt: &str,
    hint: Option<&str>,
    history: &[PreviousAttempt],
    decomposition: Option<&Decomposition>,
) -> (r: String)
    requires
        forall|i: int| 0 <= i < history@.len() ==> (#[trigger] history@[i]).score.key is Some,
    ensures
        exists|o: Seq<int>|
            stable_score_order(score_keys(history@), o) && r@ == generation_prompt(
                source_prompt@,
                match hint {
                    Some(h) => Some(h@),
                    None => None,
                },
                history@,
                o,
                match decomposition {
                    Some(d) => d.steps@,
                    None => Seq::empty(),
                },
            ),
{
    let mut prompt = owned("CURRENT SYSTEM PROMPT:\n```\n");
    prompt.append(source_prompt);
    prompt.append("\n```\n\n");
    match hint {
        Some(h) => {
            prompt.append("OPTIMIZATION HINT: ");
            prompt.append(h);
            prompt.append("\n");
        },
        None => {
            prompt.append(
                "Generate generally improved variants with better clarity, structure, and specificity.\n",
            );
        },
    }
    let ghost steps: Seq<DecompStep> = match decomposition {
        Some(d) => d.steps@,
        None => Seq::empty(),
    };
    let ghost head = prompt@;
    if let Some(decomp) = decomposition {
        if decomp.steps.len() > 0 {
            prompt.append("\nDECOMPOSITION (identified sub-tasks to structure the prompt around):\n");
            append_steps(&mut prompt, &decomp.steps);
            prompt.append(
                "\nRewrite the prompt with explicit step-by-step structure based on the decomposition above.\n",
            );
        }
    }
    let ghost mid = prompt@;
    proof {
        assert(mid == head + decomposition_section(steps));
    }
    let order = attempts_by_score(history);
    let ghost o = order@.map_values(|x: usize| x as int);
    if history.len() > 0 {
        prompt.append("\nPREVIOUS ATTEMPTS (sorted worst to best):\n");
        append_attempts(&mut prompt, history, &order);
    }
    proof {
        assert(prompt@ =~= generation_prompt(
            source_prompt@,
            match hint {
                Some(h) => Some(h@),
                None => None,
            },
            history@,
            o,
            steps,
        ));
    }
    prompt
}

// ---------------------------------------------------------------------------
// Reading JSON out of replies
// ---------------------------------------------------------------------------

/// Number of line breaks (`\r`, `\n`) at the front of a text.
pub open spec fn lead_breaks(s: Seq<char>) -> nat
    decreases s.len(),
{
    if s.len() > 0 && (s[0] == '\r' || s[0] == '\n') {
        1 + lead_breaks(s.drop_first())
    } else {
        0
    }
}

/// What follows an opening code fence: without the fence, an optional
/// `json` tag and the line breaks after it.
pub open spec fn fence_body(t: Seq<char>) -> Seq<char> {
    let r1 = t.subrange(3, t.len() as int);
    let r2 = if has_prefix(r1, "json"@) {
        r1.subrange(4, r1.len() as int)
    } else {
        r1
    };
    r2.subrange(lead_breaks(r2) as int, r2.len() as int)
}

/// Position of the last occurrence of `n` in `h`.
pub open spec fn last_occurrence(h: Seq<char>, n: Seq<char>) -> Option<int> {
    if has_substring(h, n) {
        Some(
            choose|i: int| occurs_at(h, n, i) && forall|j: int| i < j ==> !occurs_at(h, n, j),
        )
    } else {
        None
    }
}

/// Position of the first occurrence of a character.
pub open spec fn first_char_at(s: Seq<char>, c: char) -> Option<int> {
    if exists|i: int| 0 <= i < s.len() && s[i] == c {
        Some(choose|i: int| 0 <= i < s.len() && s[i] == c && forall|j: int| 0 <= j < i ==> s[j] != c)
    } else {
        None
    }
}

/// Position of the last occurrence of a character.
pub open spec fn last_char_at(s: Seq<char>, c: char) -> Option<int> {
    if exists|i: int| 0 <= i < s.len() && s[i] == c {
        Some(
            choose|i: int| 0 <= i < s.len() && s[i] == c && forall|j: int| i < j < s.len() ==> s[j] != c,
        )
    } else {
        None
    }
}

/// The reply without a surrounding code fence (trimmed inside when `inner_trim`).
pub open spec fn unfenced(content: Seq<char>, inner_trim: bool) -> Seq<char> {
    let t = trim_spec(content);
    if has_prefix(t, "```"@) {
        let b = fence_body(t);
        let inner = match last_occurrence(b, "```"@) {
            Some(e) => b.subrange(0, e),
            None => b,
        };
        if inner_trim {
            trim_spec(inner)
        } else {
            inner
        }
    } else {
        t
    }
}

/// The part of `s` from the first `open` to the last `close`, when the
/// first comes before the last.
pub open spec fn bracketed(s: Seq<char>, open: char, close: char) -> Option<Seq<char>> {
    match (first_char_at(s, open), last_char_at(s, close)) {
        (Some(a), Some(z)) => if a < z {
            Some(s.subrange(a, z + 1))
        } else {
            None
        },
        _ => None,
    }
}

fn lead_breaks_count(cs: &Vec<char>, from: usize) -> (r: usize)
    requires
        from <= cs@.len(),
    ensures
        from <= r <= cs@.len(),
        r - from == lead_breaks(cs@.subrange(from as int, cs@.len() as int)),
{
    let mut i = from;
    while i < cs.len() && (cs[i] == '\r' || cs[i] == '\n')
        invariant
            from <= i <= cs@.len(),
            lead_breaks(cs@.subrange(from as int, cs@.len() as int)) == (i - from) + lead_breaks(
                cs@.subrange(i as int, cs@.len() as int),
            ),
        decreases cs.len() - i,
    {
        proof {
            assert(cs@.subrange(i as int, cs@.len() as int).drop_first() =~= cs@.subrange(
                i as int + 1,
                cs@.len() as int,
            ));
        }
        i = i + 1;
    }
    i
}

fn copy_chars(cs: &Vec<char>, lo: usize, hi: usize) -> (r: Vec<char>)
    requires
        lo <= hi <= cs@.len(),
    ensures
        r@ == cs@.subrange(lo as int, hi as int),
{
    let mut out: Vec<char> = Vec::new();
    let mut i = lo;
    while i < hi
        invariant
            lo <= i <= hi <= cs@.len(),
            out@ == cs@.subrange(lo as int, i as int),
        decreases hi - i,
    {
        out.push(cs[i]);
        proof {
            assert(cs@.subrange(lo as int, i as int + 1) =~= cs@.subrange(lo as int, i as int).push(cs@[i as int]));
        }
        i = i + 1;
    }
    out
}

/// The characters of the reply without a surrounding code fence.
fn unfence_chars(content: &str, inner_trim: bool) -> (r: Vec<char>)
    ensures
        r@ == unfenced(content@, inner_trim),
{
    let cs = chars_of(content);
    let t = trim_chars(&cs);
    let fence = chars_of("```");
    proof {
        reveal_strlit("```");
        reveal_strlit("json");
    }
    if t.len() < 3 || !(t[0] == '`' && t[1] == '`' && t[2] == '`') {
        proof {
            if has_prefix(t@, "```"@) {
                assert(t@[0] == "```"@[0] && t@[1] == "```"@[1] && t@[2] == "```"@[2]);
            }
        }
        return t;
    }
    proof {
        assert(t@.subrange(0, 3) =~= "```"@);
    }
    let mut start: usize = 3;
    let ghost r1 = t@.subrange(3, t@.len() as int);
    let ghost r2 = if has_prefix(r1, "json"@) {
        r1.subrange(4, r1.len() as int)
    } else {
        r1
    };
    if t.len() >= 7 && t[3] == 'j' && t[4] == 's' && t[5] == 'o' && t[6] == 'n' {
        proof {
            assert(r1.subrange(0, 4) =~= "json"@);
            assert(r1.subrange(4, r1.len() as int) =~= t@.subrange(7, t@.len() as int));
        }
        start = 7;
    } else {
        proof {
            if has_prefix(r1, "json"@) {
                assert(r1.subrange(0, 4)[0] == 'j' && r1.subrange(0, 4)[1] == 's');
                assert(r1.subrange(0, 4)[2] == 'o' && r1.subrange(0, 4)[3] == 'n');
                assert(r1[0] == t@[3] && r1[1] == t@[4] && r1[2] == t@[5] && r1[3] == t@[6]);
            }
        }
    }
    proof {
        assert(r2 =~= t@.subrange(start as int, t@.len() as int));
    }
    let b0 = lead_breaks_count(&t, start);
    let body = copy_chars(&t, b0, t.len());
    proof {
        assert(r2.subrange(lead_breaks(r2) as int, r2.len() as int) =~= t@.subrange(b0 as int, t@.len() as int));
        assert(body@ =~= fence_body(t@));
    }
    let inner = match rfind_chars(&body, &fence) {
        Some(e) => {
            proof {
                assert(last_occurrence(body@, "```"@) == Some(e as int));
            }
            copy_chars(&body, 0, e)
        },
        None => {
            proof {
                assert(body@.subrange(0, body@.len() as int) =~= body@);
            }
            copy_chars(&body, 0, body.len())
        },
    };
    if inner_trim {
        trim_chars(&inner)
    } else {
        inner
    }
}

#[verifier::spinoff_prover]
#[verifier::rlimit(40)]
fn bracketed_chars(s: &Vec<char>, open: char, close: char) -> (r: Option<String>)
    ensures
        match r {
            Some(t) => bracketed(s@, open, close) == Some(t@),
            None => bracketed(s@, open, close) is None,
        },
{
    let n = s.len();
    match (find_char(s, open), rfind_char(s, close)) {
        (Some(a), Some(z)) => {
            proof {
                assert(first_char_at(s@, open) == Some(a as int));
                assert(last_char_at(s@, close) == Some(z as int));
            }
            if a < z {
                Some(chars_range(s, a, z + 1))
            } else {
                None
            }
        },
        (oa, oz) => {
            proof {
                if oa is None {
                    assert(first_char_at(s@, open) is None);
                }
                if oz is None {
                    assert(last_char_at(s@, close) is None);
                }
            }
            None
        },
    }
}

/// The JSON text of a candidates reply: the reply without its code fence,
/// narrowed to the outermost `[...]` when there is one.
pub open spec fn candidates_json(content: Seq<char>) -> Seq<char> {
    let s = unfenced(content, false);
    match bracketed(s, '[', ']') {
        Some(b) => b,
        None => s,
    }
}

/// The JSON text to read candidate prompts from.
pub fn candidates_json_text(content: &str) -> (r: String)
    ensures
        r@ == candidates_json(content@),
{
    let s = unfence_chars(content, false);
    match bracketed_chars(&s, '[', ']') {
        Some(b) => b,
        None => chars_range(&s, 0, s.len()),
    }
}

/// Where a decomposition may be read from: an object `{ "steps": [...] }`
/// and, failing that, a bare array of steps.
pub struct DecompositionJson {
    pub object: Option<String>,
    pub array: Option<String>,
}

/// The JSON texts of a decomposition reply.
pub fn decomposition_json_texts(content: &str) -> (r: DecompositionJson)
    ensures
        match r.object {
            Some(t) => bracketed(unfenced(content@, true), '{', '}') == Some(t@),
            None => bracketed(unfenced(content@, true), '{', '}') is None,
        },
        match r.array {
            Some(t) => bracketed(unfenced(content@, true), '[', ']') == Some(t@),
            None => bracketed(unfenced(content@, true), '[', ']') is None,
        },
{
    let s = unfence_chars(content, true);
    DecompositionJson { object: bracketed_chars(&s, '{', '}'), array: bracketed_chars(&s, '[', ']') }
}

// ---------------------------------------------------------------------------
// Candidate search
// ---------------------------------------------------------------------------

/// Key of negative infinity, the score before any candidate.
pub open spec fn neg_infinity() -> Number {
    Number { key: Some(-0x7FF0_0000_0000_0000i64) }
}

/// `a > b` on scores; false when either is not a number.
pub open spec fn score_gt(a: Number, b: Number) -> bool {
    match (a.key, b.key) {
        (Some(x), Some(y)) => x > y,
        _ => false,
    }
}

/// `max(a, b)` on scores, ignoring a "not a number" side.
pub open spec fn score_max(a: Number, b: Number) -> Number {
    match (a.key, b.key) {
        (None, _) => b,
        (_, None) => a,
        (Some(x), Some(y)) => if x >= y {
            a
        } else {
            b
        },
    }
}

/// The highest of the scores, starting from negative infinity.
pub open spec fn scores_max(s: Seq<Number>) -> Number
    decreases s.len(),
{
    if s.len() == 0 {
        neg_infinity()
    } else {
        score_max(scores_max(s.drop_last()), s.last())
    }
}

/// The state of the candidate search across rounds: every score so far,
/// the best candidate, and the best score of the current round.
pub struct CandidateSearch {
    pub scores: Vec<Number>,
    pub best: Option<usize>,
    pub best_score: Number,
    pub round_best: Number,
    pub round_start: usize,
}

fn gt(a: Number, b: Number) -> (r: bool)
    ensures
        r == score_gt(a, b),
{
    match (a.key, b.key) {
        (Some(x), Some(y)) => x > y,
        _ => false,
    }
}

fn max_of(a: Number, b: Number) -> (r: Number)
    ensures
        r == score_max(a, b),
{
    match (a.key, b.key) {
        (None, _) => b,
        (_, None) => a,
        (Some(x), Some(y)) => if x >= y {
            a
        } else {
            b
        },
    }
}

impl CandidateSearch {
    /// No candidate evaluated yet.
    pub fn new() -> (r: CandidateSearch)
        ensures
            r.scores@.len() == 0,
            r.best is None,
            r.best_score == neg_infinity(),
            r.round_best == neg_infinity(),
            r.round_start == 0,
    {
        CandidateSearch {
            scores: Vec::new(),
            best: None,
            best_score: Number { key: Some(-0x7FF0_0000_0000_0000i64) },
            round_best: Number { key: Some(-0x7FF0_0000_0000_0000i64) },
            round_start: 0,
        }
    }

    /// Start a round of candidates.
    pub fn begin_round(&mut self)
        ensures
            final(self).scores@ == old(self).scores@,
            final(self).best == old(self).best,
            final(self).best_score == old(self).best_score,
            final(self).round_best == neg_infinity(),
            final(self).round_start == old(self).scores@.len(),
    {
        self.round_best = Number { key: Some(-0x7FF0_0000_0000_0000i64) };
        self.round_start = self.scores.len();
    }

    /// Record the score of the next candidate; returns whether it is the new
    /// best (strictly above the best so far).
    pub fn record(&mut self, score: Number) -> (r: bool)
        ensures
            final(self).scores@ == old(self).scores@.push(score),
            r == score_gt(score, old(self).best_score),
            r ==> final(self).best == Some(old(self).scores@.len() as usize) && final(self).best_score
                == score,
            !r ==> final(self).best == old(self).best && final(self).best_score == old(
                self,
            ).best_score,
            final(self).round_best == if score_gt(score, old(self).round_best) {
                score
            } else {
                old(self).round_best
            },
            final(self).round_start == old(self).round_start,
    {
        let idx = self.scores.len();
        self.scores.push(score);
        let better = gt(score, self.best_score);
        if better {
            self.best = Some(idx);
            self.best_score = score;
        }
        if gt(score, self.round_best) {
            self.round_best = score;
        }
        better
    }

    /// After round `round_idx` (from 0): stop early when its best score did
    /// not beat the best score of the earlier rounds.
    pub fn should_stop(&self, round_idx: usize) -> (r: bool)
        requires
            self.round_start <= self.scores@.len(),
        ensures
            r == (round_idx > 0 && !score_gt(
                self.round_best,
                scores_max(self.scores@.subrange(0, self.round_start as int)),
            )),
    {
        if round_idx == 0 {
            return false;
        }
        let mut m = Number { key: Some(-0x7FF0_0000_0000_0000i64) };
        let mut i: usize = 0;
        while i < self.round_start
            invariant
                i <= self.round_start <= self.scores@.len(),
                m == scores_max(self.scores@.subrange(0, i as int)),
            decreases self.round_start - i,
        {
            proof {
                assert(self.scores@.subrange(0, i as int + 1).drop_last() =~= self.scores@.subrange(0, i as int));
            }
            m = max_of(m, self.scores[i]);
            i = i + 1;
        }
        !gt(self.round_best, m)
    }
}

// ---------------------------------------------------------------------------
// Internal compiles and compile reports
// ---------------------------------------------------------------------------

/// Rounds an internal compile runs: as requested (one when unsaid), at most
/// [`MAX_ROUNDS`].
pub fn compile_rounds(requested: Option<usize>) -> (r: usize)
    ensures
        r == (match requested {
            Some(n) => if n < MAX_ROUNDS {
                n
            } else {
                MAX_ROUNDS
            },
            None => 1,
        }),
{
    match requested {
        Some(n) => if n < MAX_ROUNDS {
            n
        } else {
            MAX_ROUNDS
        },
        None => 1,
    }
}

/// The rounds an internal compile reports as used for `candidates`
/// candidates: one per [`CANDIDATES_PER_ROUND`] begun, and at least one when
/// there is any candidate.
pub open spec fn rounds_used_spec(candidates: nat) -> nat {
    let begun = ((candidates + CANDIDATES_PER_ROUND - 1) / (CANDIDATES_PER_ROUND as int)) as nat;
    if candidates > 0 && begun < 1 {
        1
    } else {
        begun
    }
}

/// The rounds an internal compile reports as used.
pub fn rounds_used(candidates: usize) -> (r: usize)
    ensures
        r == rounds_used_spec(candidates as nat),
{
    let begun = candidates / CANDIDATES_PER_ROUND + if candidates % CANDIDATES_PER_ROUND == 0 {
        0
    } else {
        1
    };
    proof {
        assert(begun == (candidates + 2) / 3) by (nonlinear_arith)
            requires
                begun == candidates / 3 + if candidates % 3 == 0 {
                    0int
                } else {
                    1int
                },
        ;
    }
    if candidates > 0 && begun < 1 {
        1
    } else {
        begun
    }
}

/// A candidate of an internal compile as the next round's prompt lists it:
/// with score zero.
pub fn attempt_of_candidate(c: &CandidatePrompt) -> (r: PreviousAttempt)
    ensures
        r.system_prompt@ == c.system_prompt@,
        r.reasoning@ == c.reasoning@,
        r.score.key == Some(0i64),
        r.score_text@ == "0.000"@,
{
    PreviousAttempt {
        system_prompt: c.system_prompt.clone(),
        reasoning: c.reasoning.clone(),
        score: Number::zero(),
        score_text: owned("0.000"),
    }
}

/// The target a filter field points to, if any: errors, cost or latency.
pub open spec fn field_target(field: Seq<char>) -> Option<OptimizationTarget> {
    if has_substring(field, "error"@) {
        Some(OptimizationTarget::ErrorRate)
    } else if has_substring(field, "cost"@) {
        Some(OptimizationTarget::Cost)
    } else if has_substring(field, "latency"@) {
        Some(OptimizationTarget::Latency)
    } else {
        None
    }
}

/// The target of the first of `fields` (from `i` on) that points to one;
/// quality when none does.
pub open spec fn target_from(fields: Seq<Seq<char>>, i: nat) -> OptimizationTarget
    decreases fields.len() - i,
{
    if i >= fields.len() {
        OptimizationTarget::Quality
    } else {
        match field_target(fields[i as int]) {
            Some(t) => t,
            None => target_from(fields, i + 1),
        }
    }
}

/// What a compile report optimises for, from the filter fields of the
/// project's session profiles (in order): the first field naming errors,
/// cost or latency decides; quality otherwise.
pub fn optimization_target_for(fields: &Vec<String>) -> (r: OptimizationTarget)
    ensures
        r == target_from(strings_view(fields@), 0),
{
    let ghost fv = strings_view(fields@);
    let mut i: usize = 0;
    while i < fields.len()
        invariant
            i <= fields@.len(),
            fv == strings_view(fields@),
            target_from(fv, 0) == target_from(fv, i as nat),
        decreases fields.len() - i,
    {
        let f = fields[i].as_str();
        proof {
            assert(fv[i as int] == f@);
        }
        if str_contains(f, "error") {
            return OptimizationTarget::ErrorRate;
        }
        if str_contains(f, "cost") {
            return OptimizationTarget::Cost;
        }
        if str_contains(f, "latency") {
            return OptimizationTarget::Latency;
        }
        i = i + 1;
    }
    OptimizationTarget::Quality
}

/// The field a stored filter names: its `field` member when it has one
/// (empty when that is not a string), else its legacy `type` member (empty
/// when absent or not a string).
pub open spec fn filter_field(filter: Seq<char>) -> Seq<char> {
    let v = if json_has_member(filter, "field"@) {
        json_member_str(filter, "field"@)
    } else {
        json_member_str(filter, "type"@)
    };
    match v {
        Some(t) => t,
        None => Seq::empty(),
    }
}

/// The filter fields of one stored profile, in order; none when it has no
/// list of filters.
pub open spec fn profile_filter_fields(profile: Seq<char>) -> Seq<Seq<char>> {
    match json_member_items(profile, "filters"@) {
        Some(fs) => fs.map_values(|f: Seq<char>| filter_field(f)),
        None => Seq::empty(),
    }
}

/// The filter fields of stored profiles, profile by profile.
pub open spec fn fields_of_profiles(ps: Seq<Seq<char>>) -> Seq<Seq<char>>
    decreases ps.len(),
{
    if ps.len() == 0 {
        Seq::empty()
    } else {
        fields_of_profiles(ps.drop_last()) + profile_filter_fields(ps.last())
    }
}

/// The filter fields of the stored session profiles `text`; none when the
/// text is not a JSON list.
pub open spec fn stored_fields(text: Seq<char>) -> Seq<Seq<char>> {
    match json_list_items(text) {
        Some(ps) => fields_of_profiles(ps),
        None => Seq::empty(),
    }
}

/// The field of one stored filter.
fn stored_filter_field(filter: &str) -> (r: String)
    ensures
        r@ == filter_field(filter@),
{
    let v = if json_member_present(filter, "field") {
        json_member_string(filter, "field")
    } else {
        json_member_string(filter, "type")
    };
    match v {
        Some(t) => t,
        None => String::new(),
    }
}

/// The filter fields of the stored session profiles (their `field`, or the
/// legacy `type`), in order; none when the text is not a JSON list.
pub fn stored_filter_fields(profiles_json: &str) -> (r: Vec<String>)
    ensures
        strings_view(r@) == stored_fields(profiles_json@),
{
    let mut fields: Vec<String> = Vec::new();
    let profiles = match json_list(profiles_json) {
        Some(p) => p,
        None => return fields,
    };
    let ghost pv = strings_view(profiles@);
    let mut i: usize = 0;
    while i < profiles.len()
        invariant
            i <= profiles.len(),
            pv == strings_view(profiles@),
            strings_view(fields@) == fields_of_profiles(pv.subrange(0, i as int)),
        decreases profiles.len() - i,
    {
        let p = profiles[i].as_str();
        proof {
            assert(pv.subrange(0, i as int + 1).drop_last() =~= pv.subrange(0, i as int));
            assert(pv[i as int] == p@);
        }
        let ghost before = strings_view(fields@);
        match json_member_list(p, "filters") {
            Some(filters) => {
                let ghost fv = strings_view(filters@);
                let mut j: usize = 0;
                while j < filters.len()
                    invariant
                        j <= filters.len(),
                        fv == strings_view(filters@),
                        strings_view(fields@) == before + fv.subrange(0, j as int).map_values(
                            |f: Seq<char>| filter_field(f),
                        ),
                    decreases filters.len() - j,
                {
                    let f = stored_filter_field(filters[j].as_str());
                    let ghost prev = fields@;
                    fields.push(f);
                    proof {
                        assert(fv[j as int] == filters@[j as int]@);
                        assert(strings_view(fields@) =~= strings_view(prev).push(f@));
                        assert(fv.subrange(0, j as int + 1).map_values(|g: Seq<char>| filter_field(g))
                            =~= fv.subrange(0, j as int).map_values(|g: Seq<char>| filter_field(g)).push(
                            filter_field(fv[j as int]),
                        ));
                    }
                    j = j + 1;
                }
                proof {
                    assert(fv.subrange(0, fv.len() as int) =~= fv);
                }
            },
            None => {
                proof {
                    assert(before + Seq::<Seq<char>>::empty() =~= before);
                }
            },
        }
        proof {
            assert(pv.subrange(0, i as int + 1).last() == p@);
        }
        i = i + 1;
    }
    proof {
        assert(pv.subrange(0, pv.len() as int) =~= pv);
    }
    fields
}

/// What a compile report optimises for, given the project's stored session
/// profiles (if any).
pub fn derive_optimization_target(profiles_json: Option<&str>) -> (r: OptimizationTarget)
    ensures
        r == match profiles_json {
            Some(t) => target_from(stored_fields(t@), 0),
            None => OptimizationTarget::Quality,
        },
{
    match profiles_json {
        Some(text) => optimization_target_for(&stored_filter_fields(text)),
        None => OptimizationTarget::Quality,
    }
}

/// Whether a compile report starts: not for a config the project lacks; an
/// already running compilation of the config is reused (its task id);
/// otherwise a new one starts (`None`).
pub fn compile_report_start(config_exists: bool, running: Option<u128>) -> (r: Result<
    Option<u128>,
    ApiError,
>)
    ensures
        !config_exists ==> (r matches Err(ApiError::NotFound(m)) && m@ == "Prompt config not found"@),
        config_exists ==> r == Ok::<Option<u128>, ApiError>(running),
{
    if !config_exists {
        return Err(ApiError::NotFound(owned("Prompt config not found")));
    }
    Ok(running)
}

/// How a finished compilation is recorded on its task: `completed` with the
/// report, `cancelled` with the cancellation marker, or `failed` with the
/// error's message (the first of its chain).
pub open spec fn finished_task(outcome: Result<Seq<char>, Seq<Seq<char>>>) -> (Seq<char>, Seq<char>) {
    match outcome {
        Ok(report) => ("completed"@, report),
        Err(chain) => if exists|i: int| 0 <= i < chain.len() && #[trigger] chain[i] == cancelled_marker() {
            ("cancelled"@, cancelled_marker())
        } else {
            ("failed"@, if chain.len() > 0 {
                chain[0]
            } else {
                Seq::empty()
            })
        },
    }
}

/// The status and result a finished compilation's task is given.
pub fn finished_compilation(outcome: Result<String, Vec<String>>) -> (r: (String, String))
    ensures
        (r.0@, r.1@) == finished_task(match outcome {
            Ok(s) => Ok(s@),
            Err(c) => Err(strings_view(c@)),
        }),
{
    match outcome {
        Ok(report) => (owned("completed"), report),
        Err(chain) => {
            if is_compilation_cancelled_err(&chain) {
                proof {
                    let i = choose|i: int| 0 <= i < chain@.len() && (#[trigger] chain@[i])@ == cancelled_marker();
                    assert(strings_view(chain@)[i] == cancelled_marker());
                }
                (owned("cancelled"), owned("compilation_cancelled"))
            } else {
                proof {
                    assert forall|i: int| 0 <= i < chain@.len() implies #[trigger] strings_view(chain@)[i] != cancelled_marker() by {
                        assert(strings_view(chain@)[i] == chain@[i]@);
                    }
                }
                let first = if chain.len() > 0 {
                    chain[0].clone()
                } else {
                    String::new()
                };
                (owned("failed"), first)
            }
        },
    }
}

/// A compilation may be cancelled only through the project that owns it:
/// a task that does not exist, or belongs to another project, is not found.
pub fn check_cancel_target(task_project: Option<u128>, project: &u128) -> (r: Result<
    (),
    ApiError,
>)
    ensures
        task_project == Some(*project) ==> r is Ok,
        task_project != Some(*project) ==> (r matches Err(ApiError::NotFound(m)) && m@
            == "Compilation task not found"@),
{
    match task_project {
        Some(p) => {
            if p == *project {
                Ok(())
            } else {
                Err(ApiError::NotFound(owned("Compilation task not found")))
            }
        },
        None => Err(ApiError::NotFound(owned("Compilation task not found"))),
    }
}

/// What the stored result of a compilation task holds, by the task's status.
#[derive(Debug, Clone, Copy, PartialEq, Eq, Structural)]
pub enum TaskResultReading {
    /// The report of a completed compilation.
    Report,
    /// The progress of a running one.
    Progress,
    /// The error of any other.
    Error,
}

/// How the result of a task with `status` is read.
pub open spec fn reading_of(status: Seq<char>) -> TaskResultReading {
    if status == "completed"@ {
        TaskResultReading::Report
    } else if status == "running"@ {
        TaskResultReading::Progress
    } else {
        TaskResultReading::Error
    }
}

/// How the result of a compilation task is read when its status is polled.
pub fn task_result_reading(status: &str) -> (r: TaskResultReading)
    ensures
        r == reading_of(status@),
{
    if str_eq(status, "completed") {
        TaskResultReading::Report
    } else if str_eq(status, "running") {
        TaskResultReading::Progress
    } else {
        TaskResultReading::Error
    }
}

/// The prompt a compile starts from: the active version's system prompt,
/// which must not be empty.
pub fn compile_source(system_prompt: Option<String>) -> (r: Result<String, ApiError>)
    ensures
        match system_prompt {
            Some(p) if p@.len() > 0 => r matches Ok(s) && s@ == p@,
            _ => r matches Err(ApiError::Validation(m)) && m@
                == "Active version has no system prompt to compile"@,
        },
{
    match system_prompt {
        Some(p) => {
            if p.as_str().is_empty() {
                Err(ApiError::Validation(owned("Active version has no system prompt to compile")))
            } else {
                Ok(p)
            }
        },
        None => Err(ApiError::Validation(owned("Active version has no system prompt to compile"))),
    }
}

} // verus!
