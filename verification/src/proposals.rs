//! Prompt proposals and compiled prompts becoming versions: the texts they
//! are recorded with and the rules that admit them.

use vstd::prelude::*;
use vstd::string::*;
use vstd::utf8::{decode_utf8, encode_utf8, encode_utf8_decode_utf8};

use crate::decimal::DecimalValue;
use crate::errors::ApiError;
use crate::gateway_settings::{i32_text, int_text};
use crate::text::owned;

verus! {

/// Who proposed a prompt when the request names no one.
pub const DEFAULT_PROPOSER: &'static str = "agent";

/// Temperature of a proposal that sets none: 0.5.
pub fn default_temperature() -> (r: DecimalValue)
    ensures
        r == (DecimalValue { mantissa: 5, scale: 1 }),
{
    DecimalValue { mantissa: 5, scale: 1 }
}

/// Who proposed a prompt: the named proposer, else [`DEFAULT_PROPOSER`].
pub fn proposer(proposed_by: &Option<String>) -> (r: String)
    ensures
        r@ == match proposed_by {
            Some(p) => p@,
            None => DEFAULT_PROPOSER@,
        },
{
    match proposed_by {
        Some(p) => p.clone(),
        None => owned(DEFAULT_PROPOSER),
    }
}

/// The reasoning of a proposal as a version's commit message quotes it: its
/// first 100 bytes and `...` when it is longer.
pub open spec fn reasoning_summary(reasoning: Seq<char>) -> Seq<char> {
    let bytes = encode_utf8(reasoning);
    if bytes.len() > 100 {
        decode_utf8(bytes.subrange(0, 100)) + "..."@
    } else {
        reasoning
    }
}

/// Whether the reasoning can be cut at 100 bytes: it is no longer, or a
/// character starts there (and its length fits in a `usize`).
pub open spec fn summarizable(reasoning: Seq<char>) -> bool {
    &&& encode_utf8(reasoning).len() <= usize::MAX
    &&& encode_utf8(reasoning).len() <= 100 || vstd::utf8::is_char_boundary(
        encode_utf8(reasoning),
        100,
    )
}

/// Whether the reasoning can be cut at 100 bytes; see [`summarizable`].
pub fn is_summarizable(reasoning: &str) -> (r: bool)
    ensures
        r == (encode_utf8(reasoning@).len() as usize <= 100 || vstd::utf8::is_char_boundary(
            encode_utf8(reasoning@),
            100,
        )),
        encode_utf8(reasoning@).len() <= usize::MAX ==> (r == summarizable(reasoning@)),
{
    reasoning.len() <= 100 || reasoning.is_char_boundary(100)
}

/// The commit message of the version an accepted proposal becomes.
pub fn proposal_commit_message(reasoning: &str) -> (r: String)
    requires
        summarizable(reasoning@),
    ensures
        r@ == "Prompt Compiler: "@ + reasoning_summary(reasoning@),
{
    let mut m = owned("Prompt Compiler: ");
    if reasoning.len() > 100 {
        let (head, _tail) = reasoning.split_at(100);
        proof {
            encode_utf8_decode_utf8(head@);
        }
        m.append(head);
        m.append("...");
    } else {
        m.append(reasoning);
    }
    m
}

/// The name of the rollout that deploys version `version` made by the
/// prompt compiler.
pub fn compiler_rollout_name(version: i32) -> (r: String)
    ensures
        r@ == "Prompt Compiler rollout v"@ + int_text(version as int),
{
    let mut n = owned("Prompt Compiler rollout v");
    n.append(i32_text(version).as_str());
    n
}

/// The commit message of a compiled prompt committed as a version.
pub fn compiler_commit_message(reasoning: &str) -> (r: String)
    ensures
        r@ == "[Compiler] "@ + reasoning@,
{
    let mut m = owned("[Compiler] ");
    m.append(reasoning);
    m
}

/// The version a compiled prompt is measured against: the config's active
/// one, which it must have.
pub fn commit_baseline(active_version_id: Option<u128>) -> (r: Result<u128, ApiError>)
    ensures
        match active_version_id {
            Some(v) => r == Ok::<u128, ApiError>(v),
            None => (r matches Err(ApiError::Validation(m)) && m@
                == "Prompt config has no active version"@),
        },
{
    match active_version_id {
        Some(v) => Ok(v),
        None => Err(ApiError::Validation(owned("Prompt config has no active version"))),
    }
}

/// A compiled prompt is not committed while a rollout of its config runs.
pub fn check_commit_not_running(has_running: bool) -> (r: Result<(), ApiError>)
    ensures
        !has_running ==> r is Ok,
        has_running ==> (r matches Err(ApiError::Validation(m)) && m@
            == "This prompt already has a running rollout. Stop it before creating a new one."@),
{
    if has_running {
        Err(
            ApiError::Validation(
                owned("This prompt already has a running rollout. Stop it before creating a new one."),
            ),
        )
    } else {
        Ok(())
    }
}

/// A new rollout must deploy a version other than the active one, and no
/// rollout of the config may be running.
pub fn check_new_rollout(target_version_id: &u128, active_version_id: &Option<u128>, has_running: bool) -> (r:
    Result<(), ApiError>)
    ensures
        *active_version_id == Some(*target_version_id) ==> (r matches Err(ApiError::Validation(m))
            && m@ == "Target version is already the active version"@),
        *active_version_id != Some(*target_version_id) && has_running ==> (r matches Err(
            ApiError::Validation(m),
        ) && m@ == "Config already has a running rollout. Stop it first."@),
        *active_version_id != Some(*target_version_id) && !has_running ==> r is Ok,
{
    let same = match active_version_id {
        Some(a) => *a == *target_version_id,
        None => false,
    };
    if same {
        return Err(ApiError::Validation(owned("Target version is already the active version")));
    }
    if has_running {
        return Err(ApiError::Validation(owned("Config already has a running rollout. Stop it first.")));
    }
    Ok(())
}

} // verus!
