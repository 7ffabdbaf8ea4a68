//! Receiving agent-to-agent (A2A) JSON-RPC `SendMessage` calls: signature
//! check, request checks, and the task status answered.

use hmac::Mac;
use vstd::prelude::*;
use vstd::string::*;
use vstd::utf8::encode_utf8;

use crate::executor::LoopOutcome;
use crate::text::{join, join_spec, owned, str_eq, strings_view};

verus! {

/// Turns the headless loop may use for one A2A message.
pub const MAX_A2A_TURNS: usize = 25;

/// A JSON-RPC error: its code and message.
#[derive(Debug)]
pub struct JsonRpcError {
    pub code: i32,
    pub message: String,
}

/// Whether a JSON-RPC error has this code and message.
pub open spec fn rpc_error_is(e: JsonRpcError, code: int, message: Seq<char>) -> bool {
    e.code == code && e.message@ == message
}

fn rpc_error(code: i32, message: &str) -> (r: JsonRpcError)
    ensures
        rpc_error_is(r, code as int, message@),
{
    JsonRpcError { code, message: owned(message) }
}

/// Whether two byte strings are equal, taking a time that depends on their
/// length only.
pub fn constant_time_eq(a: &[u8], b: &[u8]) -> (r: bool)
    ensures
        r == (a@ == b@),
{
    if a.len() != b.len() {
        return false;
    }
    let mut acc: u8 = 0;
    let mut i: usize = 0;
    while i < a.len()
        invariant
            i <= a@.len(),
            a@.len() == b@.len(),
            (acc == 0) == (forall|j: int| 0 <= j < i ==> a@[j] == b@[j]),
        decreases a.len() - i,
    {
        let x = a[i];
        let y = b[i];
        let next = acc | (x ^ y);
        assert(next == 0 <==> (acc == 0 && x == y)) by (bit_vector)
            requires
                next == acc | (x ^ y),
        ;
        acc = next;
        i = i + 1;
    }
    proof {
        if acc == 0 {
            assert(a@ =~= b@);
        }
    }
    acc == 0
}

/// The HMAC-SHA256 of a message under a key, as the `hmac` crate computes it.
pub uninterp spec fn hmac_sha256_of(key: Seq<u8>, message: Seq<u8>) -> Seq<u8>;

/// Computes HMAC-SHA256 with `hmac::Hmac::<sha2::Sha256>`: `new_from_slice`
/// with the key, `update` with the message, `finalize`. The tag is named,
/// not described. `new_from_slice` refuses no key: the crate's source
/// (`HmacCore::new_from_slice`) derives a block-sized key from a key of any
/// length and always returns `Ok`, so the result is always `Some`.
#[verifier::external_body]
fn hmac_sha256(key: &[u8], message: &[u8]) -> (r: Option<Vec<u8>>)
    ensures
        r is Some,
        r matches Some(tag) ==> tag@ == hmac_sha256_of(key@, message@),
{
    let mut mac = match hmac::Hmac::<sha2::Sha256>::new_from_slice(key) {
        Ok(m) => m,
        Err(_) => return None,
    };
    mac.update(message);
    Some(mac.finalize().into_bytes().to_vec())
}

/// A hexadecimal digit, lower case.
pub open spec fn hex_digit(n: u8) -> char {
    if n < 10 {
        ('0' as u8 + n) as char
    } else {
        ('a' as u8 + (n - 10)) as char
    }
}

/// Lower-case hexadecimal rendering of bytes, two digits per byte.
pub open spec fn hex_lower(bytes: Seq<u8>) -> Seq<char>
    decreases bytes.len(),
{
    if bytes.len() == 0 {
        Seq::empty()
    } else {
        hex_lower(bytes.drop_last()).push(hex_digit(bytes.last() / 16)).push(
            hex_digit(bytes.last() % 16),
        )
    }
}

/// Encodes bytes with `hex::encode`, which its documentation describes as
/// lower-case hexadecimal, two digits per byte.
#[verifier::external_body]
fn hex_encode(bytes: &[u8]) -> (r: String)
    ensures
        r@ == hex_lower(bytes@),
{
    hex::encode(bytes)
}

/// Check the signature of an A2A request: `signature` is the value of its
/// signature header, if it carried a non-empty one (as bytes). It must equal
/// the lower-case hex HMAC-SHA256 of the body under the webhook secret.
pub fn verify_signature(webhook_secret: &str, body: &[u8], signature: Option<&[u8]>) -> (r: Result<
    (),
    JsonRpcError,
>)
    ensures
        match signature {
            None => r matches Err(e) && rpc_error_is(e, -32600, "Missing X-Herd-Signature header"@),
            Some(sig) => match r {
                Ok(()) => sig@ == encode_utf8(hex_lower(
                    hmac_sha256_of(webhook_secret.spec_bytes(), body@),
                )),
                Err(e) => e.code == -32600 && e.message@ == "Invalid signature"@ && sig@ != encode_utf8(
                    hex_lower(hmac_sha256_of(webhook_secret.spec_bytes(), body@)),
                ),
            },
        },
{
    let sig = match signature {
        Some(s) => s,
        None => {
            return Err(rpc_error(-32600, "Missing X-Herd-Signature header"));
        },
    };
    let tag = match hmac_sha256(webhook_secret.as_bytes(), body) {
        Some(t) => t,
        None => {
            return Err(rpc_error(-32600, "Invalid webhook secret"));
        },
    };
    let expected = hex_encode(tag.as_slice());
    if !constant_time_eq(sig, expected.as_str().as_bytes()) {
        return Err(rpc_error(-32600, "Invalid signature"));
    }
    Ok(())
}

/// Check the JSON-RPC envelope: version 2.0 and the `SendMessage` method
/// (also spelled `message/send`).
pub fn check_envelope(jsonrpc: &str, method: &str) -> (r: Result<(), JsonRpcError>)
    ensures
        jsonrpc@ != "2.0"@ ==> (r matches Err(e) && rpc_error_is(e, -32600, "jsonrpc must be \"2.0\""@)),
        jsonrpc@ == "2.0"@ && method@ != "SendMessage"@ && method@ != "message/send"@ ==> (r matches Err(
            e,
        ) && rpc_error_is(
            e,
            -32601,
            "Method not supported: "@ + method@ + ". Only SendMessage is handled."@,
        )),
        jsonrpc@ == "2.0"@ && (method@ == "SendMessage"@ || method@ == "message/send"@) ==> r is Ok,
{
    if !str_eq(jsonrpc, "2.0") {
        return Err(rpc_error(-32600, "jsonrpc must be \"2.0\""));
    }
    if !str_eq(method, "SendMessage") && !str_eq(method, "message/send") {
        let mut m = owned("Method not supported: ");
        m.append(method);
        m.append(". Only SendMessage is handled.");
        return Err(JsonRpcError { code: -32601, message: m });
    }
    Ok(())
}

/// The texts of the message parts that have one, in order.
pub open spec fn part_texts(parts: Seq<Option<String>>) -> Seq<Seq<char>>
    decreases parts.len(),
{
    if parts.len() == 0 {
        Seq::empty()
    } else {
        let r = part_texts(parts.drop_last());
        match parts.last() {
            Some(t) => r.push(t@),
            None => r,
        }
    }
}

/// The user text of an A2A message: its text parts joined by line feeds; an
/// error when that is empty.
pub fn message_text(parts: &Vec<Option<String>>) -> (r: Result<String, JsonRpcError>)
    ensures
        join_spec(part_texts(parts@), "\n"@).len() == 0 ==> (r matches Err(e) && rpc_error_is(
            e,
            -32602,
            "Message contains no text parts"@,
        )),
        join_spec(part_texts(parts@), "\n"@).len() != 0 ==> (r matches Ok(t) && t@ == join_spec(
            part_texts(parts@),
            "\n"@,
        )),
{
    let mut texts: Vec<String> = Vec::new();
    let mut i: usize = 0;
    while i < parts.len()
        invariant
            i <= parts@.len(),
            strings_view(texts@) == part_texts(parts@.subrange(0, i as int)),
        decreases parts.len() - i,
    {
        proof {
            assert(parts@.subrange(0, i as int + 1).drop_last() =~= parts@.subrange(0, i as int));
        }
        if let Some(t) = &parts[i] {
            let ghost before = texts@;
            texts.push(t.clone());
            proof {
                assert(strings_view(texts@) =~= strings_view(before).push(t@));
            }
        }
        i = i + 1;
    }
    proof {
        assert(parts@.subrange(0, parts@.len() as int) =~= parts@);
    }
    let text = join(&texts, "\n");
    if text.as_str().is_empty() {
        return Err(rpc_error(-32602, "Message contains no text parts"));
    }
    Ok(text)
}

/// The task state and text answered for a loop outcome.
pub open spec fn task_status(o: LoopOutcome) -> (Seq<char>, Seq<char>) {
    match o {
        LoopOutcome::Completed { assistant_text } => ("completed"@, assistant_text@),
        LoopOutcome::MaxTurns { assistant_text, .. } => ("completed"@, assistant_text@),
        LoopOutcome::ContextTooLong { assistant_text, .. } => ("completed"@, assistant_text@),
        LoopOutcome::RateLimited { .. } => ("failed"@, "Rate limited"@),
        LoopOutcome::ModelError { error, .. } => ("failed"@, "Model error: "@ + error@),
        LoopOutcome::Aborted { reason } => ("failed"@, "Aborted: "@ + reason@),
    }
}

/// The task state and text answered for a loop outcome.
pub fn outcome_status(outcome: &LoopOutcome) -> (r: (&'static str, String))
    ensures
        r.0@ == task_status(*outcome).0,
        r.1@ == task_status(*outcome).1,
{
    match outcome {
        LoopOutcome::Completed { assistant_text } => ("completed", assistant_text.clone()),
        LoopOutcome::MaxTurns { assistant_text, .. } => ("completed", assistant_text.clone()),
        LoopOutcome::ContextTooLong { assistant_text, .. } => ("completed", assistant_text.clone()),
        LoopOutcome::RateLimited { .. } => ("failed", owned("Rate limited")),
        LoopOutcome::ModelError { error, .. } => {
            let mut t = owned("Model error: ");
            t.append(error.as_str());
            ("failed", t)
        },
        LoopOutcome::Aborted { reason } => {
            let mut t = owned("Aborted: ");
            t.append(reason.as_str());
            ("failed", t)
        },
    }
}

/// The task state and text answered when the loop itself failed.
pub fn internal_error_status(error: &str) -> (r: (&'static str, String))
    ensures
        r.0@ == "failed"@,
        r.1@ == "Internal error: "@ + error@,
{
    let mut t = owned("Internal error: ");
    t.append(error);
    ("failed", t)
}

/// Only a success or a bounded or cut-short run completes the task; every
/// other outcome fails it.
pub proof fn lemma_status_follows_outcome(o: LoopOutcome)
    ensures
        task_status(o).0 == "completed"@ <==> (o is Completed || o is MaxTurns || o is ContextTooLong),
{
    reveal_strlit("completed");
    reveal_strlit("failed");
    assert("completed"@[0] != "failed"@[0]);
}

} // verus!
