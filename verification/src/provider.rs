//! Decisions around a call of the model: whether a failed attempt is tried
//! again and after how long, and what a complete answer says.
use vstd::prelude::*;
use vstd::arithmetic::power2::{pow2, lemma_pow2_unfold, lemma_pow2_strictly_increases};
use crate::json::{json_compact_of, json_compact_opt, opt_view};
use crate::message::{calls_view, ToolCall, ToolCallView};
use crate::stream::{or_empty, text_or_empty, ChatResponse};

verus! {

/// How many times a streamed request is tried at most.
pub const MAX_ATTEMPTS: u32 = 10;

/// The longest wait between two attempts, in milliseconds.
pub const MAX_BACKOFF_MS: u64 = 30000;

/// How one attempt at a request ended.
#[derive(Debug, Clone, Copy, PartialEq, Eq)]
pub enum AttemptOutcome {
    /// The server answered with a success status.
    Success,
    /// The server answered with this status, not a success.
    Status(u16),
    /// The request could not be sent or no answer came.
    RequestFailed,
}

/// What to do after an attempt.
#[derive(Debug, Clone, Copy, PartialEq, Eq)]
pub enum RetryAction {
    /// Go on with the answer.
    Proceed,
    /// Give up and report the error.
    Fail,
    /// Try again after waiting this many milliseconds (before jitter).
    RetryAfterMs(u64),
}

/// The wait after failed attempt `attempt` (counted from 0): one second
/// doubled at each attempt, at most thirty seconds.
pub open spec fn backoff_ms(attempt: nat) -> nat {
    if 1000 * pow2(attempt) < MAX_BACKOFF_MS as int {
        1000 * pow2(attempt)
    } else {
        MAX_BACKOFF_MS as nat
    }
}

/// Try again after the backoff while attempts remain; else give up.
pub open spec fn retry_or_fail(attempt: nat) -> RetryAction {
    if attempt + 1 < MAX_ATTEMPTS {
        RetryAction::RetryAfterMs(backoff_ms(attempt) as u64)
    } else {
        RetryAction::Fail
    }
}

/// The decision after attempt `attempt`: a success goes on; an
/// authentication refusal (401, 403) fails at once; a rate limit (429), a
/// server error (500 and above) or a failed request is tried again while
/// attempts remain; any other status fails.
pub open spec fn retry_decision(attempt: nat, outcome: AttemptOutcome) -> RetryAction {
    match outcome {
        AttemptOutcome::Success => RetryAction::Proceed,
        AttemptOutcome::Status(code) => {
            if code == 401 || code == 403 {
                RetryAction::Fail
            } else if code == 429 || code >= 500 {
                retry_or_fail(attempt)
            } else {
                RetryAction::Fail
            }
        },
        AttemptOutcome::RequestFailed => retry_or_fail(attempt),
    }
}

/// The wait after failed attempt `attempt`, in milliseconds.
pub fn backoff(attempt: u32) -> (r: u64)
    ensures
        r == backoff_ms(attempt as nat),
{
    let mut d: u64 = 1000;
    let mut i: u32 = 0;
    proof {
        assert(pow2(0) == 1) by {
            vstd::arithmetic::power2::lemma2_to64();
        }
    }
    while i < attempt && d < MAX_BACKOFF_MS
        invariant
            i <= attempt,
            d == backoff_ms(i as nat),
            d <= MAX_BACKOFF_MS,
        decreases attempt - i,
    {
        proof {
            lemma_pow2_unfold((i + 1) as nat);
        }
        d = if 2 * d > MAX_BACKOFF_MS { MAX_BACKOFF_MS } else { 2 * d };
        i = i + 1;
    }
    proof {
        if i < attempt {
            lemma_pow2_strictly_increases(i as nat, attempt as nat);
        }
    }
    d
}

/// What to do after attempt `attempt` (counted from 0) ended with `outcome`.
pub fn retry_action(attempt: u32, outcome: AttemptOutcome) -> (r: RetryAction)
    ensures
        r == retry_decision(attempt as nat, outcome),
{
    let retry = if attempt < MAX_ATTEMPTS - 1 {
        RetryAction::RetryAfterMs(backoff(attempt))
    } else {
        RetryAction::Fail
    };
    match outcome {
        AttemptOutcome::Success => RetryAction::Proceed,
        AttemptOutcome::Status(code) => {
            if code == 401 || code == 403 {
                RetryAction::Fail
            } else if code == 429 || code >= 500 {
                retry
            } else {
                RetryAction::Fail
            }
        },
        AttemptOutcome::RequestFailed => retry,
    }
}

// ───────────────────────────── a complete answer ─────────────────────────────

/// A tool call as `serde_json` reads it from an answer: its `id`,
/// `function.name` and `function.arguments`, each where it is a string.
pub type RawCall = (Option<Seq<char>>, Option<Seq<char>>, Option<Seq<char>>);

/// What `serde_json` reads from the body of a complete answer: `None` when it
/// is not JSON; `Some(None)` when `choices` is not an array with a first
/// element; else, of that choice's `message`, its `tool_calls` when they are
/// an array, and its `content` when it is a string.
pub uninterp spec fn chat_message(body: Seq<char>) -> Option<Option<(Option<Seq<RawCall>>, Option<Seq<char>>)>>;

/// The values of raw calls.
pub open spec fn raw_call_views(v: Seq<(Option<String>, Option<String>, Option<String>)>) -> Seq<RawCall> {
    v.map_values(|c: (Option<String>, Option<String>, Option<String>)| (opt_view(c.0), opt_view(c.1), opt_view(c.2)))
}

/// The value of what [`read_chat_message`] reads.
pub open spec fn raw_message_view(
    r: Option<Option<(Option<Vec<(Option<String>, Option<String>, Option<String>)>>, Option<String>)>>,
) -> Option<Option<(Option<Seq<RawCall>>, Option<Seq<char>>)>> {
    match r {
        None => None,
        Some(None) => Some(None),
        Some(Some((cs, c))) => Some(Some((
            match cs {
                Some(v) => Some(raw_call_views(v@)),
                None => None,
            },
            opt_view(c),
        ))),
    }
}

/// Parses `body` with `serde_json::from_str`, takes the first element of
/// `choices` (`Value::as_array`, `first`) and reads from its `message` the
/// `tool_calls` array (each call's `id`, `function.name` and
/// `function.arguments` with `Value::as_str`) and the `content`. The contract
/// only names the result.
#[verifier::external_body]
fn read_chat_message(body: &str) -> (r: Option<Option<(Option<Vec<(Option<String>, Option<String>, Option<String>)>>, Option<String>)>>)
    ensures
        raw_message_view(r) == chat_message(body@),
{
    let data: serde_json::Value = match serde_json::from_str(body) {
        Ok(v) => v,
        Err(_) => return None,
    };
    let choice = match data["choices"].as_array().and_then(|a| a.first()) {
        Some(c) => c,
        None => return Some(None),
    };
    let m = &choice["message"];
    let calls = m["tool_calls"].as_array().map(|a| a.iter().map(|tc| (
        tc["id"].as_str().map(String::from),
        tc["function"]["name"].as_str().map(String::from),
        tc["function"]["arguments"].as_str().map(String::from),
    )).collect());
    Some(Some((calls, m["content"].as_str().map(String::from))))
}

/// The arguments of a call as compact JSON text: an empty object when the
/// call has none, `null` when they are not JSON.
pub open spec fn call_arguments(args: Option<Seq<char>>) -> Seq<char> {
    let raw = match args {
        Some(a) => a,
        None => "{}"@,
    };
    match json_compact_of(raw) {
        Some(t) => t,
        None => "null"@,
    }
}

/// A call of an answer, with an empty id or name where it has none.
pub open spec fn call_of(c: RawCall) -> ToolCallView {
    ToolCallView { id: or_empty(c.0), name: or_empty(c.1), arguments: call_arguments(c.2) }
}

/// The error when the body of an answer is not JSON.
pub open spec fn not_json_error() -> Seq<char> {
    "Failed to parse LLM response as JSON"@
}

/// The error when an answer has no choices.
pub open spec fn no_choices_error() -> Seq<char> {
    "No choices in response"@
}

fn call_from_raw(c: (Option<String>, Option<String>, Option<String>)) -> (r: ToolCall)
    ensures
        r@ == call_of((opt_view(c.0), opt_view(c.1), opt_view(c.2))),
{
    let raw = match c.2 {
        Some(a) => a,
        None => "{}".to_string(),
    };
    let arguments = match json_compact_opt(raw.as_str()) {
        Some(t) => t,
        None => "null".to_string(),
    };
    ToolCall { id: text_or_empty(c.0), name: text_or_empty(c.1), arguments }
}

/// What the body of a complete answer says: the tool calls of its first
/// choice when it has any (even none), else its text (empty when it has
/// none); an error when the body is not JSON or has no choices.
pub fn chat_response_from_body(body: &str) -> (r: Result<ChatResponse, String>)
    ensures
        match chat_message(body@) {
            None => r matches Err(e) && e@ == not_json_error(),
            Some(None) => r matches Err(e) && e@ == no_choices_error(),
            Some(Some((Some(cs), _))) => r matches Ok(ChatResponse::ToolCall(v))
                && calls_view(v@) == cs.map_values(|c: RawCall| call_of(c)),
            Some(Some((None, content))) => r matches Ok(ChatResponse::Text(t)) && t@ == or_empty(content),
        },
{
    match read_chat_message(body) {
        None => Err("Failed to parse LLM response as JSON".to_string()),
        Some(None) => Err("No choices in response".to_string()),
        Some(Some((None, content))) => Ok(ChatResponse::Text(text_or_empty(content))),
        Some(Some((Some(raw), _))) => {
            let ghost rv = raw_call_views(raw@);
            let mut out: Vec<ToolCall> = Vec::new();
            let mut rest = raw;
            let ghost n = rv.len();
            while rest.len() > 0
                invariant
                    out.len() + rest.len() == n,
                    n == rv.len(),
                    raw_call_views(rest@) == rv.skip(out.len() as int),
                    calls_view(out@) == rv.take(out.len() as int).map_values(|c: RawCall| call_of(c)),
                decreases rest.len(),
            {
                let ghost r0 = rest@;
                let ghost k = out.len() as int;
                let c = rest.remove(0);
                assert(rest@ =~= r0.drop_first());
                assert(raw_call_views(r0)[0] == (opt_view(c.0), opt_view(c.1), opt_view(c.2)));
                assert(raw_call_views(rest@) =~= rv.skip(k + 1)) by {
                    assert forall|j: int| 0 <= j < rest@.len() implies #[trigger] raw_call_views(rest@)[j] == rv.skip(k + 1)[j] by {
                        assert(rest@[j] == r0[j + 1]);
                        assert(raw_call_views(r0)[j + 1] == rv.skip(k)[j + 1]);
                    }
                }
                let t = call_from_raw(c);
                let ghost before = out@;
                out.push(t);
                assert(calls_view(out@) =~= rv.take(k + 1).map_values(|c: RawCall| call_of(c))) by {
                    assert(rv.take(k + 1) =~= rv.take(k).push(rv[k]));
                    assert(out@ =~= before.push(t));
                    assert forall|j: int| 0 <= j < k + 1 implies #[trigger] calls_view(out@)[j]
                        == rv.take(k + 1).map_values(|c: RawCall| call_of(c))[j] by {
                        if j < k {
                            assert(calls_view(before)[j] == rv.take(k).map_values(|c: RawCall| call_of(c))[j]);
                        }
                    }
                }
            }
            assert(rv.take(n as int) =~= rv);
            Ok(ChatResponse::ToolCall(out))
        },
    }
}

} // verus!
