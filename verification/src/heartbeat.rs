//! Heartbeat rules: retry back-off, control-plane endpoints, how a response
//! status is read, and how a rotated token from a heartbeat is applied.
//!
//! The HTTP exchanges themselves are the caller's I/O; the functions here are
//! the decisions between them.

use vstd::arithmetic::power2;
use vstd::prelude::*;

use crate::security::{self, SecurityError, SecurityErrorView, TokenStore};
use crate::text::{self, trim_end_char};

verus! {

/// Maximum consecutive failed attempts in one heartbeat round.
pub const MAX_CONSECUTIVE_FAILURES: u32 = 5;

/// The delay before retrying after failed attempt number `attempt` (counted
/// from zero): `2^(attempt+1)` seconds, capped at 60.
pub open spec fn backoff_spec(attempt: nat) -> nat {
    if power2::pow2(attempt + 1) < 60 {
        power2::pow2(attempt + 1)
    } else {
        60
    }
}

/// Calculate exponential backoff delay for retry attempts.
/// Backoff sequence: 2s, 4s, 8s, 16s, capped at 60s.
pub fn backoff_delay_secs(attempt: u32) -> (d: u64)
    ensures
        d == backoff_spec(attempt as nat),
{
    proof {
        power2::lemma2_to64();
    }
    if attempt >= 5 {
        proof {
            if attempt + 1 > 6 {
                power2::lemma_pow2_strictly_increases(6, (attempt + 1) as nat);
            }
        }
        60
    } else if attempt == 0 {
        2
    } else if attempt == 1 {
        4
    } else if attempt == 2 {
        8
    } else if attempt == 3 {
        16
    } else {
        32
    }
}

/// What the retry loop does after a failed attempt.
#[derive(Debug, PartialEq, Eq)]
pub struct RetryDecision {
    /// Seconds to sleep before going on.
    pub delay_secs: u64,
    /// Whether another attempt follows the sleep; when false the round ends
    /// with the last error.
    pub retry: bool,
}

/// Decide what follows failed attempt number `attempt` of a heartbeat round.
pub fn after_failed_attempt(attempt: u32) -> (d: RetryDecision)
    requires
        attempt < MAX_CONSECUTIVE_FAILURES,
    ensures
        d.delay_secs == backoff_spec(attempt as nat),
        d.retry == (attempt + 1 < MAX_CONSECUTIVE_FAILURES),
{
    RetryDecision {
        delay_secs: backoff_delay_secs(attempt),
        retry: attempt + 1 < MAX_CONSECUTIVE_FAILURES,
    }
}

/// The back-off stays within 2 to 60 seconds and never shrinks from one
/// attempt to the next.
pub proof fn lemma_backoff_bounded_and_monotone(a: nat, b: nat)
    requires
        a <= b,
    ensures
        2 <= backoff_spec(a) <= 60,
        backoff_spec(a) <= backoff_spec(b),
{
    power2::lemma2_to64();
    if a + 1 > 1 {
        power2::lemma_pow2_strictly_increases(1, a + 1);
    }
    if a < b {
        power2::lemma_pow2_strictly_increases(a + 1, b + 1);
    }
}

/// Each delay doubles the previous one until the 60 second cap.
pub proof fn lemma_backoff_doubles(a: nat)
    ensures
        backoff_spec(a + 1) == if 2 * backoff_spec(a) < 60 {
            2 * backoff_spec(a)
        } else {
            60
        },
{
    power2::lemma2_to64();
    assert(power2::pow2(a + 2) == 2 * power2::pow2(a + 1)) by {
        power2::lemma_pow2_unfold(a + 2);
    }
}

// ---------------------------------------------------------------------------
// Endpoints
// ---------------------------------------------------------------------------

/// The server URL with every trailing `/` removed.
pub fn normalize_server_url(server_url: &str) -> (r: String)
    ensures
        r@ == text::trim_end_char_seq(server_url@, '/'),
{
    trim_end_char(server_url, '/')
}

/// Normalizing removes all trailing slashes and is idempotent.
pub proof fn lemma_normalized_url(s: Seq<char>)
    ensures
        text::trim_end_char_seq(s, '/').len() == 0 || text::trim_end_char_seq(s, '/').last() != '/',
        text::trim_end_char_seq(text::trim_end_char_seq(s, '/'), '/') == text::trim_end_char_seq(s, '/'),
    decreases s.len(),
{
    if s.len() > 0 && s.last() == '/' {
        lemma_normalized_url(s.drop_last());
    }
}

pub open spec fn heartbeat_url_spec(base: Seq<char>) -> Seq<char> {
    base + "/api/v1/agents/heartbeat"@
}

pub open spec fn next_command_url_spec(base: Seq<char>, agent_id: Seq<char>) -> Seq<char> {
    base + "/api/v1/agents/"@ + agent_id + "/command/next"@
}

pub open spec fn result_url_spec(base: Seq<char>, task_id: Seq<char>) -> Seq<char> {
    base + "/api/v1/agents/command/"@ + task_id + "/result"@
}

/// The heartbeat endpoint under `base`.
pub fn heartbeat_url(base: &str) -> (r: String)
    ensures
        r@ == heartbeat_url_spec(base@),
{
    let mut r = base.to_owned();
    r.append("/api/v1/agents/heartbeat");
    r
}

/// The endpoint that hands out the agent's next command.
pub fn next_command_url(base: &str, agent_id: &str) -> (r: String)
    ensures
        r@ == next_command_url_spec(base@, agent_id@),
{
    let mut r = base.to_owned();
    r.append("/api/v1/agents/");
    r.append(agent_id);
    r.append("/command/next");
    r
}

/// The endpoint that a task's result is reported to.
pub fn result_url(base: &str, task_id: &str) -> (r: String)
    ensures
        r@ == result_url_spec(base@, task_id@),
{
    let mut r = base.to_owned();
    r.append("/api/v1/agents/command/");
    r.append(task_id);
    r.append("/result");
    r
}

// ---------------------------------------------------------------------------
// Responses
// ---------------------------------------------------------------------------

/// Whether an HTTP status is a success (2xx).
pub fn is_success_status(status: u16) -> (r: bool)
    ensures
        r == (200 <= status <= 299),
{
    200 <= status && status <= 299
}

/// How the answer to a fetch for the next command is read.
#[derive(Debug, PartialEq, Eq)]
pub enum FetchStatus {
    /// HTTP 204: the server has no pending work.
    NoCommand,
    /// A non-success status: the body is reported as a server error.
    Failed,
    /// A success status with a body holding the command.
    Ready,
}

/// Classify the status of a fetch-next-command answer.
pub fn classify_fetch_status(status: u16) -> (r: FetchStatus)
    ensures
        status == 204 ==> r == FetchStatus::NoCommand,
        status != 204 && !(200 <= status <= 299) ==> r == FetchStatus::Failed,
        status != 204 && 200 <= status <= 299 ==> r == FetchStatus::Ready,
{
    if status == 204 {
        FetchStatus::NoCommand
    } else if !is_success_status(status) {
        FetchStatus::Failed
    } else {
        FetchStatus::Ready
    }
}

/// The server's answer to a heartbeat.
#[derive(Debug, Clone, PartialEq, Eq)]
pub struct HeartbeatResponse {
    pub agent_id: String,
    pub status: String,
    /// Optional server-issued rotated bearer token.
    pub rotated_token: Option<String>,
}

/// Errors of the heartbeat exchanges.
#[derive(Debug, Clone, PartialEq, Eq)]
pub enum HeartbeatError {
    Network(String),
    Parse(String),
    Server { status: u16, body: String },
}

/// What applying a heartbeat's rotated token did.
#[derive(Debug, Clone, PartialEq, Eq)]
pub enum RotationOutcome {
    /// The response carried no rotated token.
    NotOffered,
    /// The offered token was empty or already current.
    Unchanged,
    /// The store now holds the offered token.
    Rotated,
    /// The offered token was malformed and discarded; the store kept its token.
    Rejected(SecurityError),
}

/// The view of a [`RotationOutcome`] as the answer of `maybe_rotate`.
pub open spec fn rotation_answer(o: RotationOutcome) -> Result<bool, SecurityErrorView> {
    match o {
        RotationOutcome::NotOffered => Ok(false),
        RotationOutcome::Unchanged => Ok(false),
        RotationOutcome::Rotated => Ok(true),
        RotationOutcome::Rejected(e) => Err(e@),
    }
}

/// Apply the rotated token of a successful heartbeat to the store.  A
/// malformed token is discarded and the previous token stays in use.
pub fn apply_rotated_token(tokens: &mut TokenStore, resp: &HeartbeatResponse) -> (o: RotationOutcome)
    ensures
        resp.rotated_token is None ==> o == RotationOutcome::NotOffered && final(tokens)@ == old(
            tokens,
        )@,
        resp.rotated_token matches Some(t) ==> (final(tokens)@, rotation_answer(o))
            == security::maybe_rotate_spec(old(tokens)@, Some(t@)) && !(o is NotOffered),
{
    match &resp.rotated_token {
        None => RotationOutcome::NotOffered,
        Some(t) => {
            let r = tokens.maybe_rotate(Some(t.as_str()));
            match r {
                Ok(true) => RotationOutcome::Rotated,
                Ok(false) => RotationOutcome::Unchanged,
                Err(e) => RotationOutcome::Rejected(e),
            }
        },
    }
}

} // verus!
