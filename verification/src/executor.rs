//! Task planning for the built-in tools and reading of their output.
//!
//! A task names a tool and carries JSON input.  The functions here decide,
//! from the input fields, what process to start (or which error to report),
//! and read the process output back into the tool's result values.  Starting
//! processes, sleeping, and the floating-point comparisons of
//! `sigops.condition` / `sigops.wait` are the caller's part.

use vstd::prelude::*;

use crate::json::{self, json_quote};
use crate::security::{self, PolicyView, SecurityError, SecurityPolicy};
use std::time::Duration;
use crate::text::{
    self, char_is_control, chars_have, chars_rfind, parse_u16, split_whitespace, str_starts_with,
    to_chars, trim, trim_end,
};

verus! {

/// Outcome status of a task.
#[derive(Debug, Clone, Copy, PartialEq, Eq)]
pub enum TaskStatus {
    Success,
    Failed,
}

/// The built-in tools.
#[derive(Debug, Clone, Copy, PartialEq, Eq)]
pub enum Tool {
    /// `sigops.restart`
    Restart,
    /// `sigops.http`
    Http,
    /// `sigops.notify_slack`
    NotifySlack,
    /// `sigops.condition`
    Condition,
    /// `sigops.wait`
    Wait,
}

/// The view of a `Result<_, String>` error as characters.
pub open spec fn err_view<T>(r: Result<T, String>) -> Option<Seq<char>> {
    match r {
        Ok(_) => None,
        Err(e) => Some(e@),
    }
}

/// The tool a task names, or the error for an unknown tool name.
pub open spec fn resolve_tool_spec(name: Seq<char>) -> Result<Tool, Seq<char>> {
    if name == "sigops.restart"@ {
        Ok(Tool::Restart)
    } else if name == "sigops.http"@ {
        Ok(Tool::Http)
    } else if name == "sigops.notify_slack"@ {
        Ok(Tool::NotifySlack)
    } else if name == "sigops.condition"@ {
        Ok(Tool::Condition)
    } else if name == "sigops.wait"@ {
        Ok(Tool::Wait)
    } else {
        Err("unknown tool: "@ + name)
    }
}

/// Resolve a task's tool name.
pub fn resolve_tool(name: &str) -> (r: Result<Tool, String>)
    ensures
        match r {
            Ok(t) => resolve_tool_spec(name@) == Ok::<Tool, Seq<char>>(t),
            Err(e) => resolve_tool_spec(name@) == Err::<Tool, Seq<char>>(e@),
        },
{
    let n = name.to_owned();
    if n == "sigops.restart".to_owned() {
        Ok(Tool::Restart)
    } else if n == "sigops.http".to_owned() {
        Ok(Tool::Http)
    } else if n == "sigops.notify_slack".to_owned() {
        Ok(Tool::NotifySlack)
    } else if n == "sigops.condition".to_owned() {
        Ok(Tool::Condition)
    } else if n == "sigops.wait".to_owned() {
        Ok(Tool::Wait)
    } else {
        let mut e = "unknown tool: ".to_owned();
        e.append(name);
        Err(e)
    }
}

// ---------------------------------------------------------------------------
// URLs
// ---------------------------------------------------------------------------

/// What `validate_url` answers: `None` when the URL is accepted, else the
/// error message.
pub open spec fn validate_url_spec(url: Seq<char>) -> Option<Seq<char>> {
    if !text::starts_with_seq(url, "http://"@) && !text::starts_with_seq(url, "https://"@) {
        Some("invalid URL scheme: URL must start with http:// or https://, got: "@ + url)
    } else if text::has_char(url, '\n') || text::has_char(url, '\r') {
        Some("invalid URL: contains newline characters"@)
    } else if text::has_char(url, '\0') {
        Some("invalid URL: contains null bytes"@)
    } else if exists|i: int| 0 <= i < url.len() && text::is_control_char(url[i]) {
        Some("invalid URL: contains control characters"@)
    } else {
        None
    }
}

/// Validate a URL for use with the HTTP tool.
/// Rejects URLs without http(s) scheme, and URLs containing control characters.
#[verifier::loop_isolation(false)]
pub fn validate_url(url: &str) -> (r: Result<(), String>)
    ensures
        err_view(r) == validate_url_spec(url@),
{
    if !str_starts_with(url, "http://") && !str_starts_with(url, "https://") {
        let mut e = "invalid URL scheme: URL must start with http:// or https://, got: ".to_owned();
        e.append(url);
        return Err(e);
    }
    let v = to_chars(url);
    if chars_have(&v, '\n') || chars_have(&v, '\r') {
        return Err("invalid URL: contains newline characters".to_owned());
    }
    if chars_have(&v, '\0') {
        return Err("invalid URL: contains null bytes".to_owned());
    }
    let mut i: usize = 0;
    while i < v.len()
        invariant
            v@ == url@,
            i <= v.len(),
            forall|k: int| 0 <= k < i ==> !text::is_control_char(v@[k]),
        decreases v.len() - i,
    {
        if char_is_control(v[i]) {
            return Err("invalid URL: contains control characters".to_owned());
        }
        i = i + 1;
    }
    Ok(())
}

/// An accepted URL uses the http or https scheme and holds no control
/// character (in particular no CR, LF or NUL that could smuggle a header).
pub proof fn lemma_accepted_url_is_clean(url: Seq<char>)
    requires
        validate_url_spec(url) is None,
    ensures
        text::starts_with_seq(url, "http://"@) || text::starts_with_seq(url, "https://"@),
        forall|i: int| 0 <= i < url.len() ==> !text::is_control_char(#[trigger] url[i]),
{
}

// ---------------------------------------------------------------------------
// Processes
// ---------------------------------------------------------------------------

/// A process to start: the program, its argument list, and the wall-clock
/// budget after which the runner kills it.
#[derive(Debug, Clone, PartialEq, Eq)]
pub struct ProcessSpec {
    pub program: String,
    pub args: Vec<String>,
    pub timeout: Duration,
}

/// The characters of the program and of each argument.
pub open spec fn process_view(p: ProcessSpec) -> (Seq<char>, Seq<Seq<char>>) {
    (p.program@, security::strings_view(p.args@))
}

fn string_vec(items: &[&str]) -> (r: Vec<String>)
    ensures
        security::strings_view(r@) == security::strs_view(items@),
{
    let mut r: Vec<String> = Vec::new();
    let mut i: usize = 0;
    while i < items.len()
        invariant
            i <= items.len(),
            r@.len() == i,
            forall|k: int| 0 <= k < i ==> #[trigger] r@[k]@ == items@[k]@,
        decreases items.len() - i,
    {
        r.push(items[i].to_owned());
        i = i + 1;
    }
    assert(security::strings_view(r@) =~= security::strs_view(items@));
    r
}

/// The value of an optional string field, or `default` when absent.
pub open spec fn field_or(f: Option<Seq<char>>, default: Seq<char>) -> Seq<char> {
    match f {
        Some(v) => v,
        None => default,
    }
}

pub open spec fn opt_str_view(o: Option<&str>) -> Option<Seq<char>> {
    match o {
        Some(s) => Some(s@),
        None => None,
    }
}

// --- sigops.restart --------------------------------------------------------

/// Trusted name: what `char::is_alphanumeric` answers.
pub uninterp spec fn unicode_alphanumeric(c: char) -> bool;

/// Trusted: `char::is_alphanumeric`, documented as `is_alphabetic() ||
/// is_numeric()`: the Unicode `Alphabetic` property or a numeric general
/// category.  Its answer depends on the character alone and is named
/// `unicode_alphanumeric`; beyond that only its ASCII behaviour is stated:
/// in the Unicode Character Database that those methods refer to, the ASCII
/// letters are `Alphabetic`, the ASCII digits are `Nd`, and no other ASCII
/// character is either.
#[verifier::external_body]
fn char_is_alphanumeric(c: char) -> (r: bool)
    ensures
        r == unicode_alphanumeric(c),
        (c as u32) < 0x80 ==> (r == (('a' <= c <= 'z') || ('A' <= c <= 'Z') || ('0' <= c <= '9'))),
{
    c.is_alphanumeric()
}

/// ASCII letters and digits.
pub open spec fn is_ascii_alphanumeric(c: char) -> bool {
    ('a' <= c <= 'z') || ('A' <= c <= 'Z') || ('0' <= c <= '9')
}

/// Characters a service name may hold: alphanumerics (for ASCII, the
/// letters of either case and the digits), `-`, `_` and `.`.
pub open spec fn service_name_char(c: char) -> bool {
    (if (c as u32) < 0x80 {
        is_ascii_alphanumeric(c)
    } else {
        unicode_alphanumeric(c)
    }) || c == '-' || c == '_' || c == '.'
}

pub open spec fn valid_service_name(s: Seq<char>) -> bool {
    forall|i: int| 0 <= i < s.len() ==> service_name_char(#[trigger] s[i])
}

/// Whether `s` is a service name the restart tool accepts: only
/// alphanumerics, `-`, `_` and `.`.  An accepted name holds no shell
/// metacharacter.
pub fn is_valid_service_name(s: &str) -> (r: bool)
    ensures
        r == valid_service_name(s@),
        r ==> !security::has_shell_metachar(s@),
{
    let v = to_chars(s);
    let mut i: usize = 0;
    while i < v.len()
        invariant
            v@ == s@,
            i <= v.len(),
            forall|k: int| 0 <= k < i ==> service_name_char(v@[k]),
            forall|k: int| 0 <= k < i ==> !security::is_shell_metachar(v@[k]),
        decreases v.len() - i,
    {
        let c = v[i];
        let alnum = char_is_alphanumeric(c);
        if !(alnum || c == '-' || c == '_' || c == '.') {
            assert(!service_name_char(s@[i as int]));
            return false;
        }
        assert(!security::is_shell_metachar(c));
        i = i + 1;
    }
    true
}

/// What the restart tool starts, or its error: the service name must be
/// valid, and `<method> restart <service>` must pass the policy.
pub open spec fn plan_restart_spec(
    p: PolicyView,
    service: Option<Seq<char>>,
    method: Option<Seq<char>>,
) -> Result<(Seq<char>, Seq<Seq<char>>), Seq<char>> {
    match service {
        None => Err("missing 'service' field"@),
        Some(s) => if !valid_service_name(s) {
            Err("invalid service name"@)
        } else {
            let m = field_or(method, "systemctl"@);
            match security::validate_spec(p, m, seq!["restart"@, s]) {
                Err(e) => Err(security::error_message(e)),
                Ok(()) => Ok((m, seq!["restart"@, s])),
            }
        },
    }
}

/// Plan `sigops.restart`: `<method> restart <service>`, with `systemctl` as
/// the default method, validated by the policy and run under its timeout.
pub fn plan_restart(policy: &SecurityPolicy, service: Option<&str>, method: Option<&str>) -> (r:
    Result<ProcessSpec, String>)
    ensures
        match r {
            Ok(q) => {
                &&& plan_restart_spec(policy@, opt_str_view(service), opt_str_view(method)) == Ok::<
                    (Seq<char>, Seq<Seq<char>>),
                    Seq<char>,
                >(process_view(q))
                &&& q.timeout == policy@.timeout
            },
            Err(e) => plan_restart_spec(policy@, opt_str_view(service), opt_str_view(method))
                == Err::<(Seq<char>, Seq<Seq<char>>), Seq<char>>(e@),
        },
{
    let service = match service {
        None => {
            return Err("missing 'service' field".to_owned());
        },
        Some(s) => s,
    };
    let method = match method {
        Some(m) => m,
        None => "systemctl",
    };
    if !is_valid_service_name(service) {
        return Err("invalid service name".to_owned());
    }
    let items = ["restart", service];
    assert(security::strs_view(items@) =~= seq!["restart"@, service@]);
    match policy.validate(method, &items) {
        Err(e) => {
            return Err(e.message());
        },
        Ok(()) => {},
    }
    let args = string_vec(&items);
    let p = ProcessSpec { program: method.to_owned(), args, timeout: policy.timeout() };
    Ok(p)
}


// --- sigops.http -----------------------------------------------------------

/// The curl arguments of the HTTP tool: silent, 30 s overall and 5 s connect
/// timeouts, the status code written after the body on its own line.
pub open spec fn http_curl_args(method: Seq<char>, url: Seq<char>) -> Seq<Seq<char>> {
    seq![
        "-s"@,
        "--max-time"@,
        "30"@,
        "--connect-timeout"@,
        "5"@,
        "-w"@,
        "\n%{http_code}"@,
        "-X"@,
        method,
        url,
    ]
}

/// A `curl` process with these arguments when the policy allows `curl`,
/// else the policy's refusal.
pub open spec fn curl_plan(p: PolicyView, args: Seq<Seq<char>>) -> Result<
    (Seq<char>, Seq<Seq<char>>),
    Seq<char>,
> {
    if security::command_allowed(p, "curl"@) {
        Ok(("curl"@, args))
    } else {
        Err(security::error_message(security::SecurityErrorView::CommandNotAllowed("curl"@)))
    }
}

/// Whether the policy allows `curl`, or the refusal's text.
fn check_curl(policy: &SecurityPolicy) -> (r: Result<(), String>)
    ensures
        match r {
            Ok(()) => security::command_allowed(policy@, "curl"@),
            Err(e) => !security::command_allowed(policy@, "curl"@) && e@ == security::error_message(
                security::SecurityErrorView::CommandNotAllowed("curl"@),
            ),
        },
{
    if policy.is_command_allowed("curl") {
        Ok(())
    } else {
        let e = SecurityError::CommandNotAllowed("curl".to_owned());
        Err(e.message())
    }
}

/// What the HTTP tool starts, or its error.
pub open spec fn plan_http_spec(p: PolicyView, url: Option<Seq<char>>, method: Option<Seq<char>>) -> Result<
    (Seq<char>, Seq<Seq<char>>),
    Seq<char>,
> {
    match url {
        None => Err("missing 'url' field"@),
        Some(u) => match validate_url_spec(u) {
            Some(e) => Err(e),
            None => curl_plan(p, http_curl_args(field_or(method, "GET"@), u)),
        },
    }
}

/// Plan `sigops.http`: a `curl` request with `GET` as the default method,
/// when the policy allows `curl`, run under the policy's timeout.
pub fn plan_http(policy: &SecurityPolicy, url: Option<&str>, method: Option<&str>) -> (r: Result<
    ProcessSpec,
    String,
>)
    ensures
        match r {
            Ok(q) => {
                &&& plan_http_spec(policy@, opt_str_view(url), opt_str_view(method)) == Ok::<
                    (Seq<char>, Seq<Seq<char>>),
                    Seq<char>,
                >(process_view(q))
                &&& q.timeout == policy@.timeout
            },
            Err(e) => plan_http_spec(policy@, opt_str_view(url), opt_str_view(method)) == Err::<
                (Seq<char>, Seq<Seq<char>>),
                Seq<char>,
            >(e@),
        },
{
    let url = match url {
        None => {
            return Err("missing 'url' field".to_owned());
        },
        Some(u) => u,
    };
    let method = match method {
        Some(m) => m,
        None => "GET",
    };
    match validate_url(url) {
        Err(e) => {
            return Err(e);
        },
        Ok(()) => {},
    }
    match check_curl(policy) {
        Err(e) => {
            return Err(e);
        },
        Ok(()) => {},
    }
    let args = string_vec(
        &[
            "-s",
            "--max-time",
            "30",
            "--connect-timeout",
            "5",
            "-w",
            "\n%{http_code}",
            "-X",
            method,
            url,
        ],
    );
    let p = ProcessSpec { program: "curl".to_owned(), args, timeout: policy.timeout() };
    assert(security::strings_view(p.args@) =~= http_curl_args(method@, url@));
    Ok(p)
}

/// The status code a string denotes, or 0 when it is not a `u16`.
pub open spec fn status_or_zero(s: Seq<char>) -> u16 {
    match text::parse_u16_spec(s) {
        Some(v) => v,
        None => 0,
    }
}

/// The HTTP tool's reading of curl's output.
#[derive(Debug, Clone, PartialEq, Eq)]
pub struct HttpReply {
    /// The status code from the last line, or 0 when it does not parse.
    pub status: u16,
    /// Everything before the last line.
    pub body: String,
}

/// How the HTTP tool splits curl's output: trailing white space dropped,
/// the last line is the status code, everything before it is the body.
pub open spec fn http_reply_spec(raw: Seq<char>) -> (Seq<char>, u16) {
    let t = text::trim_end_seq(raw);
    match text::last_index_of(t, '\n') {
        Some(k) => (t.subrange(0, k), status_or_zero(text::trim_seq(t.subrange(k + 1, t.len() as int)))),
        None => (seq![], status_or_zero(t)),
    }
}

/// The status code of a string, or 0.
fn parse_status_or_zero(s: &str) -> (r: u16)
    ensures
        r == status_or_zero(s@),
{
    match parse_u16(s) {
        Some(v) => v,
        None => 0,
    }
}

/// Read the HTTP tool's curl output (`body`, newline, status code).
pub fn parse_http_output(raw: &str) -> (r: HttpReply)
    ensures
        (r.body@, r.status) == http_reply_spec(raw@),
{
    let t = trim_end(raw);
    let ts = t.as_str();
    let v = to_chars(ts);
    match chars_rfind(&v, '\n') {
        Some(k) => {
            let body = ts.substring_char(0, k).to_owned();
            let status_str = trim(ts.substring_char(k + 1, v.len()));
            HttpReply { status: parse_status_or_zero(status_str.as_str()), body }
        },
        None => HttpReply { status: parse_status_or_zero(ts), body: String::new() },
    }
}

// --- sigops.notify_slack -----------------------------------------------------

/// The JSON body posted to the Slack webhook.
pub open spec fn slack_payload_spec(channel: Seq<char>, message: Seq<char>) -> Seq<char> {
    "{\"channel\":"@ + json::json_quoted(channel) + ",\"text\":"@ + json::json_quoted(message)
        + "}"@
}

/// The curl arguments that post `payload` to `webhook`: the response body is
/// dropped and only the status code is written, with 10 s overall and 5 s
/// connect timeouts.
pub open spec fn slack_curl_args(payload: Seq<char>, webhook: Seq<char>) -> Seq<Seq<char>> {
    seq![
        "-s"@,
        "-o"@,
        "/dev/null"@,
        "-w"@,
        "%{http_code}"@,
        "--max-time"@,
        "10"@,
        "--connect-timeout"@,
        "5"@,
        "-X"@,
        "POST"@,
        "-H"@,
        "Content-Type: application/json"@,
        "-d"@,
        payload,
        webhook,
    ]
}

/// What the Slack tool starts, or its error.
pub open spec fn plan_notify_slack_spec(
    p: PolicyView,
    channel: Option<Seq<char>>,
    message: Option<Seq<char>>,
    webhook: Option<Seq<char>>,
) -> Result<(Seq<char>, Seq<Seq<char>>), Seq<char>> {
    match channel {
        None => Err("missing 'channel' field"@),
        Some(c) => match message {
            None => Err("missing 'message' field"@),
            Some(m) => match webhook {
                None => Err("webhookUrl is required for sigops.notify_slack"@),
                Some(w) => curl_plan(p, slack_curl_args(slack_payload_spec(c, m), w)),
            },
        },
    }
}

/// The JSON body posted to Slack for `channel` and `message`.
pub fn slack_payload(channel: &str, message: &str) -> (r: String)
    ensures
        r@ == slack_payload_spec(channel@, message@),
{
    let mut p = "{\"channel\":".to_owned();
    let qc = json_quote(channel);
    p.append(qc.as_str());
    p.append(",\"text\":");
    let qm = json_quote(message);
    p.append(qm.as_str());
    p.append("}");
    p
}

/// Plan `sigops.notify_slack`: post `{channel, text}` to the webhook with
/// `curl`, when the policy allows it, run under the policy's timeout.
pub fn plan_notify_slack(
    policy: &SecurityPolicy,
    channel: Option<&str>,
    message: Option<&str>,
    webhook: Option<&str>,
) -> (r: Result<ProcessSpec, String>)
    ensures
        match r {
            Ok(q) => {
                &&& plan_notify_slack_spec(
                    policy@,
                    opt_str_view(channel),
                    opt_str_view(message),
                    opt_str_view(webhook),
                ) == Ok::<(Seq<char>, Seq<Seq<char>>), Seq<char>>(process_view(q))
                &&& q.timeout == policy@.timeout
            },
            Err(e) => plan_notify_slack_spec(
                policy@,
                opt_str_view(channel),
                opt_str_view(message),
                opt_str_view(webhook),
            ) == Err::<(Seq<char>, Seq<Seq<char>>), Seq<char>>(e@),
        },
{
    let channel = match channel {
        None => {
            return Err("missing 'channel' field".to_owned());
        },
        Some(c) => c,
    };
    let message = match message {
        None => {
            return Err("missing 'message' field".to_owned());
        },
        Some(m) => m,
    };
    let webhook = match webhook {
        None => {
            return Err("webhookUrl is required for sigops.notify_slack".to_owned());
        },
        Some(w) => w,
    };
    match check_curl(policy) {
        Err(e) => {
            return Err(e);
        },
        Ok(()) => {},
    }
    let payload = slack_payload(channel, message);
    let args = string_vec(
        &[
            "-s",
            "-o",
            "/dev/null",
            "-w",
            "%{http_code}",
            "--max-time",
            "10",
            "--connect-timeout",
            "5",
            "-X",
            "POST",
            "-H",
            "Content-Type: application/json",
            "-d",
            payload.as_str(),
            webhook,
        ],
    );
    let p = ProcessSpec { program: "curl".to_owned(), args, timeout: policy.timeout() };
    assert(security::strings_view(p.args@) =~= slack_curl_args(payload@, webhook@));
    Ok(p)
}

/// The Slack tool's reading of curl's output: the trimmed status code, or 0.
pub fn parse_status_code(out: &str) -> (r: u16)
    ensures
        r == status_or_zero(text::trim_seq(out@)),
{
    let t = trim(out);
    parse_status_or_zero(t.as_str())
}

// --- sigops.condition --------------------------------------------------------

/// The three white-space separated parts of a comparison.
#[derive(Debug, Clone, PartialEq, Eq)]
pub struct ConditionParts {
    pub lhs: String,
    pub op: String,
    pub rhs: String,
}

/// How the condition tool splits its expression, or its error.
pub open spec fn split_condition_spec(expr: Option<Seq<char>>) -> Result<
    (Seq<char>, Seq<char>, Seq<char>),
    Seq<char>,
> {
    match expr {
        None => Err("missing 'expression' field"@),
        Some(e) => if text::words(e).len() != 3 {
            Err("unsupported expression: "@ + e)
        } else {
            Ok((text::words(e)[0], text::words(e)[1], text::words(e)[2]))
        },
    }
}

/// Split `sigops.condition`'s expression ("10 > 5") into its three parts.
pub fn split_condition(expr: Option<&str>) -> (r: Result<ConditionParts, String>)
    ensures
        match r {
            Ok(c) => split_condition_spec(opt_str_view(expr)) == Ok::<
                (Seq<char>, Seq<char>, Seq<char>),
                Seq<char>,
            >((c.lhs@, c.op@, c.rhs@)),
            Err(e) => split_condition_spec(opt_str_view(expr)) == Err::<
                (Seq<char>, Seq<char>, Seq<char>),
                Seq<char>,
            >(e@),
        },
{
    let expr = match expr {
        None => {
            return Err("missing 'expression' field".to_owned());
        },
        Some(e) => e,
    };
    let parts = split_whitespace(expr);
    if parts.len() != 3 {
        let mut e = "unsupported expression: ".to_owned();
        e.append(expr);
        return Err(e);
    }
    Ok(
        ConditionParts {
            lhs: parts[0].clone(),
            op: parts[1].clone(),
            rhs: parts[2].clone(),
        },
    )
}

/// The comparison operators of `sigops.condition`.
#[derive(Debug, Clone, Copy, PartialEq, Eq)]
pub enum CompareOp {
    Eq,
    Ne,
    Gt,
    Lt,
    Ge,
    Le,
}

/// The operator a token names, or the error for an unknown one.
pub open spec fn compare_op_spec(op: Seq<char>) -> Result<CompareOp, Seq<char>> {
    if op == "=="@ {
        Ok(CompareOp::Eq)
    } else if op == "!="@ {
        Ok(CompareOp::Ne)
    } else if op == ">"@ {
        Ok(CompareOp::Gt)
    } else if op == "<"@ {
        Ok(CompareOp::Lt)
    } else if op == ">="@ {
        Ok(CompareOp::Ge)
    } else if op == "<="@ {
        Ok(CompareOp::Le)
    } else {
        Err("unknown operator: "@ + op)
    }
}

/// Read a comparison operator.
pub fn parse_compare_op(op: &str) -> (r: Result<CompareOp, String>)
    ensures
        match r {
            Ok(o) => compare_op_spec(op@) == Ok::<CompareOp, Seq<char>>(o),
            Err(e) => compare_op_spec(op@) == Err::<CompareOp, Seq<char>>(e@),
        },
{
    let o = op.to_owned();
    if o == "==".to_owned() {
        Ok(CompareOp::Eq)
    } else if o == "!=".to_owned() {
        Ok(CompareOp::Ne)
    } else if o == ">".to_owned() {
        Ok(CompareOp::Gt)
    } else if o == "<".to_owned() {
        Ok(CompareOp::Lt)
    } else if o == ">=".to_owned() {
        Ok(CompareOp::Ge)
    } else if o == "<=".to_owned() {
        Ok(CompareOp::Le)
    } else {
        let mut e = "unknown operator: ".to_owned();
        e.append(op);
        Err(e)
    }
}

// ---------------------------------------------------------------------------
// Dispatch
// ---------------------------------------------------------------------------

/// The string fields of a task's input that the tools read (each present
/// when the input holds a string under that key).
#[derive(Debug, Clone, PartialEq, Eq)]
pub struct TaskFields {
    pub service: Option<String>,
    pub method: Option<String>,
    pub url: Option<String>,
    pub channel: Option<String>,
    pub message: Option<String>,
    /// The `webhookUrl` field.
    pub webhook_url: Option<String>,
    pub expression: Option<String>,
}

/// What a task does once its fields are read.
#[derive(Debug, Clone, PartialEq, Eq)]
pub enum TaskPlan {
    /// `sigops.restart`: start this process.
    Restart(ProcessSpec),
    /// `sigops.http`: start this curl process.
    Http(ProcessSpec),
    /// `sigops.notify_slack`: start this curl process.
    NotifySlack(ProcessSpec),
    /// `sigops.condition`: compare the two numbers of the expression.
    Compare(ConditionParts),
    /// `sigops.wait`: its length is a floating-point number of seconds.
    Wait,
}

/// The mathematical value of a [`TaskPlan`].
pub enum TaskPlanView {
    Run { tool: Tool, program: Seq<char>, args: Seq<Seq<char>>, timeout: Duration },
    Compare { lhs: Seq<char>, op: Seq<char>, rhs: Seq<char> },
    Wait,
}

pub open spec fn task_plan_view(p: TaskPlan) -> TaskPlanView {
    match p {
        TaskPlan::Restart(q) => TaskPlanView::Run {
            tool: Tool::Restart,
            program: q.program@,
            args: security::strings_view(q.args@),
            timeout: q.timeout,
        },
        TaskPlan::Http(q) => TaskPlanView::Run {
            tool: Tool::Http,
            program: q.program@,
            args: security::strings_view(q.args@),
            timeout: q.timeout,
        },
        TaskPlan::NotifySlack(q) => TaskPlanView::Run {
            tool: Tool::NotifySlack,
            program: q.program@,
            args: security::strings_view(q.args@),
            timeout: q.timeout,
        },
        TaskPlan::Compare(c) => TaskPlanView::Compare { lhs: c.lhs@, op: c.op@, rhs: c.rhs@ },
        TaskPlan::Wait => TaskPlanView::Wait,
    }
}

pub open spec fn opt_string_view(o: Option<String>) -> Option<Seq<char>> {
    match o {
        Some(s) => Some(s@),
        None => None,
    }
}

/// Lift a tool's process plan into a task plan.
pub open spec fn run_plan_spec(
    tool: Tool,
    r: Result<(Seq<char>, Seq<Seq<char>>), Seq<char>>,
    timeout: Duration,
) -> Result<TaskPlanView, Seq<char>> {
    match r {
        Ok((program, args)) => Ok(TaskPlanView::Run { tool, program, args, timeout }),
        Err(e) => Err(e),
    }
}

/// What a task named `tool_name` with fields `f` does, or its error.
pub open spec fn plan_task_spec(p: PolicyView, tool_name: Seq<char>, f: TaskFields) -> Result<
    TaskPlanView,
    Seq<char>,
> {
    match resolve_tool_spec(tool_name) {
        Err(e) => Err(e),
        Ok(Tool::Restart) => run_plan_spec(
            Tool::Restart,
            plan_restart_spec(p, opt_string_view(f.service), opt_string_view(f.method)),
            p.timeout,
        ),
        Ok(Tool::Http) => run_plan_spec(
            Tool::Http,
            plan_http_spec(p, opt_string_view(f.url), opt_string_view(f.method)),
            p.timeout,
        ),
        Ok(Tool::NotifySlack) => run_plan_spec(
            Tool::NotifySlack,
            plan_notify_slack_spec(
                p,
                opt_string_view(f.channel),
                opt_string_view(f.message),
                opt_string_view(f.webhook_url),
            ),
            p.timeout,
        ),
        Ok(Tool::Condition) => match split_condition_spec(opt_string_view(f.expression)) {
            Ok((lhs, op, rhs)) => Ok(TaskPlanView::Compare { lhs, op, rhs }),
            Err(e) => Err(e),
        },
        Ok(Tool::Wait) => Ok(TaskPlanView::Wait),
    }
}

fn opt_as_str(o: &Option<String>) -> (r: Option<&str>)
    ensures
        opt_str_view(r) == opt_string_view(*o),
{
    match o {
        Some(s) => Some(s.as_str()),
        None => None,
    }
}

/// Decide what a task does under `policy`: resolve its tool and plan it
/// from the input's fields.  Running the plan (and enforcing its timeout) is
/// the caller's part.
pub fn plan_task(policy: &SecurityPolicy, tool_name: &str, f: &TaskFields) -> (r: Result<
    TaskPlan,
    String,
>)
    ensures
        match r {
            Ok(p) => plan_task_spec(policy@, tool_name@, *f) == Ok::<TaskPlanView, Seq<char>>(
                task_plan_view(p),
            ),
            Err(e) => plan_task_spec(policy@, tool_name@, *f) == Err::<TaskPlanView, Seq<char>>(
                e@,
            ),
        },
{
    match resolve_tool(tool_name) {
        Err(e) => Err(e),
        Ok(Tool::Restart) => match plan_restart(policy, opt_as_str(&f.service), opt_as_str(&f.method)) {
            Ok(q) => Ok(TaskPlan::Restart(q)),
            Err(e) => Err(e),
        },
        Ok(Tool::Http) => match plan_http(policy, opt_as_str(&f.url), opt_as_str(&f.method)) {
            Ok(q) => Ok(TaskPlan::Http(q)),
            Err(e) => Err(e),
        },
        Ok(Tool::NotifySlack) => match plan_notify_slack(
            policy,
            opt_as_str(&f.channel),
            opt_as_str(&f.message),
            opt_as_str(&f.webhook_url),
        ) {
            Ok(q) => Ok(TaskPlan::NotifySlack(q)),
            Err(e) => Err(e),
        },
        Ok(Tool::Condition) => match split_condition(opt_as_str(&f.expression)) {
            Ok(c) => Ok(TaskPlan::Compare(c)),
            Err(e) => Err(e),
        },
        Ok(Tool::Wait) => Ok(TaskPlan::Wait),
    }
}

/// The parts of a task's result record: a successful run reports its output
/// and no error; a failed one reports `empty` as output and its error.
pub fn task_outcome<T>(result: Result<T, String>, empty: T) -> (r: (TaskStatus, T, Option<String>))
    ensures
        match result {
            Ok(o) => r == (TaskStatus::Success, o, None::<String>),
            Err(e) => r == (TaskStatus::Failed, empty, Some(e)),
        },
{
    match result {
        Ok(o) => (TaskStatus::Success, o, None),
        Err(e) => (TaskStatus::Failed, empty, Some(e)),
    }
}

/// Every process a task plan starts has passed the policy's allow-list and
/// runs under the policy's timeout; a restart's whole command line has
/// passed the policy's full validation.
pub proof fn lemma_planned_processes_pass_policy(p: PolicyView, tool_name: Seq<char>, f: TaskFields)
    requires
        plan_task_spec(p, tool_name, f) matches Ok(TaskPlanView::Run { .. }),
    ensures
        plan_task_spec(p, tool_name, f) matches Ok(
            TaskPlanView::Run { tool, program, args, timeout },
        ) ==> {
            &&& security::command_allowed(p, program)
            &&& timeout == p.timeout
            &&& (tool is Restart ==> security::validate_spec(p, program, args) is Ok)
        },
{
    if let Ok(Tool::Restart) = resolve_tool_spec(tool_name) {
        let m = field_or(opt_string_view(f.method), "systemctl"@);
        let s = opt_string_view(f.service)->0;
        security::lemma_accepted_call_is_screened(p, m, seq!["restart"@, s]);
    }
}

/// Every name made of ASCII letters of either case, ASCII digits, `-`, `_`
/// and `.` is a valid service name; and an ASCII character of a valid name
/// is always one of those, so a valid name holds no `/`, space or shell
/// metacharacter.
pub proof fn lemma_service_name_chars(s: Seq<char>)
    ensures
        (forall|i: int|
            0 <= i < s.len() ==> ('a' <= #[trigger] s[i] <= 'z') || ('A' <= s[i] <= 'Z') || ('0'
                <= s[i] <= '9') || s[i] == '-' || s[i] == '_' || s[i] == '.') ==> valid_service_name(
            s,
        ),
        valid_service_name(s) ==> forall|i: int|
            0 <= i < s.len() && (#[trigger] s[i] as u32) < 0x80 ==> ('a' <= s[i] <= 'z') || ('A'
                <= s[i] <= 'Z') || ('0' <= s[i] <= '9') || s[i] == '-' || s[i] == '_' || s[i] == '.',
        valid_service_name(s) ==> !security::has_shell_metachar(s),
{
    if valid_service_name(s) {
        assert forall|i: int| 0 <= i < s.len() implies !security::is_shell_metachar(s[i]) by {
            assert(service_name_char(s[i]));
        }
    }
}

/// No argument that is empty or does not start with `/` begins with an
/// absolute entry.
proof fn lemma_not_under_absolute(d: Seq<char>, arg: Seq<char>)
    requires
        d.len() > 0,
        d[0] == '/',
        arg.len() == 0 || arg[0] != '/',
    ensures
        !(d.len() <= arg.len() && arg.subrange(0, d.len() as int) == d),
{
    if d.len() <= arg.len() && arg.subrange(0, d.len() as int) == d {
        assert(arg.subrange(0, d.len() as int)[0] == arg[0]);
    }
}

/// Under the default policy (the default allow-list and denied paths, no
/// config directory), restarting a service whose name is made of ASCII
/// letters of either case, digits, `-`, `_` and `.` (with no `..`, which the
/// policy refuses as path traversal) runs `systemctl restart <name>`.
pub proof fn lemma_default_restart_plan(p: PolicyView, name: Seq<char>)
    requires
        p.allowed == security::default_allowed_commands(),
        p.denied == security::default_denied_paths(),
        p.config_dir is None,
        forall|i: int|
            0 <= i < name.len() ==> ('a' <= #[trigger] name[i] <= 'z') || ('A' <= name[i] <= 'Z')
                || ('0' <= name[i] <= '9') || name[i] == '-' || name[i] == '_' || name[i] == '.',
        !exists|i: int|
            #![trigger name[i]]
            0 <= i && i + 1 < name.len() && name[i] == '.' && name[i + 1] == '.',
    ensures
        plan_restart_spec(p, Some(name), None) == Ok::<(Seq<char>, Seq<Seq<char>>), Seq<char>>(
            ("systemctl"@, seq!["restart"@, name]),
        ),
{
    reveal_strlit("systemctl");
    reveal_strlit("restart");
    reveal_strlit("echo");
    reveal_strlit("ls");
    reveal_strlit("ps");
    reveal_strlit("df");
    reveal_strlit("cat");
    reveal_strlit("uptime");
    reveal_strlit("date");
    reveal_strlit("service");
    reveal_strlit("curl");
    reveal_strlit("/etc/shadow");
    reveal_strlit("/etc/passwd");
    reveal_strlit("/etc/gshadow");
    reveal_strlit("/root");
    reveal_strlit("/var/lib/secrets");
    reveal_strlit("/.ssh");
    reveal_strlit("/home/");
    lemma_service_name_chars(name);
    let cmd = "systemctl"@;
    assert(security::is_plain_file_name(cmd));
    assert(p.allowed[7] == cmd);
    security::lemma_plain_command_allowed_iff_listed(p, seq![], cmd);
    assert(security::command_allowed(p, cmd));
    assert(!security::has_shell_metachar(cmd));
    let r = "restart"@;
    assert(!security::has_shell_metachar(r));
    assert forall|j: int| #![trigger p.denied[j]] 0 <= j < p.denied.len() implies p.denied[j].len() > 0
        && p.denied[j][0] == '/' by {}
    security::lemma_check_arg_under_absolute_entries(p, r);
    security::lemma_check_arg_under_absolute_entries(p, name);
    assert forall|j: int| 0 <= j < p.denied.len() implies !(p.denied[j].len() <= r.len()
        && r.subrange(0, p.denied[j].len() as int) == #[trigger] p.denied[j]) by {
        lemma_not_under_absolute(p.denied[j], r);
    }
    assert forall|j: int| 0 <= j < p.denied.len() implies !(p.denied[j].len() <= name.len()
        && name.subrange(0, p.denied[j].len() as int) == #[trigger] p.denied[j]) by {
        lemma_not_under_absolute(p.denied[j], name);
    }
    assert(!exists|i: int| #![trigger r[i]] 0 <= i && i + 1 < r.len() && r[i] == '.' && r[i + 1] == '.');
    assert(security::check_arg_spec(p, r) is Ok);
    assert(security::check_arg_spec(p, name) is Ok);
    let args = seq![r, name];
    assert(args.drop_first().drop_first() =~= Seq::<Seq<char>>::empty());
    assert(args.drop_first() =~= seq![name]);
    reveal_with_fuel(security::check_args_spec, 3);
    assert(security::check_args_spec(p, args) is Ok);
}

/// The last line break of `a + "\n" + b` is the one after `a` when `b`
/// holds none.
proof fn lemma_last_break(a: Seq<char>, b: Seq<char>)
    requires
        forall|i: int| 0 <= i < b.len() ==> #[trigger] b[i] != '\n',
    ensures
        text::last_index_of(a + seq!['\n'] + b, '\n') == Some(a.len() as int),
    decreases b.len(),
{
    let s = a + seq!['\n'] + b;
    if b.len() == 0 {
        assert(s.last() == '\n');
    } else {
        let b2 = b.drop_last();
        assert(s.drop_last() =~= a + seq!['\n'] + b2);
        assert(s.last() == b[b.len() - 1]);
        lemma_last_break(a, b2);
    }
}

/// Whatever the body, curl output ending in a line break and the decimal
/// status code of any 16-bit status reads back as that body and that status.
pub proof fn lemma_http_reply_reads_status(body: Seq<char>, status: u16)
    ensures
        http_reply_spec(body + seq!['\n'] + text::decimal_seq(status as nat)) == (body, status),
{
    let d = text::decimal_seq(status as nat);
    text::lemma_decimal_digits(status as nat);
    text::lemma_parse_u16_of_decimal(status);
    let raw = body + seq!['\n'] + d;
    assert(raw.last() == d.last());
    assert('0' <= d[d.len() - 1] <= '9');
    assert(!text::is_white_space(raw.last()));
    assert(text::trim_end_seq(raw) == raw);
    assert forall|i: int| 0 <= i < d.len() implies #[trigger] d[i] != '\n' by {
        assert('0' <= d[i] <= '9');
    }
    lemma_last_break(body, d);
    let k = body.len() as int;
    assert(raw.subrange(0, k) =~= body);
    assert(raw.subrange(k + 1, raw.len() as int) =~= d);
    assert(!text::is_white_space(d.last()));
    assert(text::trim_end_seq(d) == d);
    assert('0' <= d[0] <= '9');
    assert(!text::is_white_space(d[0]));
    assert(text::trim_start_seq(d) == d);
}

} // verus!
