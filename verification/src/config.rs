//! Agent configuration.

use vstd::prelude::*;

verus! {

/// Agent configuration: where the control plane is, who the agent is, and
/// how often it reports.
#[derive(Debug, Clone)]
pub struct Config {
    /// SigOps server URL
    pub server_url: String,
    /// Agent ID (auto-generated if not set)
    pub agent_id: Option<String>,
    /// Tenant ID
    pub tenant_id: String,
    /// API token for authenticating with the server
    pub api_token: String,
    /// Heartbeat interval in seconds
    pub heartbeat_interval: u64,
    /// Log level
    pub log_level: String,
}

/// Lower-case hexadecimal digit.
pub open spec fn is_lower_hex(c: char) -> bool {
    ('0' <= c <= '9') || ('a' <= c <= 'f')
}

/// The text of a random (version 4) UUID in hyphenated lower-case form:
/// 8-4-4-4-12 hex digits, version digit `4`, variant digit one of `89ab`.
pub open spec fn is_v4_uuid_text(s: Seq<char>) -> bool {
    &&& s.len() == 36
    &&& forall|i: int|
        0 <= i < 36 ==> if i == 8 || i == 13 || i == 18 || i == 23 {
            s[i] == '-'
        } else {
            is_lower_hex(#[trigger] s[i])
        }
    &&& s[14] == '4'
    &&& (s[19] == '8' || s[19] == '9' || s[19] == 'a' || s[19] == 'b')
}

/// Trusted: `uuid::Uuid::new_v4()` followed by `to_string()`.  The UUID is
/// random, so no name is given to it; the uuid source (`new_v4` masks in the
/// version and variant bits, `Display` writes the lower-case hyphenated
/// form) shows the shape of every outcome.  It panics only when the
/// operating system cannot supply random bytes.
#[verifier::external_body]
fn new_v4_uuid_text() -> (r: String)
    ensures
        is_v4_uuid_text(r@),
{
    uuid::Uuid::new_v4().to_string()
}

impl Config {
    /// The configured agent ID, or a fresh random UUID when none is set.
    pub fn agent_id(&self) -> (r: String)
        ensures
            self.agent_id matches Some(a) ==> r@ == a@,
            self.agent_id is None ==> is_v4_uuid_text(r@),
    {
        match &self.agent_id {
            Some(a) => a.clone(),
            None => new_v4_uuid_text(),
        }
    }
}

} // verus!
