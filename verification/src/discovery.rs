//! Host discovery: which well-known tools to probe for, and how a probe's
//! output becomes a [`DiscoveredTool`].  Running the probes is the caller's
//! I/O.

use vstd::prelude::*;

use crate::security;
use crate::text::{self, chars_find, to_chars, trim};

verus! {

/// Represents a discovered tool on the host system.
#[derive(Debug, Clone, PartialEq, Eq)]
pub struct DiscoveredTool {
    pub name: String,
    pub version: Option<String>,
    pub path: String,
}

/// Host metadata (OS, hostname, IP).
#[derive(Debug, Clone, PartialEq, Eq)]
pub struct HostInfo {
    pub hostname: String,
    pub os: String,
    pub ip_address: Option<String>,
}

/// A tool to probe for and the arguments that make it print its version.
#[derive(Debug, Clone, PartialEq, Eq)]
pub struct ToolProbe {
    pub name: String,
    pub version_args: Vec<String>,
}

/// The probed tools, in probing order, with their version arguments.
pub open spec fn well_known_tools_spec() -> Seq<(Seq<char>, Seq<Seq<char>>)> {
    seq![
        ("systemctl"@, seq!["--version"@]),
        ("docker"@, seq!["--version"@]),
        ("kubectl"@, seq!["version"@, "--client"@, "--short"@]),
        ("curl"@, seq!["--version"@]),
        ("nginx"@, seq!["-v"@]),
        ("python3"@, seq!["--version"@]),
        ("node"@, seq!["--version"@]),
    ]
}

pub open spec fn probe_view(p: ToolProbe) -> (Seq<char>, Seq<Seq<char>>) {
    (p.name@, security::strings_view(p.version_args@))
}

fn probe(name: &str, args: &[&str]) -> (p: ToolProbe)
    ensures
        probe_view(p) == (name@, security::strs_view(args@)),
{
    let mut v: Vec<String> = Vec::new();
    let mut i: usize = 0;
    while i < args.len()
        invariant
            i <= args.len(),
            v@.len() == i,
            forall|k: int| 0 <= k < i ==> #[trigger] v@[k]@ == args@[k]@,
        decreases args.len() - i,
    {
        v.push(args[i].to_owned());
        i = i + 1;
    }
    assert(security::strings_view(v@) =~= security::strs_view(args@));
    ToolProbe { name: name.to_owned(), version_args: v }
}

/// Well-known tools to probe for on the host.
pub fn well_known_tools() -> (r: Vec<ToolProbe>)
    ensures
        r@.len() == well_known_tools_spec().len(),
        forall|i: int| 0 <= i < r@.len() ==> probe_view(#[trigger] r@[i]) == well_known_tools_spec()[i],
{
    let mut r: Vec<ToolProbe> = Vec::new();
    r.push(probe("systemctl", &["--version"]));
    r.push(probe("docker", &["--version"]));
    r.push(probe("kubectl", &["version", "--client", "--short"]));
    r.push(probe("curl", &["--version"]));
    r.push(probe("nginx", &["-v"]));
    r.push(probe("python3", &["--version"]));
    r.push(probe("node", &["--version"]));
    proof {
        assert(security::strs_view(seq!["--version"]) =~= seq!["--version"@]);
        assert(security::strs_view(seq!["version", "--client", "--short"]) =~= seq![
            "version"@,
            "--client"@,
            "--short"@,
        ]);
        assert(security::strs_view(seq!["-v"]) =~= seq!["-v"@]);
    }
    r
}

/// The text before the first line break.
pub open spec fn first_line(s: Seq<char>) -> Seq<char> {
    match text::first_index_of(s, '\n') {
        Some(k) => s.subrange(0, k),
        None => s,
    }
}

/// The version a probe reports: the first line of its output, trimmed, when
/// not empty.  (A `\r` before the line break is white space, so trimming
/// drops it as `str::lines` would.)
pub open spec fn version_line_spec(out: Seq<char>) -> Option<Seq<char>> {
    let t = text::trim_seq(first_line(out));
    if t.len() == 0 {
        None
    } else {
        Some(t)
    }
}

/// The first line of `out`, trimmed, when not empty.
pub fn first_line_trimmed(out: &str) -> (r: Option<String>)
    ensures
        match r {
            Some(s) => version_line_spec(out@) == Some(s@),
            None => version_line_spec(out@) is None,
        },
{
    let v = to_chars(out);
    let line: &str = match chars_find(&v, '\n') {
        Some(k) => {
            proof {
                text::lemma_first_index_of(v@, '\n', k as int);
            }
            out.substring_char(0, k)
        },
        None => {
            assert(out@.subrange(0, out@.len() as int) =~= out@);
            out.substring_char(0, v.len())
        },
    };
    let t = trim(line);
    if t.as_str().is_empty() {
        None
    } else {
        Some(t)
    }
}

/// The version a probe printed: tools that succeed print it on stdout, others
/// (like nginx) on stderr.
pub fn version_from_output(success: bool, stdout: &str, stderr: &str) -> (r: Option<String>)
    ensures
        match r {
            Some(s) => version_line_spec(if success { stdout@ } else { stderr@ }) == Some(s@),
            None => version_line_spec(if success { stdout@ } else { stderr@ }) is None,
        },
{
    if success {
        first_line_trimmed(stdout)
    } else {
        first_line_trimmed(stderr)
    }
}

/// The tool record for `name`, found at the (trimmed) path that `which`
/// printed, with the version the probe reported.
pub fn discovered_tool(name: &str, which_stdout: &str, version: Option<String>) -> (t: DiscoveredTool)
    ensures
        t.name@ == name@,
        t.path@ == text::trim_seq(which_stdout@),
        t.version == version,
{
    DiscoveredTool { name: name.to_owned(), version, path: trim(which_stdout) }
}

/// Host metadata from the host name (when it could be read) and the OS name;
/// the IP address is filled in by the server from the connection.
pub fn host_info(hostname: Option<&str>, os: &str) -> (h: HostInfo)
    ensures
        h.hostname@ == match hostname {
            Some(n) => n@,
            None => "unknown"@,
        },
        h.os@ == os@,
        h.ip_address is None,
{
    let name = match hostname {
        Some(n) => n.to_owned(),
        None => "unknown".to_owned(),
    };
    HostInfo { hostname: name, os: os.to_owned(), ip_address: None }
}

/// The tools that the probes found, in probing order.
pub open spec fn found_tools_spec(probed: Seq<Option<DiscoveredTool>>) -> Seq<DiscoveredTool>
    decreases probed.len(),
{
    if probed.len() == 0 {
        seq![]
    } else {
        let head: Seq<DiscoveredTool> = match probed[0] {
            Some(t) => seq![t],
            None => seq![],
        };
        head + found_tools_spec(probed.drop_first())
    }
}

/// Keep the tools that were found (one probe result per well-known tool),
/// in the order they were probed.
pub fn found_tools(probed: Vec<Option<DiscoveredTool>>) -> (r: Vec<DiscoveredTool>)
    ensures
        r@ == found_tools_spec(probed@),
{
    let ghost all = probed@;
    let mut rest = probed;
    let mut r: Vec<DiscoveredTool> = Vec::new();
    while rest.len() > 0
        invariant
            r@ + found_tools_spec(rest@) == found_tools_spec(all),
        decreases rest.len(),
    {
        let ghost before = rest@;
        let p = rest.remove(0);
        assert(rest@ =~= before.drop_first());
        match p {
            Some(t) => {
                r.push(t);
                assert(r@ + found_tools_spec(rest@) =~= found_tools_spec(all)) by {
                    assert(found_tools_spec(before) == seq![t] + found_tools_spec(rest@));
                }
            },
            None => {
                assert(found_tools_spec(before) =~= found_tools_spec(rest@));
            },
        }
    }
    assert(r@ + found_tools_spec(rest@) =~= r@);
    r
}

} // verus!
