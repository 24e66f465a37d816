# sigops-agent (verified core)

The SigOps agent runs on a host, reports to the SigOps control plane by
heartbeat, fetches commands, runs them under a security policy and reports
the results.

- `src/` is the library, verified with Verus:
  - `security`: the command allow-list (matched by file name; by default
    `echo ls ps df cat uptime date systemctl service curl`), the path
    deny-list (entries starting with `/` are absolute prefixes; a `~` entry
    matches literally, expanded with the home directory, or by its `/…`
    part; others match anywhere),
    shell-metacharacter and `..` screening, the wall-clock enforcement step,
    and bearer-token validation and rotation (one owned token store; the
    process shares it between tasks behind a lock);
  - `heartbeat`: retry back-off, control-plane endpoints, response status
    reading, and applying a rotated token from a heartbeat;
  - `executor`: tool resolution, URL and service-name validation, the
    process each built-in tool starts (every program passes the policy's
    allow-list, a restart's whole command line passes its validation, and
    every process carries the policy's timeout), and reading tool output;
  - `discovery`, `health`, `config`: probe list and probe-output reading,
    the health endpoint's response, and the agent ID;
  - `text`, `json`: character classes, trimming, splitting, number
    parsing and formatting, and JSON string literals.
- `app/` is the process: command line, logging, the HTTP client, the health
  listener, process spawning, file persistence of tokens, and the
  floating-point parts of the `condition` and `wait` tools.
- `tests/` exercises the library on concrete values.
