//! The configuration record consumed by the pipeline, and the defaults
//! applied when an option was not given on the command line.

use vstd::prelude::*;
use vstd::string::StringExecFns;

verus! {

/// Number of worker tasks when `--concurrency` is not given.
pub const DEFAULT_CONCURRENCY: usize = 4;

/// Per-request timeout in seconds when `--timeout` is not given.
pub const DEFAULT_TIMEOUT_SECS: u64 = 15;

/// The run's configuration: input and output paths (`None` means standard
/// input resp. standard output), the User-Agent header to send, the number
/// of concurrent workers, and the per-request timeout in seconds.
pub struct Args {
    pub input: Option<String>,
    pub user_agent: Option<String>,
    pub output: Option<String>,
    pub concurrency: usize,
    pub timeout: u64,
}

/// Builds the configuration record from the options as given on the command
/// line, filling in the default concurrency and timeout where absent.
pub fn args(
    input: Option<String>,
    user_agent: Option<String>,
    output: Option<String>,
    concurrency: Option<usize>,
    timeout: Option<u64>,
) -> (a: Args)
    ensures
        a.input == input,
        a.user_agent == user_agent,
        a.output == output,
        a.concurrency == (match concurrency {
            Some(c) => c,
            None => DEFAULT_CONCURRENCY,
        }),
        a.timeout == (match timeout {
            Some(t) => t,
            None => DEFAULT_TIMEOUT_SECS,
        }),
{
    Args {
        input,
        user_agent,
        output,
        concurrency: match concurrency {
            Some(c) => c,
            None => DEFAULT_CONCURRENCY,
        },
        timeout: match timeout {
            Some(t) => t,
            None => DEFAULT_TIMEOUT_SECS,
        },
    }
}

/// The User-Agent sent when none was configured.
pub fn default_user_agent() -> (r: String)
    ensures
        r@ == "jslinks/0.1.0"@,
{
    String::from_str("jslinks/0.1.0")
}

/// The User-Agent to use: the configured one where present, else the
/// application identifier.
pub fn user_agent_or_default(user_agent: Option<String>) -> (r: String)
    ensures
        match user_agent {
            Some(ua) => r@ == ua@,
            None => r@ == "jslinks/0.1.0"@,
        },
{
    match user_agent {
        Some(ua) => ua,
        None => default_user_agent(),
    }
}

} // verus!
