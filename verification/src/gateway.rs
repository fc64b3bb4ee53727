//! Decisions around the agent's background gateway service.  The process
//! spawning itself is outside work; these functions decide which binary to
//! use and turn the observed outcomes into the caller's results.

use vstd::prelude::*;
use vstd::string::StringExecFns;

use crate::bytes::{trim, trim_spec};

verus! {

/// Picks the agent binary to run: the installed one when it exists, else
/// what a lookup on the system path printed, trimmed, when that is not
/// empty.  `installed` is the installed binary's path if it exists;
/// `which_stdout` is the lookup's output if the lookup succeeded.
pub fn resolve_zeroclaw_bin(installed: Option<Vec<u8>>, which_stdout: Option<Vec<u8>>) -> (r:
    Option<Vec<u8>>)
    ensures
        match installed {
            Some(p) => r matches Some(q) && q@ == p@,
            None => match which_stdout {
                None => r is None,
                Some(out) => if trim_spec(out@).len() > 0 {
                    r matches Some(q) && q@ == trim_spec(out@)
                } else {
                    r is None
                },
            },
        },
{
    match installed {
        Some(p) => Some(p),
        None => match which_stdout {
            None => None,
            Some(out) => {
                let t = trim(&out);
                if t.len() > 0 {
                    Some(t)
                } else {
                    None
                }
            },
        },
    }
}

/// The gateway's status: without a binary the gateway counts as not running;
/// with one, the `service status` subcommand's success is the answer.
/// `run_spawn` holds the subcommand's success flag, or the text of the
/// operating-system error when it could not be spawned; that text is carried
/// into the returned error.
pub fn gateway_status(bin_found: bool, run_spawn: Result<bool, String>) -> (r: Result<
    bool,
    String,
>)
    ensures
        !bin_found ==> (r matches Ok(b) && b == false),
        bin_found ==> match run_spawn {
            Ok(s) => r matches Ok(b) && b == s,
            Err(e0) => r matches Err(e) && e@ == "Failed to check server status: "@ + e0@,
        },
{
    if !bin_found {
        return Ok(false);
    }
    match run_spawn {
        Ok(s) => Ok(s),
        Err(e0) => Err(String::from_str("Failed to check server status: ").concat(e0.as_str())),
    }
}

/// Starting the gateway: without a binary the start is skipped with a
/// message; with one, `service install` is spawned (its exit status does not
/// matter) and then `service start`.  `install_spawn` and `start_spawn` say
/// whether each spawn worked, or carry the operating-system error's text;
/// that text is carried into the returned error.
pub fn start_gateway(
    bin_found: bool,
    install_spawn: Result<(), String>,
    start_spawn: Result<(), String>,
) -> (r: Result<String, String>)
    ensures
        !bin_found ==> (r matches Ok(m) && m@ == "ZeroClaw binary not found, skipping startup"@),
        bin_found ==> match install_spawn {
            Err(e0) => r matches Err(e) && e@ == "Failed to install service: "@ + e0@,
            Ok(u) => match start_spawn {
                Err(e1) => r matches Err(e) && e@ == "Failed to start server: "@ + e1@,
                Ok(u2) => r matches Ok(m) && m@ == "ZeroClaw server started successfully"@,
            },
        },
{
    if !bin_found {
        return Ok(String::from_str("ZeroClaw binary not found, skipping startup"));
    }
    match install_spawn {
        Err(e0) => {
            return Err(String::from_str("Failed to install service: ").concat(e0.as_str()));
        },
        Ok(_) => {},
    }
    match start_spawn {
        Err(e1) => Err(String::from_str("Failed to start server: ").concat(e1.as_str())),
        Ok(_) => Ok(String::from_str("ZeroClaw server started successfully")),
    }
}

} // verus!
