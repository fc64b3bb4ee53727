//! Well-known locations of the agent's files under the user's home
//! directory, as strings with `/` between the components.
//!
//! The joining itself is exact: each `..._of` function fixes its result as a
//! concatenation of the given home directory and a constant suffix.  The
//! public lookup functions only ask the platform for the home directory and
//! hand it on; what the platform answers is environmental, so they promise
//! the suffix of a successful result and the error message of a failed one.

use vstd::prelude::*;
use vstd::string::StringExecFns;

verus! {

/// The last characters of `s` are exactly `suffix`.
pub open spec fn ends_with_spec(s: Seq<char>, suffix: Seq<char>) -> bool {
    suffix.len() <= s.len() && s.subrange(s.len() - suffix.len(), s.len() as int) == suffix
}

/// Relies on dirs::home_dir: the user's home directory as the platform
/// reports it, or nothing when the platform knows none.  The result depends
/// on the environment, so nothing is promised of it.
#[verifier::external_body]
fn home_dir_string() -> (r: Option<String>) {
    dirs::home_dir().map(|p| p.to_string_lossy().into_owned())
}

/// The agent's root directory under `home`: `home` joined with `.zeroclaw`.
pub fn zeroclaw_dir_of(home: String) -> (r: String)
    ensures
        r@ == home@ + "/.zeroclaw"@,
{
    home.concat("/.zeroclaw")
}

/// The agent's workspace directory under `home`.
pub fn workspace_dir_of(home: String) -> (r: String)
    ensures
        r@ == home@ + "/.zeroclaw/workspace"@,
{
    let ghost h = home@;
    let d = zeroclaw_dir_of(home).concat("/workspace");
    proof {
        reveal_strlit("/.zeroclaw");
        reveal_strlit("/workspace");
        reveal_strlit("/.zeroclaw/workspace");
        assert(d@ =~= h + "/.zeroclaw/workspace"@);
    }
    d
}

/// The agent's binary directory under `home`.
pub fn bin_dir_of(home: String) -> (r: String)
    ensures
        r@ == home@ + "/.zeroclaw/bin"@,
{
    let ghost h = home@;
    let d = zeroclaw_dir_of(home).concat("/bin");
    proof {
        reveal_strlit("/.zeroclaw");
        reveal_strlit("/bin");
        reveal_strlit("/.zeroclaw/bin");
        assert(d@ =~= h + "/.zeroclaw/bin"@);
    }
    d
}

/// The installed agent binary under `home`.
pub fn zeroclaw_bin_path_of(home: String) -> (r: String)
    ensures
        r@ == home@ + "/.zeroclaw/bin/zeroclaw"@,
{
    let ghost h = home@;
    let d = bin_dir_of(home).concat("/zeroclaw");
    proof {
        reveal_strlit("/.zeroclaw/bin");
        reveal_strlit("/zeroclaw");
        reveal_strlit("/.zeroclaw/bin/zeroclaw");
        assert(d@ =~= h + "/.zeroclaw/bin/zeroclaw"@);
    }
    d
}

/// The agent's configuration file under `home`.
pub fn config_file_path_of(home: String) -> (r: String)
    ensures
        r@ == home@ + "/.zeroclaw/config.toml"@,
{
    let ghost h = home@;
    let d = zeroclaw_dir_of(home).concat("/config.toml");
    proof {
        reveal_strlit("/.zeroclaw");
        reveal_strlit("/config.toml");
        reveal_strlit("/.zeroclaw/config.toml");
        assert(d@ =~= h + "/.zeroclaw/config.toml"@);
    }
    d
}

/// The agent's root directory: `~/.zeroclaw`.
pub fn zeroclaw_dir() -> (r: Result<String, String>)
    ensures
        r matches Ok(d) ==> ends_with_spec(d@, "/.zeroclaw"@),
        r matches Err(e) ==> e@ == "Cannot determine home directory"@,
{
    match home_dir_string() {
        None => Err(String::from_str("Cannot determine home directory")),
        Some(home) => {
            let ghost h = home@;
            let d = zeroclaw_dir_of(home);
            proof {
                assert(d@.subrange(d@.len() - "/.zeroclaw"@.len(), d@.len() as int)
                    =~= "/.zeroclaw"@);
            }
            Ok(d)
        },
    }
}

/// The agent's workspace directory: `~/.zeroclaw/workspace`.
pub fn workspace_dir() -> (r: Result<String, String>)
    ensures
        r matches Ok(d) ==> ends_with_spec(d@, "/.zeroclaw/workspace"@),
        r matches Err(e) ==> e@ == "Cannot determine home directory"@,
{
    match home_dir_string() {
        None => Err(String::from_str("Cannot determine home directory")),
        Some(home) => {
            let ghost h = home@;
            let d = workspace_dir_of(home);
            proof {
                assert(d@.subrange(
                    d@.len() - "/.zeroclaw/workspace"@.len(),
                    d@.len() as int,
                ) =~= "/.zeroclaw/workspace"@);
            }
            Ok(d)
        },
    }
}

/// The agent's binary directory: `~/.zeroclaw/bin`.
pub fn bin_dir() -> (r: Result<String, String>)
    ensures
        r matches Ok(d) ==> ends_with_spec(d@, "/.zeroclaw/bin"@),
        r matches Err(e) ==> e@ == "Cannot determine home directory"@,
{
    match home_dir_string() {
        None => Err(String::from_str("Cannot determine home directory")),
        Some(home) => {
            let ghost h = home@;
            let d = bin_dir_of(home);
            proof {
                assert(d@.subrange(d@.len() - "/.zeroclaw/bin"@.len(), d@.len() as int)
                    =~= "/.zeroclaw/bin"@);
            }
            Ok(d)
        },
    }
}

/// The installed agent binary: `~/.zeroclaw/bin/zeroclaw`.
pub fn zeroclaw_bin_path() -> (r: Result<String, String>)
    ensures
        r matches Ok(d) ==> ends_with_spec(d@, "/.zeroclaw/bin/zeroclaw"@),
        r matches Err(e) ==> e@ == "Cannot determine home directory"@,
{
    match home_dir_string() {
        None => Err(String::from_str("Cannot determine home directory")),
        Some(home) => {
            let ghost h = home@;
            let d = zeroclaw_bin_path_of(home);
            proof {
                assert(d@.subrange(
                    d@.len() - "/.zeroclaw/bin/zeroclaw"@.len(),
                    d@.len() as int,
                ) =~= "/.zeroclaw/bin/zeroclaw"@);
            }
            Ok(d)
        },
    }
}

/// The agent's configuration file: `~/.zeroclaw/config.toml`.
pub fn config_file_path() -> (r: Result<String, String>)
    ensures
        r matches Ok(d) ==> ends_with_spec(d@, "/.zeroclaw/config.toml"@),
        r matches Err(e) ==> e@ == "Cannot determine home directory"@,
{
    match home_dir_string() {
        None => Err(String::from_str("Cannot determine home directory")),
        Some(home) => {
            let ghost h = home@;
            let d = config_file_path_of(home);
            proof {
                assert(d@.subrange(
                    d@.len() - "/.zeroclaw/config.toml"@.len(),
                    d@.len() as int,
                ) =~= "/.zeroclaw/config.toml"@);
            }
            Ok(d)
        },
    }
}

} // verus!
