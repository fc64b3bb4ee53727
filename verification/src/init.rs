//! First-run initialization of the agent: install the bundled binary into
//! the agent's directory, let the agent's own `onboard` subcommand generate
//! its configuration and workspace when none exists yet, and patch the
//! gateway section of the configuration.
//!
//! The file work is modelled on `FileMap` listings; the `onboard` subcommand
//! is an outside process, so what it wrote is handed in as the listing of
//! the files it created.

use vstd::prelude::*;
use vstd::string::StringExecFns;

use crate::bytes::copy_bytes;
use crate::config::{patch_gateway_config, spec_patch};
use crate::fsmodel::{copy_dir_recursive, install_binary, FileMap};

verus! {

/// `"bin/zeroclaw"`, the agent binary's path relative to both the resource
/// directory and the agent's root directory.
pub open spec fn bin_rel() -> Seq<u8> {
    seq![98, 105, 110, 47, 122, 101, 114, 111, 99, 108, 97, 119]
}

/// `"config.toml"`, the configuration file's path relative to the agent's
/// root directory.
pub open spec fn config_rel() -> Seq<u8> {
    seq![99, 111, 110, 102, 105, 103, 46, 116, 111, 109, 108]
}

pub fn bin_rel_vec() -> (v: Vec<u8>)
    ensures
        v@ == bin_rel(),
{
    let mut v: Vec<u8> = Vec::new();
    v.push(98);
    v.push(105);
    v.push(110);
    v.push(47);
    v.push(122);
    v.push(101);
    v.push(114);
    v.push(111);
    v.push(99);
    v.push(108);
    v.push(97);
    v.push(119);
    proof {
        assert(v@ =~= bin_rel());
    }
    v
}

pub fn config_rel_vec() -> (v: Vec<u8>)
    ensures
        v@ == config_rel(),
{
    let mut v: Vec<u8> = Vec::new();
    v.push(99);
    v.push(111);
    v.push(110);
    v.push(102);
    v.push(105);
    v.push(103);
    v.push(46);
    v.push(116);
    v.push(111);
    v.push(109);
    v.push(108);
    proof {
        assert(v@ =~= config_rel());
    }
    v
}

/// What initialization decides to do, from what it observed on disk.
pub struct InitPlan {
    /// Copy the bundled binary into the agent's directory.
    pub copy_binary: bool,
    /// Run the agent's `onboard` subcommand to generate configuration and
    /// workspace.
    pub run_onboard: bool,
}

/// The initialization decisions: the binary is copied when the resources
/// hold one and the destination has none yet, and `onboard` runs when a
/// binary is (or just got) installed and no configuration exists.  The
/// configuration patch is attempted afterwards in every case; it is a no-op
/// on a missing file.
pub fn initialize_plan(bin_src_exists: bool, bin_dst_exists: bool, config_exists: bool) -> (p:
    InitPlan)
    ensures
        p.copy_binary == (bin_src_exists && !bin_dst_exists),
        p.run_onboard == ((bin_dst_exists || bin_src_exists) && !config_exists),
{
    InitPlan {
        copy_binary: bin_src_exists && !bin_dst_exists,
        run_onboard: (bin_dst_exists || bin_src_exists) && !config_exists,
    }
}

/// The agent's directory after the install step: the bundled binary lands at
/// `bin/zeroclaw`, executable, unless one is already there or none is
/// bundled.
pub open spec fn spec_install(
    resource: Map<Seq<u8>, (Seq<u8>, bool)>,
    t: Map<Seq<u8>, (Seq<u8>, bool)>,
) -> Map<Seq<u8>, (Seq<u8>, bool)> {
    if resource.contains_key(bin_rel()) && !t.contains_key(bin_rel()) {
        t.insert(bin_rel(), (resource[bin_rel()].0, true))
    } else {
        t
    }
}

/// Whether `onboard` runs: a binary stands installed and no configuration
/// exists.
pub open spec fn spec_onboard_runs(t: Map<Seq<u8>, (Seq<u8>, bool)>) -> bool {
    t.contains_key(bin_rel()) && !t.contains_key(config_rel())
}

/// The agent's directory after the patch step: the configuration's content
/// is patched in place when it exists and needs the patch; nothing else
/// moves.
pub open spec fn spec_patch_step(t: Map<Seq<u8>, (Seq<u8>, bool)>) -> Map<
    Seq<u8>,
    (Seq<u8>, bool),
> {
    if t.contains_key(config_rel()) {
        let c = t[config_rel()].0;
        if spec_patch(c) == c {
            t
        } else {
            t.insert(config_rel(), (spec_patch(c), t[config_rel()].1))
        }
    } else {
        t
    }
}

/// The whole initialization on the model: `resource` lists the bundled
/// resource directory, `target` the agent's directory, and `onboard_output`
/// lists the files the agent's `onboard` subcommand created, or is `None`
/// when that subcommand failed.  The steps are: install the binary, run
/// `onboard` when a binary stands installed and no configuration exists,
/// then patch the configuration's gateway section.
pub fn initialize_from_resource_dir(
    resource: &FileMap,
    target: &mut FileMap,
    onboard_output: Option<&FileMap>,
) -> (r: Result<String, String>)
    requires
        resource.wf(),
        old(target).wf(),
        onboard_output matches Some(ob) ==> ob.wf(),
    ensures
        final (target).wf(),
        ({
            let t1 = spec_install(resource@, old(target)@);
            if spec_onboard_runs(t1) {
                match onboard_output {
                    None => r matches Err(e) && e@ == "zeroclaw onboard failed"@ && final (
                    target)@ == t1,
                    Some(ob) => r matches Ok(m) && m@
                        == "ZeroClaw initialization completed successfully"@ && final (target)@
                        == spec_patch_step(t1.union_prefer_right(ob@)),
                }
            } else {
                r matches Ok(m) && m@ == "ZeroClaw initialization completed successfully"@
                    && final (target)@ == spec_patch_step(t1)
            }
        }),
{
    let bin = bin_rel_vec();
    let cfg = config_rel_vec();

    // Install the bundled binary, if there is one.
    if resource.contains_path(&bin) {
        match install_binary(resource, &bin, target, &bin) {
            Ok(_) => {},
            Err(e) => {
                return Err(e);
            },
        }
    }

    // Run onboard when a binary stands installed and no configuration
    // exists yet; its output lands in the agent's directory.
    if target.contains_path(&bin) && !target.contains_path(&cfg) {
        match onboard_output {
            None => {
                return Err(String::from_str("zeroclaw onboard failed"));
            },
            Some(ob) => {
                match copy_dir_recursive(Some(ob), target) {
                    Ok(_) => {},
                    Err(e) => {
                        return Err(e);
                    },
                }
            },
        }
    }

    // Patch the configuration's gateway section, when a configuration
    // exists and needs it.
    let found: Option<(Vec<u8>, bool)> = match target.get(&cfg) {
        Some(e) => Some((copy_bytes(&e.content), e.executable)),
        None => None,
    };
    match found {
        None => {},
        Some((content, executable)) => {
            match patch_gateway_config(Some(content)) {
                None => {},
                Some(patched) => {
                    target.set(copy_bytes(&cfg), patched, executable);
                },
            }
        },
    }

    Ok(String::from_str("ZeroClaw initialization completed successfully"))
}

/// Law: initialization with no bundled binary, no installed binary and no
/// configuration writes nothing: the install step, the onboard decision and
/// the patch step all leave the directory exactly as it was.
pub proof fn lemma_init_absent_sources_writes_nothing(
    resource: Map<Seq<u8>, (Seq<u8>, bool)>,
    t: Map<Seq<u8>, (Seq<u8>, bool)>,
)
    requires
        !resource.contains_key(bin_rel()),
        !t.contains_key(bin_rel()),
        !t.contains_key(config_rel()),
    ensures
        spec_install(resource, t) == t,
        !spec_onboard_runs(spec_install(resource, t)),
        spec_patch_step(spec_install(resource, t)) == t,
{
}

} // verus!

verus! {

/// Whether the agent has been initialized: exactly when the configuration
/// file exists.
pub fn check_initialized(config_exists: bool) -> (r: Result<bool, String>)
    ensures
        r matches Ok(b) && b == config_exists,
{
    Ok(config_exists)
}

/// Skips or runs the agent's `onboard` subcommand: nothing to do when a
/// configuration already exists; otherwise the spawned subcommand must
/// succeed.  `outcome` carries the subcommand's success flag and its
/// diagnostic (exit code and standard error, as the shell formatted them),
/// or the operating-system error's text when it could not be spawned; the
/// diagnostic is carried into the returned error.  The result says whether
/// `onboard` ran.
pub fn run_zeroclaw_onboard(config_exists: bool, outcome: Result<(bool, String), String>) -> (r:
    Result<bool, String>)
    ensures
        config_exists ==> (r matches Ok(b) && b == false),
        !config_exists ==> match outcome {
            Err(e0) => r matches Err(e) && e@ == "Failed to run zeroclaw onboard: "@ + e0@,
            Ok(od) => if od.0 {
                r matches Ok(b) && b == true
            } else {
                r matches Err(e) && e@ == "zeroclaw onboard failed"@ + od.1@
            },
        },
{
    if config_exists {
        return Ok(false);
    }
    match outcome {
        Err(e0) => Err(String::from_str("Failed to run zeroclaw onboard: ").concat(e0.as_str())),
        Ok((success, detail)) => {
            if success {
                Ok(true)
            } else {
                Err(String::from_str("zeroclaw onboard failed").concat(detail.as_str()))
            }
        },
    }
}

} // verus!
