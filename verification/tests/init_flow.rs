use easyclaw::fsmodel::FileMap;
use easyclaw::gateway::{gateway_status, start_gateway};
use easyclaw::init::{check_initialized, initialize_from_resource_dir, initialize_plan, run_zeroclaw_onboard};

/// The files the agent's `onboard` subcommand generates, as its listing.
fn onboard_output() -> FileMap {
    let mut ob = FileMap::new();
    ob.set(
        b"config.toml".to_vec(),
        b"[memory]\nauto_save = true\n\n[gateway]\nport = 3000\nhost = \"127.0.0.1\"\nrequire_pairing = true\n"
            .to_vec(),
        false,
    );
    ob.set(b"workspace/MEMORY.md".to_vec(), b"# Memory\n".to_vec(), false);
    ob.set(b"workspace/USER.md".to_vec(), b"# User\n".to_vec(), false);
    ob.set(b"workspace/SOUL.md".to_vec(), b"# Soul\n".to_vec(), false);
    ob.set(b"workspace/skills/README.md".to_vec(), b"# Skills\n".to_vec(), false);
    ob
}

fn resource_with_binary() -> FileMap {
    let mut resource = FileMap::new();
    resource.set(b"bin/zeroclaw".to_vec(), b"#!/bin/sh\n".to_vec(), true);
    resource
}

fn content_of(fs: &FileMap, path: &str) -> Option<String> {
    fs.get(&path.as_bytes().to_vec())
        .map(|e| String::from_utf8(e.content.clone()).unwrap())
}

#[test]
fn test_initialize_creates_all_expected_files() {
    let resource = resource_with_binary();
    let mut target = FileMap::new();

    let ob = onboard_output();
    let result = initialize_from_resource_dir(&resource, &mut target, Some(&ob));
    assert!(result.is_ok());

    // The configuration that onboard generated is there, patched.
    let config = content_of(&target, "config.toml").unwrap();
    assert!(config.contains("auto_save"));
    assert!(config.contains("port = 18789"));
    assert!(!config.contains("port = 3000"));
    assert!(config.contains("require_pairing = false"));
    assert!(!config.contains("require_pairing = true"));

    // The workspace files that onboard generated are there.
    assert!(target.contains_path(&b"workspace/MEMORY.md".to_vec()));
    assert!(target.contains_path(&b"workspace/USER.md".to_vec()));
    assert!(target.contains_path(&b"workspace/SOUL.md".to_vec()));
    assert!(target.contains_path(&b"workspace/skills/README.md".to_vec()));

    // The binary is installed and executable.
    let bin = target.get(&b"bin/zeroclaw".to_vec()).unwrap();
    assert!(bin.executable);
}

#[test]
fn test_initialize_is_idempotent() {
    let resource = resource_with_binary();
    let mut target = FileMap::new();

    // First initialization.
    let ob = onboard_output();
    initialize_from_resource_dir(&resource, &mut target, Some(&ob)).unwrap();
    let config_after_first = content_of(&target, "config.toml").unwrap();

    // The user edits a workspace file.
    target.set(b"workspace/MEMORY.md".to_vec(), b"# Custom Memory".to_vec(), false);

    // Second initialization: onboard is skipped because config.toml exists.
    let ob2 = onboard_output();
    initialize_from_resource_dir(&resource, &mut target, Some(&ob2)).unwrap();

    assert_eq!(content_of(&target, "workspace/MEMORY.md").unwrap(), "# Custom Memory");
    assert_eq!(content_of(&target, "config.toml").unwrap(), config_after_first);
}

#[test]
fn test_initialize_handles_missing_binary_gracefully() {
    let resource = FileMap::new();
    let mut target = FileMap::new();

    let result = initialize_from_resource_dir(&resource, &mut target, None);
    assert!(result.is_ok());
    assert!(!target.contains_path(&b"config.toml".to_vec()));
}

#[test]
fn test_initialize_fails_when_onboard_fails() {
    let resource = resource_with_binary();
    let mut target = FileMap::new();

    let result = initialize_from_resource_dir(&resource, &mut target, None);
    assert!(result.is_err());
    assert!(result.unwrap_err().contains("onboard failed"));
    // The binary got installed before onboard failed.
    assert!(target.contains_path(&b"bin/zeroclaw".to_vec()));
}

#[test]
fn test_initialize_patches_preexisting_config_without_binary() {
    let resource = FileMap::new();
    let mut target = FileMap::new();
    target.set(
        b"config.toml".to_vec(),
        b"[gateway]\nport = 3000\nrequire_pairing = true\n".to_vec(),
        false,
    );

    initialize_from_resource_dir(&resource, &mut target, None).unwrap();

    let config = content_of(&target, "config.toml").unwrap();
    assert!(config.contains("port = 18789"));
    assert!(config.contains("require_pairing = false"));
}

#[test]
fn test_initialize_plan_decisions() {
    let p = initialize_plan(true, false, false);
    assert!(p.copy_binary);
    assert!(p.run_onboard);

    let p = initialize_plan(true, true, false);
    assert!(!p.copy_binary);
    assert!(p.run_onboard);

    let p = initialize_plan(false, false, false);
    assert!(!p.copy_binary);
    assert!(!p.run_onboard);

    let p = initialize_plan(true, false, true);
    assert!(p.copy_binary);
    assert!(!p.run_onboard);

    let p = initialize_plan(false, true, true);
    assert!(!p.copy_binary);
    assert!(!p.run_onboard);
}

#[test]
fn test_check_initialized_reports_config_existence() {
    assert_eq!(check_initialized(true), Ok(true));
    assert_eq!(check_initialized(false), Ok(false));
}

#[test]
fn test_run_zeroclaw_onboard_outcomes() {
    assert_eq!(run_zeroclaw_onboard(true, Ok((false, String::new()))), Ok(false));
    assert_eq!(run_zeroclaw_onboard(false, Ok((true, String::new()))), Ok(true));
    let err =
        run_zeroclaw_onboard(false, Ok((false, " (exit 1): boom".to_string()))).unwrap_err();
    assert_eq!(err, "zeroclaw onboard failed (exit 1): boom");
    let err = run_zeroclaw_onboard(false, Err("no such file".to_string())).unwrap_err();
    assert_eq!(err, "Failed to run zeroclaw onboard: no such file");
}

#[test]
fn test_gateway_status_outcomes() {
    assert_eq!(gateway_status(false, Ok(false)), Ok(false));
    assert_eq!(gateway_status(true, Ok(true)), Ok(true));
    assert_eq!(gateway_status(true, Ok(false)), Ok(false));
    let err = gateway_status(true, Err("exec format error".to_string())).unwrap_err();
    assert_eq!(err, "Failed to check server status: exec format error");
}

#[test]
fn test_start_gateway_outcomes() {
    assert_eq!(
        start_gateway(false, Ok(()), Ok(())),
        Ok("ZeroClaw binary not found, skipping startup".to_string())
    );
    assert_eq!(
        start_gateway(true, Ok(()), Ok(())),
        Ok("ZeroClaw server started successfully".to_string())
    );
    let err = start_gateway(true, Err("permission denied".to_string()), Ok(())).unwrap_err();
    assert_eq!(err, "Failed to install service: permission denied");
    let err = start_gateway(true, Ok(()), Err("no such file".to_string())).unwrap_err();
    assert_eq!(err, "Failed to start server: no such file");
}
