use easyclaw::gateway::resolve_zeroclaw_bin;
use easyclaw::paths::{
    bin_dir, bin_dir_of, config_file_path, config_file_path_of, workspace_dir, workspace_dir_of,
    zeroclaw_bin_path, zeroclaw_bin_path_of, zeroclaw_dir, zeroclaw_dir_of,
};

#[test]
fn test_zeroclaw_dir_is_under_home() {
    let dir = zeroclaw_dir().unwrap();
    let home = dirs::home_dir().unwrap();
    assert!(dir.starts_with(home.to_string_lossy().as_ref()));
    assert!(dir.ends_with(".zeroclaw"));
}

#[test]
fn test_workspace_dir_is_under_zeroclaw_dir() {
    let ws = workspace_dir().unwrap();
    let zc = zeroclaw_dir().unwrap();
    assert!(ws.starts_with(&zc));
    assert!(ws.ends_with("workspace"));
}

#[test]
fn test_config_file_path_ends_with_toml() {
    let cfg = config_file_path().unwrap();
    assert!(cfg.ends_with("config.toml"));
}

#[test]
fn test_bin_dir_is_under_zeroclaw_dir() {
    let bd = bin_dir().unwrap();
    let zc = zeroclaw_dir().unwrap();
    assert!(bd.starts_with(&zc));
    assert!(bd.ends_with("bin"));
}

#[test]
fn test_zeroclaw_bin_path_ends_with_zeroclaw() {
    let bp = zeroclaw_bin_path().unwrap();
    assert!(bp.contains(".zeroclaw/bin/zeroclaw"));
}

#[test]
fn test_resolve_zeroclaw_bin_returns_option() {
    let result = resolve_zeroclaw_bin(None, None);
    if let Some(path) = &result {
        assert!(!path.is_empty());
    }
}

#[test]
fn test_zeroclaw_binary_fallback_path_construction() {
    let zeroclaw_dir = zeroclaw_dir().unwrap();
    let bin_path = format!("{}/bin/zeroclaw", zeroclaw_dir);
    assert!(bin_path.contains(".zeroclaw"));
    assert!(bin_path.ends_with("zeroclaw"));
}

#[test]
fn test_resolve_prefers_installed_binary() {
    let installed = b"/home/u/.zeroclaw/bin/zeroclaw".to_vec();
    let which = b"/usr/bin/zeroclaw\n".to_vec();
    let r = resolve_zeroclaw_bin(Some(installed.clone()), Some(which));
    assert_eq!(r, Some(installed));
}

#[test]
fn test_resolve_falls_back_to_trimmed_lookup() {
    let which = b"  /usr/bin/zeroclaw\n".to_vec();
    let r = resolve_zeroclaw_bin(None, Some(which));
    assert_eq!(r, Some(b"/usr/bin/zeroclaw".to_vec()));
}

#[test]
fn test_resolve_rejects_blank_lookup_output() {
    let which = b" \n".to_vec();
    assert_eq!(resolve_zeroclaw_bin(None, Some(which)), None);
}

#[test]
fn test_path_joins_are_exact() {
    let home = "/home/u".to_string();
    assert_eq!(zeroclaw_dir_of(home.clone()), "/home/u/.zeroclaw");
    assert_eq!(workspace_dir_of(home.clone()), "/home/u/.zeroclaw/workspace");
    assert_eq!(bin_dir_of(home.clone()), "/home/u/.zeroclaw/bin");
    assert_eq!(zeroclaw_bin_path_of(home.clone()), "/home/u/.zeroclaw/bin/zeroclaw");
    assert_eq!(config_file_path_of(home), "/home/u/.zeroclaw/config.toml");
}

#[test]
fn test_lookup_paths_start_with_the_home_directory() {
    let home = dirs::home_dir().unwrap().to_string_lossy().into_owned();
    assert_eq!(zeroclaw_dir().unwrap(), format!("{}/.zeroclaw", home));
    assert_eq!(workspace_dir().unwrap(), format!("{}/.zeroclaw/workspace", home));
    assert_eq!(bin_dir().unwrap(), format!("{}/.zeroclaw/bin", home));
    assert_eq!(zeroclaw_bin_path().unwrap(), format!("{}/.zeroclaw/bin/zeroclaw", home));
    assert_eq!(config_file_path().unwrap(), format!("{}/.zeroclaw/config.toml", home));
}
