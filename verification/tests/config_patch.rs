use easyclaw::config::{patch_gateway_config, patch_gateway_content};

fn patch_string(content: &str) -> String {
    let out = patch_gateway_content(&content.as_bytes().to_vec());
    String::from_utf8(out).unwrap()
}

#[test]
fn test_patch_gateway_config_updates_defaults() {
    let content = "[gateway]\nport = 3000\nhost = \"127.0.0.1\"\nrequire_pairing = true\n";
    let patched = patch_gateway_config(Some(content.as_bytes().to_vec())).unwrap();
    let patched = String::from_utf8(patched).unwrap();
    assert!(patched.contains("port = 18789"));
    assert!(!patched.contains("port = 3000"));
    assert!(patched.contains("require_pairing = false"));
    assert!(!patched.contains("require_pairing = true"));
}

#[test]
fn test_patch_gateway_config_preserves_correct_values() {
    let original = "[gateway]\nport = 18789\nhost = \"127.0.0.1\"\nrequire_pairing = false\n";
    let result = patch_gateway_config(Some(original.as_bytes().to_vec()));
    assert!(result.is_none());
    let content = patch_string(original);
    assert!(content.contains("port = 18789"));
    assert!(content.contains("require_pairing = false"));
}

#[test]
fn test_patch_gateway_config_noop_on_missing_file() {
    let result = patch_gateway_config(None);
    assert!(result.is_none());
}

#[test]
fn test_patch_exact_output() {
    let content = "[gateway]\nport = 3000\nhost = \"127.0.0.1\"\nrequire_pairing = true\n";
    assert_eq!(
        patch_string(content),
        "[gateway]\nport = 18789\nhost = \"127.0.0.1\"\nrequire_pairing = false\n"
    );
}

#[test]
fn test_patch_touches_only_the_gateway_section() {
    let content = "[memory]\nport = 3000\n\n[gateway]\n# a comment\nport = 3000\nrequire_pairing = true\n\n[other]\nport = 3000\nrequire_pairing = true\n";
    assert_eq!(
        patch_string(content),
        "[memory]\nport = 3000\n\n[gateway]\n# a comment\nport = 18789\nrequire_pairing = false\n\n[other]\nport = 3000\nrequire_pairing = true\n"
    );
}

#[test]
fn test_patch_is_idempotent_on_bytes() {
    let content = "[gateway]\nport = 3000\nhost = \"127.0.0.1\"\nrequire_pairing = true\n";
    let once = patch_string(content);
    let twice = patch_string(&once);
    assert_eq!(once, twice);
    assert!(patch_gateway_config(Some(once.as_bytes().to_vec())).is_none());
}

#[test]
fn test_patch_adds_trailing_newline_when_it_rewrites() {
    let content = "[gateway]\nrequire_pairing = true";
    assert_eq!(patch_string(content), "[gateway]\nrequire_pairing = false\n");
}

#[test]
fn test_patch_keeps_unrelated_content_byte_for_byte() {
    let content = "[memory]\nauto_save = true\nport = 3000\n";
    assert_eq!(patch_string(content), content);
    assert!(patch_gateway_config(Some(content.as_bytes().to_vec())).is_none());
}

#[test]
fn test_patch_keeps_port_line_with_expected_port() {
    let content = "[gateway]\nport = 18789\nrequire_pairing = true\n";
    assert_eq!(
        patch_string(content),
        "[gateway]\nport = 18789\nrequire_pairing = false\n"
    );
}

#[test]
fn test_patch_stops_at_next_section() {
    let content = "[gateway]\nport = 3000\n[memory]\nport = 3000\n";
    assert_eq!(patch_string(content), "[gateway]\nport = 18789\n[memory]\nport = 3000\n");
}

#[test]
fn test_patch_rewrites_indented_lines_in_place() {
    let content = "[gateway]\n  port = 3000\n";
    assert_eq!(patch_string(content), "[gateway]\nport = 18789\n");
}

#[test]
fn test_patch_empty_content_is_unchanged() {
    assert_eq!(patch_string(""), "");
}

#[test]
fn test_patch_compares_the_port_value_not_a_substring() {
    // A port whose digits merely contain the expected ones is still wrong
    // and gets rewritten.
    let content = "[gateway]\nport = 118789\n";
    assert_eq!(patch_string(content), "[gateway]\nport = 18789\n");
}

#[test]
fn test_patch_compares_the_pairing_value_not_a_substring() {
    // Only a pairing value of exactly `true` is rewritten; `true` somewhere
    // else in the line is not enough.
    let content = "[gateway]\nrequire_pairing = false # was true\n";
    assert_eq!(patch_string(content), content);
}
