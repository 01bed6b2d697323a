use proto_core::DirPath;
use proto_core::LoadedPlugin;
use proto_core::PluginLocator;
use proto_core::ProtoEnvironment;
use proto_core::ProtoError;
use proto_core::checksum_matches_manifest;
use proto_core::complete_tool_loads;
use proto_core::parse_latest_version;
use proto_core::split_lines;
use proto_core::str_eq;
use proto_core::str_starts_with;
use proto_core::strip_patch_zero;
use proto_core::verify_checksum;

fn dir(segments: &[&str]) -> DirPath {
    DirPath { segments: segments.iter().map(|s| s.to_string()).collect() }
}

const MANIFEST: &str = "abcd1234  file.tar.gz\n";

#[test]
fn digest_on_a_manifest_line_verifies() {
    assert!(checksum_matches_manifest("abcd1234", MANIFEST));
}

#[test]
fn digest_absent_from_the_manifest_fails() {
    assert!(!checksum_matches_manifest("deadbeef", MANIFEST));
}

#[test]
fn manifest_match_is_a_prefix_match_on_the_leading_token() {
    // The token is followed by whitespace and a file name on the same line.
    assert!(checksum_matches_manifest("abcd", MANIFEST));
    assert!(!checksum_matches_manifest("bcd1234", MANIFEST));
    assert!(!checksum_matches_manifest("abcd1234", "file.tar.gz  abcd1234\n"));
}

#[test]
fn blank_and_trailing_manifest_lines_are_ignored() {
    let manifest = "\n\nabcd1234  file.tar.gz\n\n";
    assert!(checksum_matches_manifest("abcd1234", manifest));
    assert!(!checksum_matches_manifest("deadbeef", manifest));
}

// SHA-256 of the empty input, a published constant.
const EMPTY_SHA256: &str = "e3b0c44298fc1c149afbf4c8996fb92427ae41e4649b934ca495991b7852b855";

#[test]
fn verify_checksum_accepts_an_artifact_whose_digest_is_listed() {
    let manifest = format!("{}  empty.tar.gz\n", EMPTY_SHA256);
    let r = verify_checksum(
        manifest.as_str(),
        &Vec::new(),
        &"/tmp/manifest.txt".to_string(),
        &"/tmp/empty.tar.gz".to_string(),
    );
    assert!(matches!(r, Ok(true)));
}

#[test]
fn verify_checksum_computes_a_real_digest() {
    // A manifest naming the artifact's own bytes as the digest must fail:
    // the wrapper would only match if it handed its input back unchanged.
    let artifact: Vec<u8> = b"hello".to_vec();
    let manifest = "hello  file.tar.gz\n";
    let r = verify_checksum(
        manifest,
        &artifact,
        &"/tmp/manifest.txt".to_string(),
        &"/tmp/file.tar.gz".to_string(),
    );
    assert!(r.is_err());
}

#[test]
fn verify_checksum_failure_carries_both_paths() {
    let r = verify_checksum(
        "deadbeef  file.tar.gz\n",
        &b"payload".to_vec(),
        &"/tmp/v1-SHASUMS256.txt".to_string(),
        &"/tmp/go.tar.gz".to_string(),
    );
    match r {
        Err(ProtoError::InvalidChecksum { download_path, checksum_path }) => {
            assert_eq!(download_path, "/tmp/go.tar.gz");
            assert_eq!(checksum_path, "/tmp/v1-SHASUMS256.txt");
        },
        _ => panic!("a missing digest must fail with the checksum error"),
    }
}

#[test]
fn tool_checksum_path_names_version_and_temp_dir() {
    let env = ProtoEnvironment::new_testing(&dir(&["tmp", "sandbox"]));
    let plan = vec![(
        "go".to_string(),
        PluginLocator::Registry { name: "go@1.21".to_string() },
    )];
    let loaded = vec![LoadedPlugin {
        version: "1.21.0".to_string(),
        plugin: 1,
        checksum_url: None,
    }];
    let tools = complete_tool_loads(&env, &plan, &loaded);
    assert_eq!(
        tools[0].get_checksum_path(),
        "/tmp/sandbox/.proto/temp/go/v1.21.0-SHASUMS256.txt",
    );
    assert_eq!(tools[0].get_checksum_url(), None, "no manifest: verification is exempt");
}

#[test]
fn strip_patch_zero_drops_only_a_trailing_dot_zero() {
    assert_eq!(strip_patch_zero("1.21.0"), "1.21");
    assert_eq!(strip_patch_zero("1.21"), "1.21");
    assert_eq!(strip_patch_zero("1.20.10"), "1.20.10");
    assert_eq!(strip_patch_zero("0"), "0");
}

#[test]
fn latest_version_is_the_trimmed_response_body() {
    assert_eq!(parse_latest_version("  1.2.3\n"), "1.2.3");
    assert_eq!(parse_latest_version("1.2.3"), "1.2.3");
    assert_eq!(parse_latest_version(" \n "), "");
}

#[test]
fn split_lines_matches_newline_count() {
    assert_eq!(split_lines(""), vec!["".to_string()]);
    assert_eq!(split_lines("a\nb"), vec!["a".to_string(), "b".to_string()]);
    assert_eq!(
        split_lines("a\nb\n"),
        vec!["a".to_string(), "b".to_string(), "".to_string()],
    );
}

#[test]
fn string_helpers_compare_by_content() {
    assert!(str_eq("abc", "abc"));
    assert!(!str_eq("abc", "abd"));
    assert!(str_starts_with("abcdef", "abc"));
    assert!(!str_starts_with("abc", "abcd"));
}

#[test]
fn config_error_message_names_the_path() {
    let e = ProtoError::Config { path: "/home/user/proto.cfg".to_string() };
    assert_eq!(e.message(), "config file /home/user/proto.cfg is malformed");
}

#[test]
fn offline_error_message_names_the_locator() {
    let e = ProtoError::Offline {
        locator: PluginLocator::SourceUrl { url: "https://example.com/go.wasm".to_string() },
    };
    assert_eq!(
        e.message(),
        "offline: required fetch for url:https://example.com/go.wasm has no cached copy",
    );
}

#[test]
fn tool_load_error_message_names_the_id() {
    let e = ProtoError::ToolLoad { id: "go".to_string() };
    assert_eq!(e.message(), "failed to load tool go");
    let f = ProtoError::PluginFetch {
        locator: PluginLocator::Registry { name: "go@1.2".to_string() },
        reason: "server said no".to_string(),
    };
    assert_eq!(f.message(), "failed to fetch registry:go@1.2: server said no");
}
