use proto_core::ConfigDocument;
use proto_core::DirPath;
use proto_core::FileRead;
use proto_core::PluginLocator;
use proto_core::ProtoConfigFile;
use proto_core::ProtoEnvironment;
use proto_core::config_get_plugin;
use proto_core::config_walk_dirs;
use proto_core::merge_config_files;
use proto_core::parse_config;

fn dir(segments: &[&str]) -> DirPath {
    DirPath { segments: segments.iter().map(|s| s.to_string()).collect() }
}

fn present(text: &str) -> FileRead {
    FileRead { exists: true, text: text.to_string() }
}

fn absent() -> FileRead {
    FileRead { exists: false, text: String::new() }
}

#[test]
fn walk_stops_at_home_when_cwd_is_inside_it() {
    let cwd = dir(&["home", "user", "project"]);
    let home = dir(&["home", "user"]);
    let dirs = config_walk_dirs(&cwd, &home);
    assert_eq!(dirs.len(), 2);
    assert_eq!(dirs[0].segments, vec!["home", "user", "project"]);
    assert_eq!(dirs[1].segments, vec!["home", "user"]);
}

#[test]
fn walk_reaches_root_when_cwd_is_outside_home() {
    let cwd = dir(&["srv", "app"]);
    let home = dir(&["home", "user"]);
    let dirs = config_walk_dirs(&cwd, &home);
    assert_eq!(dirs.len(), 3);
    assert_eq!(dirs[0].segments, vec!["srv", "app"]);
    assert_eq!(dirs[1].segments, vec!["srv"]);
    assert!(dirs[2].segments.is_empty());
}

#[test]
fn parse_config_reads_plugins_and_offline() {
    let text = "# tool config\nplugins.go=path:./go.toml\noffline=true\n\nfuture.key=ignored\n";
    let doc = parse_config(text).expect("well-formed document");
    assert_eq!(doc.plugins.len(), 1);
    assert_eq!(doc.plugins[0].0, "go");
    match &doc.plugins[0].1 {
        PluginLocator::SourcePath { path } => assert_eq!(path, "./go.toml"),
        _ => panic!("expected a path locator"),
    }
    assert_eq!(doc.offline, Some(true));
}

#[test]
fn parse_config_first_offline_line_wins() {
    let doc = parse_config("offline=true\noffline=false\n").expect("well-formed document");
    assert_eq!(doc.offline, Some(true));
}

#[test]
fn parse_config_rejects_line_without_equals() {
    assert_eq!(parse_config("garbage").err(), Some(0));
}

#[test]
fn parse_config_rejects_unknown_locator_kind() {
    assert!(parse_config("plugins.go=carrier-pigeon:x").is_err());
}

#[test]
fn parse_config_rejects_empty_id() {
    assert!(parse_config("plugins.=path:x").is_err());
}

#[test]
fn parse_config_reads_http_timeout() {
    let doc = parse_config("http-timeout=45
http-timeout=60
").expect("well-formed document");
    assert_eq!(doc.http_timeout, Some(45));
}

#[test]
fn parse_config_rejects_bad_http_timeout_values() {
    assert!(parse_config("http-timeout=soon").is_err());
    assert!(parse_config("http-timeout=").is_err());
    assert!(parse_config("http-timeout=99999999999999999999").is_err());
    let max = parse_config("http-timeout=18446744073709551615").expect("fits exactly");
    assert_eq!(max.http_timeout, Some(u64::MAX));
}

#[test]
fn nearest_http_timeout_wins_and_defaults_to_thirty() {
    let near = file("/a/proto.cfg", false, "http-timeout=45
");
    let far = file("/proto.cfg", true, "http-timeout=90
");
    let merged = merge_config_files(&vec![near, far]);
    assert_eq!(merged.http_timeout_secs, 45);
    let none = merge_config_files(&vec![file("/proto.cfg", true, "offline=false
")]);
    assert_eq!(none.http_timeout_secs, 30);
}

#[test]
fn parse_config_rejects_bad_offline_value() {
    assert!(parse_config("offline=maybe").is_err());
}

fn file(path: &str, global: bool, text: &str) -> ProtoConfigFile {
    ProtoConfigFile {
        path: path.to_string(),
        exists: true,
        global,
        config: parse_config(text).expect("well-formed document"),
    }
}

#[test]
fn project_local_path_wins_over_global_registry() {
    let files = vec![
        file("/home/user/project/proto.cfg", false, "plugins.go=path:./go.toml\n"),
        file("/home/user/.proto/proto.cfg", true, "plugins.go=registry:go@1.2\nplugins.node=url:https://example.com/node.wasm\n"),
    ];
    let merged = merge_config_files(&files);
    assert_eq!(merged.plugins.len(), 2);
    match config_get_plugin(&merged, "go") {
        Some(PluginLocator::SourcePath { path }) => assert_eq!(path, "./go.toml"),
        _ => panic!("go must resolve to the project-local path locator"),
    }
    match config_get_plugin(&merged, "node") {
        Some(PluginLocator::SourceUrl { url }) => {
            assert_eq!(url, "https://example.com/node.wasm")
        },
        _ => panic!("node must come from the global file"),
    }
}

#[test]
fn nearest_offline_setting_wins_and_defaults_to_false() {
    let near = file("/a/proto.cfg", false, "offline=false\n");
    let far = file("/proto.cfg", true, "offline=true\n");
    let merged = merge_config_files(&vec![near, far]);
    assert!(!merged.offline);
    let none = merge_config_files(&vec![file("/proto.cfg", true, "plugins.go=path:x\n")]);
    assert!(!none.offline);
}

#[test]
fn merged_config_is_cached_and_stable() {
    let mut env = ProtoEnvironment::new_testing(&dir(&["tmp", "sandbox"]));
    let plan = env.config_file_plan();
    let mut reads: Vec<FileRead> = Vec::new();
    reads.push(present("plugins.go=path:./go.toml\n"));
    for _ in 1..plan.len() {
        reads.push(absent());
    }
    reads.push(present("plugins.go=registry:go@1.2\n"));
    env.load_config_manager(&reads).expect("stack loads");
    let first = env.load_config();
    let second = env.load_config();
    match (config_get_plugin(&first, "go"), config_get_plugin(&second, "go")) {
        (
            Some(PluginLocator::SourcePath { path: a }),
            Some(PluginLocator::SourcePath { path: b }),
        ) => {
            assert_eq!(a, "./go.toml");
            assert_eq!(a, b);
        },
        _ => panic!("both observations must see the project-local locator"),
    }
}

#[test]
fn exactly_one_global_file_and_it_is_last() {
    let mut env = ProtoEnvironment::new_testing(&dir(&["tmp", "sandbox"]));
    let plan = env.config_file_plan();
    let mut reads: Vec<FileRead> = Vec::new();
    for _ in 0..plan.len() {
        reads.push(absent());
    }
    reads.push(absent());
    env.load_config_manager(&reads).expect("stack loads");
    let manager = env.config_manager.as_ref().expect("initialized");
    let globals: Vec<usize> = manager
        .files
        .iter()
        .enumerate()
        .filter(|(_, f)| f.global)
        .map(|(i, _)| i)
        .collect();
    assert_eq!(globals, vec![manager.files.len() - 1]);
}

#[test]
fn load_config_manager_is_idempotent() {
    let mut env = ProtoEnvironment::new_testing(&dir(&["tmp", "sandbox"]));
    let plan = env.config_file_plan();
    let mut reads: Vec<FileRead> = Vec::new();
    reads.push(present("plugins.go=path:./go.toml\n"));
    for _ in 1..plan.len() {
        reads.push(absent());
    }
    reads.push(absent());
    env.load_config_manager(&reads).expect("stack loads");
    let n = env.config_manager.as_ref().expect("initialized").files.len();
    let mut other: Vec<FileRead> = Vec::new();
    for _ in 0..plan.len() {
        other.push(present("plugins.zig=path:./zig.toml\n"));
    }
    other.push(absent());
    env.load_config_manager(&other).expect("second call is a no-op");
    assert_eq!(env.config_manager.as_ref().expect("still initialized").files.len(), n);
    let merged = env.load_config();
    assert!(config_get_plugin(&merged, "zig").is_none());
}

#[test]
fn parse_failure_names_the_offending_path() {
    let mut env = ProtoEnvironment::new_testing(&dir(&["tmp", "sandbox"]));
    let plan = env.config_file_plan();
    let mut reads: Vec<FileRead> = Vec::new();
    reads.push(present("not a config"));
    for _ in 1..plan.len() {
        reads.push(absent());
    }
    reads.push(absent());
    let err = env.load_config_manager(&reads).expect_err("malformed file is fatal");
    let message = err.message();
    assert!(message.contains(plan[0].as_str()));
    assert!(message.contains("malformed"));
    assert!(env.config_manager.is_none());
}

#[test]
fn mode_variant_files_follow_each_directory_base_file() {
    let env = ProtoEnvironment::from(
        dir(&["home", "user", ".proto"]),
        dir(&["home", "user"]),
        dir(&["home", "user"]),
        Some("dev".to_string()),
    );
    let plan = env.config_file_plan();
    assert_eq!(
        plan,
        vec![
            "/home/user/proto.cfg".to_string(),
            "/home/user/proto.dev.cfg".to_string(),
        ]
    );
}

#[test]
fn walk_from_home_itself_visits_only_home() {
    let home = dir(&["home", "user"]);
    let dirs = config_walk_dirs(&home, &home);
    assert_eq!(dirs.len(), 1);
    assert_eq!(dirs[0].segments, vec!["home", "user"]);
}

#[test]
fn base_file_beats_mode_variant_in_the_same_directory() {
    let mut env = ProtoEnvironment::from(
        dir(&["home", "user", ".proto"]),
        dir(&["home", "user"]),
        dir(&["home", "user"]),
        Some("dev".to_string()),
    );
    // Plan: base file first, then the mode variant, then the global file.
    let reads = vec![
        present("plugins.go=path:./base.toml
"),
        present("plugins.go=path:./dev.toml
plugins.node=url:https://example.com/node.wasm
"),
        absent(),
    ];
    env.load_config_manager(&reads).expect("stack loads");
    let merged = env.load_config();
    match config_get_plugin(&merged, "go") {
        Some(PluginLocator::SourcePath { path }) => assert_eq!(path, "./base.toml"),
        _ => panic!("the base file takes precedence over the mode variant"),
    }
    match config_get_plugin(&merged, "node") {
        Some(PluginLocator::SourceUrl { .. }) => {},
        _ => panic!("the mode variant still contributes keys the base file lacks"),
    }
}

#[test]
fn paths_render_with_a_slash_before_each_segment() {
    assert_eq!(dir(&[]).render(), "/");
    assert_eq!(dir(&["home", "user"]).render(), "/home/user");
    assert_eq!(dir(&["home", "user"]).join_file("proto.cfg"), "/home/user/proto.cfg");
}

#[test]
fn config_document_empty_has_no_entries() {
    let doc = ConfigDocument::empty();
    assert!(doc.plugins.is_empty());
    assert_eq!(doc.offline, None);
}
