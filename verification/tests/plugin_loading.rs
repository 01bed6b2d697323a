use proto_core::DirPath;
use proto_core::FileRead;
use proto_core::LoadedPlugin;
use proto_core::PluginLoader;
use proto_core::PluginLocator;
use proto_core::ProtoEnvironment;
use proto_core::ProtoError;
use proto_core::ProtoResource;
use proto_core::ResolvedPlugin;
use proto_core::complete_tool_loads;
use proto_core::locator_eq;
use proto_core::parse_config;
use proto_core::parse_locator;
use proto_core::plan_tool_loads;
use proto_core::schema_plugin_id;
use proto_core::schema_plugin_locator;

fn dir(segments: &[&str]) -> DirPath {
    DirPath { segments: segments.iter().map(|s| s.to_string()).collect() }
}

fn url(u: &str) -> PluginLocator {
    PluginLocator::SourceUrl { url: u.to_string() }
}

#[test]
fn parse_locator_reads_all_three_kinds() {
    match parse_locator("path:./go.toml") {
        Some(PluginLocator::SourcePath { path }) => assert_eq!(path, "./go.toml"),
        _ => panic!("expected a path locator"),
    }
    match parse_locator("url:https://example.com/go.wasm") {
        Some(PluginLocator::SourceUrl { url }) => assert_eq!(url, "https://example.com/go.wasm"),
        _ => panic!("expected a url locator"),
    }
    match parse_locator("registry:go@1.2") {
        Some(PluginLocator::Registry { name }) => assert_eq!(name, "go@1.2"),
        _ => panic!("expected a registry locator"),
    }
    assert!(parse_locator("carrier-pigeon:x").is_none());
}

#[test]
fn locator_equality_needs_matching_kind_and_payload() {
    assert!(locator_eq(&url("https://a"), &url("https://a")));
    assert!(!locator_eq(&url("https://a"), &url("https://b")));
    assert!(!locator_eq(
        &url("x"),
        &PluginLocator::Registry { name: "x".to_string() },
    ));
}

#[test]
fn path_locator_loads_directly() {
    let loader = PluginLoader::new(dir(&["cache"]), dir(&["tmp"]));
    match loader.load_plugin(&PluginLocator::SourcePath { path: "./go.toml".to_string() }) {
        Ok(ResolvedPlugin::Local { path }) => assert_eq!(path, "./go.toml"),
        _ => panic!("a path locator must load directly"),
    }
}

#[test]
fn online_uncached_url_locator_asks_for_a_fetch() {
    let loader = PluginLoader::new(dir(&["cache"]), dir(&["tmp"]));
    match loader.load_plugin(&url("https://example.com/go.wasm")) {
        Ok(ResolvedPlugin::Fetch { source, dest }) => {
            assert!(locator_eq(&source, &url("https://example.com/go.wasm")));
            assert_eq!(dest, "/cache/url-https___example.com_go.wasm");
        },
        _ => panic!("an online loader must ask for a fetch"),
    }
}

#[test]
fn offline_uncached_url_locator_fails_with_offline_error() {
    let mut loader = PluginLoader::new(dir(&["cache"]), dir(&["tmp"]));
    loader.set_offline_checker(true);
    match loader.load_plugin(&url("https://example.com/go.wasm")) {
        Err(ProtoError::Offline { locator }) => {
            assert!(locator_eq(&locator, &url("https://example.com/go.wasm")));
        },
        Err(_) => panic!("the failure must be the distinguishable offline error"),
        Ok(_) => panic!("an offline loader with an empty cache cannot resolve a url"),
    }
}

#[test]
fn offline_cached_url_locator_is_served_from_the_cache() {
    let mut loader = PluginLoader::new(dir(&["cache"]), dir(&["tmp"]));
    loader.set_offline_checker(true);
    loader.register_fetched(
        &url("https://example.com/go.wasm"),
        &"/cache/url-https___example.com_go.wasm".to_string(),
    );
    match loader.load_plugin(&url("https://example.com/go.wasm")) {
        Ok(ResolvedPlugin::Cached { path }) => {
            assert_eq!(path, "/cache/url-https___example.com_go.wasm")
        },
        _ => panic!("a cached artifact must be reused even offline"),
    }
}

#[test]
fn schema_plugin_cache_written_once_for_two_schema_tools() {
    let config = proto_core::merge_config_files(&vec![proto_core::ProtoConfigFile {
        path: "/project/proto.cfg".to_string(),
        exists: true,
        global: false,
        config: parse_config(
            "plugins.go=registry:go@1.2\nplugins.zig=registry:zig@0.11\n",
        )
        .expect("well-formed document"),
    }]);
    let mut loader = PluginLoader::new(dir(&["cache"]), dir(&["tmp"]));
    let schema = schema_plugin_locator(&config);
    let mut cache_writes = 0;
    // The orchestrator's pre-fetch, before any parallel tool load starts.
    if let Ok(ResolvedPlugin::Fetch { dest, .. }) = loader.load_plugin(&schema) {
        cache_writes += 1;
        loader.register_fetched(&schema, &dest);
    }
    // Both schema-driven tool loads consult the schema plugin afterwards.
    let plan = plan_tool_loads(&config, &Vec::new());
    assert_eq!(plan.len(), 2);
    for _ in &plan {
        match loader.load_plugin(&schema) {
            Ok(ResolvedPlugin::Cached { .. }) => {},
            Ok(ResolvedPlugin::Fetch { dest, .. }) => {
                cache_writes += 1;
                loader.register_fetched(&schema, &dest);
            },
            _ => panic!("the schema plugin must resolve"),
        }
    }
    assert_eq!(cache_writes, 1);
}

#[test]
fn non_empty_filter_admits_only_its_own_ids_and_never_schema() {
    let mut text = String::new();
    text.push_str("plugins.go=registry:go@1.2\n");
    text.push_str("plugins.node=registry:node@20\n");
    text.push_str(&format!("plugins.{}=registry:schema@1\n", schema_plugin_id()));
    let config = proto_core::merge_config_files(&vec![proto_core::ProtoConfigFile {
        path: "/project/proto.cfg".to_string(),
        exists: true,
        global: false,
        config: parse_config(text.as_str()).expect("well-formed document"),
    }]);
    let filtered = plan_tool_loads(&config, &vec!["go".to_string()]);
    assert_eq!(filtered.len(), 1);
    assert_eq!(filtered[0].0, "go");
    let all = plan_tool_loads(&config, &Vec::new());
    assert_eq!(all.len(), 2);
    assert!(all.iter().all(|(id, _)| id != &schema_plugin_id()));
}

#[test]
fn filter_naming_an_unconfigured_id_is_not_an_error() {
    let config = proto_core::merge_config_files(&vec![proto_core::ProtoConfigFile {
        path: "/project/proto.cfg".to_string(),
        exists: true,
        global: false,
        config: parse_config("plugins.go=registry:go@1.2\n").expect("well-formed document"),
    }]);
    let plan = plan_tool_loads(&config, &vec!["rust".to_string()]);
    assert!(plan.is_empty());
}

#[test]
fn completed_tools_carry_plan_ids_and_store_paths() {
    let env = ProtoEnvironment::new_testing(&dir(&["tmp", "sandbox"]));
    let plan = vec![("go".to_string(), url("https://example.com/go.wasm"))];
    let loaded = vec![LoadedPlugin {
        version: "1.21.0".to_string(),
        plugin: 7,
        checksum_url: Some("https://example.com/go.sha256".to_string()),
    }];
    let tools = complete_tool_loads(&env, &plan, &loaded);
    assert_eq!(tools.len(), 1);
    assert_eq!(tools[0].id, "go");
    assert_eq!(tools[0].version, "1.21.0");
    assert_eq!(tools[0].plugin, 7);
    assert_eq!(
        tools[0].temp_dir.segments,
        vec!["tmp", "sandbox", ".proto", "temp", "go"],
    );
    assert_eq!(
        tools[0].install_dir.segments,
        vec!["tmp", "sandbox", ".proto", "tools", "go", "1.21.0"],
    );
    assert_eq!(
        tools[0].get_checksum_url(),
        Some("https://example.com/go.sha256".to_string()),
    );
}

#[test]
fn environment_loader_is_built_once() {
    let mut env = ProtoEnvironment::new_testing(&dir(&["tmp", "sandbox"]));
    let plan = env.config_file_plan();
    let mut reads: Vec<FileRead> = Vec::new();
    reads.push(FileRead { exists: true, text: "offline=true\nhttp-timeout=45\n".to_string() });
    for _ in 1..plan.len() {
        reads.push(FileRead { exists: false, text: String::new() });
    }
    reads.push(FileRead { exists: false, text: String::new() });
    env.load_config_manager(&reads).expect("stack loads");
    let loader = env.get_plugin_loader(false);
    assert!(loader.offline, "the merged offline setting reaches the loader");
    assert_eq!(loader.http_timeout_secs, 45, "the merged timeout reaches the loader");
    assert_eq!(
        loader.plugins_dir.segments,
        vec!["tmp", "sandbox", ".proto", "plugins"],
    );
    env.register_fetched_plugin(&url("https://a"), &"/cache/a".to_string());
    let again = env.get_plugin_loader(false);
    assert_eq!(again.cache.len(), 1, "later calls observe the same loader");
}

#[test]
fn virtual_paths_map_cwd_root_and_home() {
    let env = ProtoEnvironment::new_testing(&dir(&["tmp", "sandbox"]));
    let paths = env.get_virtual_paths();
    assert_eq!(paths.len(), 3);
    assert_eq!(paths[0].1, "/cwd");
    assert_eq!(paths[1].1, "/proto");
    assert_eq!(paths[2].1, "/userhome");
    assert_eq!(paths[1].0.segments, vec!["tmp", "sandbox", ".proto"]);
}

#[test]
fn resource_wraps_the_environment() {
    let env = ProtoEnvironment::new_testing(&dir(&["tmp", "sandbox"]));
    let resource = ProtoResource::new(env);
    assert_eq!(resource.env.cwd.segments, vec!["tmp", "sandbox"]);
    assert!(resource.env.test_mode);
}
