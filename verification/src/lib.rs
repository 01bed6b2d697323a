//! Runtime core of a multi-language toolchain version manager.
//!
//! Given a working directory, the library decides which configuration files
//! apply (walking from the working directory up to the home boundary, with a
//! mandatory global file last), merges them with first-writer-wins precedence,
//! plans which tool plugins to load, resolves plugin locators against an
//! on-disk cache with offline awareness, and verifies downloaded artifacts
//! against a checksum manifest.
//!
//! All I/O (reading config files, fetching plugins, hashing downloads from
//! disk) is performed by the surrounding application, which hands the results
//! to the verified functions here as plain values.

mod config;
mod error;
mod loader;
mod locator;
mod manager;
mod paths;
mod proto;
mod resource;
mod text;
mod verify;

pub use config::ConfigDocument;
pub use config::DocModel;
pub use config::entries_model;
pub use config::parse_config;
pub use config::parse_config_spec;
pub use error::ErrorModel;
pub use error::ProtoError;
pub use error::locator_text;
pub use loader::LoaderModel;
pub use loader::PluginLoader;
pub use loader::ResolvedModel;
pub use loader::ResolvedPlugin;
pub use loader::cache_file_name;
pub use loader::cache_lookup;
pub use loader::lemma_cached_plugin_never_fetches;
pub use loader::resolve_post;
pub use locator::LocatorModel;
pub use locator::PluginLocator;
pub use locator::locator_eq;
pub use locator::parse_locator;
pub use manager::ConfigModel;
pub use manager::FileModel;
pub use manager::ProtoConfig;
pub use manager::ProtoConfigFile;
pub use manager::ProtoConfigManager;
pub use manager::config_get_plugin;
pub use manager::docs_of;
pub use manager::is_merged_of;
pub use manager::lemma_merge_deterministic;
pub use manager::lemma_merge_nearest_wins;
pub use manager::lookup_entry;
pub use manager::merge_config_files;
pub use paths::DirPath;
pub use paths::config_walk_dirs;
pub use paths::lemma_walk_stays_inside;
pub use paths::lemma_walk_visits_ancestors;
pub use proto::FileRead;
pub use proto::ProtoEnvironment;
pub use proto::ReadModel;
pub use proto::Store;
pub use proto::env_plan_spec;
pub use proto::lemma_config_stack_bounded;
pub use proto::manager_matches;
pub use resource::LoadedPlugin;
pub use resource::ProtoResource;
pub use resource::Tool;
pub use resource::ToolModel;
pub use resource::complete_tool_loads;
pub use resource::filter_contains;
pub use resource::lemma_loaded_tools_respect_filter;
pub use resource::parse_latest_version;
pub use resource::plan_ok;
pub use resource::plan_tool_loads;
pub use resource::schema_plugin_id;
pub use resource::schema_plugin_locator;
pub use resource::strip_patch_zero;
pub use text::split_lines;
pub use text::str_eq;
pub use text::str_starts_with;
pub use verify::SHA256_HEX_LEN;
pub use verify::checksum_matches_manifest;
pub use verify::sha256_hex_of;
pub use verify::verify_checksum;
