//! Tool loading: which configured tools to load, and the `Tool` values the
//! loads produce.
//!
//! The schema plugin is shared infrastructure: the application must fetch
//! it (once) before it spawns the parallel per-tool loads, and the plan
//! never names it as a tool of its own.

use vstd::prelude::*;

use crate::locator::LocatorModel;
use crate::locator::PluginLocator;
use crate::manager::ConfigModel;
use crate::manager::ProtoConfig;
use crate::manager::config_get_plugin;
use crate::manager::lookup_entry;
use crate::config::entries_model;
use crate::paths::DirPath;
use crate::paths::joined_file_spec;
use crate::proto::ProtoEnvironment;
use crate::text::str_eq;

verus! {

/// The well-known id of the shared schema plugin.
pub open spec fn schema_id_spec() -> Seq<char> {
    "internal-schema"@
}

/// The well-known id of the shared schema plugin, as a string.
pub fn schema_plugin_id() -> (r: String)
    ensures
        r@ == schema_id_spec(),
{
    String::from_str("internal-schema")
}

/// The locator the schema plugin is fetched from: the configured one when
/// the configuration names the schema id, else its registry entry.
pub fn schema_plugin_locator(config: &ProtoConfig) -> (r: PluginLocator)
    ensures
        lookup_entry(config@.plugins, schema_id_spec()) matches Some(l) ==> r@ == l,
        lookup_entry(config@.plugins, schema_id_spec()) is None ==> r@ == LocatorModel::Registry(
            schema_id_spec(),
        ),
{
    match config_get_plugin(config, "internal-schema") {
        Some(l) => l,
        None => PluginLocator::Registry { name: String::from_str("internal-schema") },
    }
}

/// Ids appear at most once.
pub open spec fn unique_ids(entries: Seq<(Seq<char>, LocatorModel)>) -> bool {
    forall|i: int, j: int|
        0 <= i < j < entries.len() ==> (#[trigger] entries[i]).0 != (#[trigger] entries[j]).0
}

/// With unique ids, every entry is what looking its id up finds.
pub proof fn lemma_lookup_unique(entries: Seq<(Seq<char>, LocatorModel)>, k: int)
    requires
        unique_ids(entries),
        0 <= k < entries.len(),
    ensures
        lookup_entry(entries, entries[k].0) == Some(entries[k].1),
    decreases k,
{
    if k > 0 {
        assert(entries[0].0 != entries[k].0);
        assert forall|i: int, j: int|
            0 <= i < j < entries.drop_first().len() implies (#[trigger] entries.drop_first()[i]).0
            != (#[trigger] entries.drop_first()[j]).0 by {
            assert(entries.drop_first()[i] == entries[i + 1]);
            assert(entries.drop_first()[j] == entries[j + 1]);
        }
        lemma_lookup_unique(entries.drop_first(), k - 1);
    }
}

/// What a load plan must be, given the merged configuration and the
/// filter: every planned pair is a configured pair; the schema plugin is
/// never planned; a non-empty filter admits only its own ids; no id is
/// planned twice; and every configured id that passes the filter and is
/// not the schema id is planned.
pub open spec fn plan_ok(
    plan: Seq<(Seq<char>, LocatorModel)>,
    cfg: ConfigModel,
    filter: Seq<Seq<char>>,
) -> bool {
    &&& forall|i: int|
        0 <= i < plan.len() ==> lookup_entry(cfg.plugins, (#[trigger] plan[i]).0) == Some(
            plan[i].1,
        )
    &&& forall|i: int| 0 <= i < plan.len() ==> (#[trigger] plan[i]).0 != schema_id_spec()
    &&& filter.len() > 0 ==> forall|i: int|
        0 <= i < plan.len() ==> filter.contains((#[trigger] plan[i]).0)
    &&& unique_ids(plan)
    &&& forall|k: int|
        0 <= k < cfg.plugins.len() && (#[trigger] cfg.plugins[k]).0 != schema_id_spec() && (
        filter.len() == 0 || filter.contains(cfg.plugins[k].0)) ==> exists|i: int|
            0 <= i < plan.len() && (#[trigger] plan[i]).0 == cfg.plugins[k].0
}

/// Whether the filter names the id.
pub fn filter_contains(filter: &Vec<String>, id: &str) -> (r: bool)
    ensures
        r == filter.deep_view().contains(id@),
{
    let mut i: usize = 0;
    while i < filter.len()
        invariant
            i <= filter.len(),
            forall|k: int| 0 <= k < i ==> filter.deep_view()[k] != id@,
        decreases filter.len() - i,
    {
        if str_eq(filter[i].as_str(), id) {
            assert(filter.deep_view()[i as int] == id@);
            return true;
        }
        i = i + 1;
    }
    assert(!filter.deep_view().contains(id@));
    false
}

/// The `(id, locator)` pairs to load as tools: the configured pairs, in
/// configuration order, without the schema plugin, restricted to the
/// filter when it is non-empty. An id configured but outside the filter
/// is silently skipped; that is not an error.
#[verifier::rlimit(100)]
pub fn plan_tool_loads(config: &ProtoConfig, filter: &Vec<String>) -> (plan: Vec<
    (String, PluginLocator),
>)
    requires
        unique_ids(config@.plugins),
    ensures
        plan_ok(entries_model(plan@), config@, filter.deep_view()),
{
    let ghost cm = config@.plugins;
    let ghost fv = filter.deep_view();
    let mut plan: Vec<(String, PluginLocator)> = Vec::new();
    let ghost mut src: Seq<int> = Seq::empty();
    let mut k: usize = 0;
    proof {
        assert(entries_model(plan@) =~= Seq::<(Seq<char>, LocatorModel)>::empty());
    }
    while k < config.plugins.len()
        invariant
            k <= config.plugins.len(),
            cm == config@.plugins,
            cm.len() == config.plugins@.len(),
            fv == filter.deep_view(),
            unique_ids(cm),
            src.len() == entries_model(plan@).len(),
            forall|i: int|
                0 <= i < src.len() ==> 0 <= #[trigger] src[i] < k && entries_model(plan@)[i].0
                    == cm[src[i]].0 && entries_model(plan@)[i].1 == cm[src[i]].1,
            forall|i: int, j: int| 0 <= i < j < src.len() ==> #[trigger] src[i] < #[trigger] src[j],
            forall|i: int|
                0 <= i < entries_model(plan@).len() ==> (#[trigger] entries_model(plan@)[i]).0
                    != schema_id_spec(),
            fv.len() > 0 ==> forall|i: int|
                0 <= i < entries_model(plan@).len() ==> fv.contains(
                    (#[trigger] entries_model(plan@)[i]).0,
                ),
            forall|t: int|
                0 <= t < k && (#[trigger] cm[t]).0 != schema_id_spec() && (fv.len() == 0
                    || fv.contains(cm[t].0)) ==> exists|i: int|
                    0 <= i < entries_model(plan@).len() && (#[trigger] entries_model(plan@)[i]).0
                        == cm[t].0,
        decreases config.plugins.len() - k,
    {
        let ghost pre = entries_model(plan@);
        let e = &config.plugins[k];
        let in_filter = filter.len() == 0 || filter_contains(filter, e.0.as_str());
        let is_schema = str_eq(e.0.as_str(), "internal-schema");
        if in_filter && !is_schema {
            let pair = (e.0.clone(), e.1.clone());
            proof {
                assert(pair.0@ == cm[k as int].0);
                assert(pair.1@ == cm[k as int].1);
            }
            plan.push(pair);
            proof {
                src = src.push(k as int);
                let cur = entries_model(plan@);
                assert(cur =~~= pre.push((cm[k as int].0, cm[k as int].1)));
                assert(cur[cur.len() - 1].0 == cm[k as int].0);
                assert(cur[cur.len() - 1].1 == cm[k as int].1);
                assert forall|t: int|
                    0 <= t < k + 1 && (#[trigger] cm[t]).0 != schema_id_spec() && (fv.len() == 0
                        || fv.contains(cm[t].0)) implies exists|i: int|
                    0 <= i < cur.len() && (#[trigger] cur[i]).0 == cm[t].0 by {
                    if t < k {
                        let i0 = choose|i: int|
                            0 <= i < pre.len() && (#[trigger] pre[i]).0 == cm[t].0;
                        assert(cur[i0].0 == cm[t].0);
                    } else {
                        assert(cur[cur.len() - 1].0 == cm[t].0);
                    }
                }
            }
        } else {
            proof {
                assert forall|t: int|
                    0 <= t < k + 1 && (#[trigger] cm[t]).0 != schema_id_spec() && (fv.len() == 0
                        || fv.contains(cm[t].0)) implies exists|i: int|
                    0 <= i < pre.len() && (#[trigger] pre[i]).0 == cm[t].0 by {
                    if t == k {
                        assert(in_filter && !is_schema);
                        assert(false);
                    } else {
                        let i0 = choose|i: int|
                            0 <= i < pre.len() && (#[trigger] pre[i]).0 == cm[t].0;
                    }
                }
            }
        }
        k = k + 1;
    }
    proof {
        let pm = entries_model(plan@);
        assert forall|i: int, j: int| 0 <= i < j < pm.len() implies (#[trigger] pm[i]).0 != (
        #[trigger] pm[j]).0 by {
            assert(src[i] < src[j]);
            assert(cm[src[i]].0 != cm[src[j]].0);
        }
        assert forall|i: int| 0 <= i < pm.len() implies lookup_entry(cm, (#[trigger] pm[i]).0)
            == Some(pm[i].1) by {
            lemma_lookup_unique(cm, src[i]);
        }
    }
    plan
}

/// What the sandbox handed back for one planned plugin: the resolved
/// version, the opaque plugin handle, and the checksum manifest URL when
/// the tool publishes one.
pub struct LoadedPlugin {
    /// The resolved tool version.
    pub version: String,
    /// The sandbox's opaque handle for the instantiated plugin.
    pub plugin: u64,
    /// Where the tool's checksum manifest lives, if it has one.
    pub checksum_url: Option<String>,
}

/// Mathematical image of a [`LoadedPlugin`].
pub struct LoadedModel {
    pub version: Seq<char>,
    pub plugin: u64,
    pub checksum_url: Option<Seq<char>>,
}

impl View for LoadedPlugin {
    type V = LoadedModel;

    open spec fn view(&self) -> LoadedModel {
        LoadedModel {
            version: self.version@,
            plugin: self.plugin,
            checksum_url: self.checksum_url.deep_view(),
        }
    }
}

impl DeepView for LoadedPlugin {
    type V = LoadedModel;

    open spec fn deep_view(&self) -> LoadedModel {
        self.view()
    }
}

/// One loaded tool: id, resolved version, plugin handle and its paths in
/// the store.
pub struct Tool {
    /// The tool's id.
    pub id: String,
    /// The resolved version.
    pub version: String,
    /// Where the tool's plugin came from.
    pub locator: PluginLocator,
    /// The sandbox's opaque plugin handle.
    pub plugin: u64,
    /// Scratch directory for this tool's downloads.
    pub temp_dir: DirPath,
    /// Where this tool and version install.
    pub install_dir: DirPath,
    /// Where the tool's checksum manifest lives, if it has one. A tool
    /// without one is installed unverified, along the explicit exempt
    /// path.
    pub checksum_url: Option<String>,
}

/// Mathematical image of a [`Tool`].
pub struct ToolModel {
    pub id: Seq<char>,
    pub version: Seq<char>,
    pub locator: LocatorModel,
    pub plugin: u64,
    pub temp_dir: Seq<Seq<char>>,
    pub install_dir: Seq<Seq<char>>,
    pub checksum_url: Option<Seq<char>>,
}

impl View for Tool {
    type V = ToolModel;

    open spec fn view(&self) -> ToolModel {
        ToolModel {
            id: self.id@,
            version: self.version@,
            locator: self.locator@,
            plugin: self.plugin,
            temp_dir: self.temp_dir@,
            install_dir: self.install_dir@,
            checksum_url: self.checksum_url.deep_view(),
        }
    }
}

impl DeepView for Tool {
    type V = ToolModel;

    open spec fn deep_view(&self) -> ToolModel {
        self.view()
    }
}

impl Tool {
    /// A tool bound to a loaded plugin, with its store paths.
    pub fn new(
        id: String,
        version: String,
        locator: PluginLocator,
        plugin: u64,
        checksum_url: Option<String>,
        env: &ProtoEnvironment,
    ) -> (r: Tool)
        ensures
            r@.id == id@,
            r@.version == version@,
            r@.locator == locator@,
            r@.plugin == plugin,
            r@.temp_dir == env.store.temp_dir@.push(id@),
            r@.install_dir == env.store.inventory_dir@.push(id@).push(version@),
            r@.checksum_url == checksum_url.deep_view(),
    {
        let temp_dir = env.store.temp_dir.child(id.as_str());
        let install_dir = env.store.inventory_dir.child(id.as_str()).child(version.as_str());
        Tool { id, version, locator, plugin, temp_dir, install_dir, checksum_url }
    }

    /// Where the tool's checksum manifest lives; `None` for a tool that
    /// publishes none — such a tool is exempt from verification.
    pub fn get_checksum_url(&self) -> (r: Option<String>)
        ensures
            r.deep_view() == self@.checksum_url,
    {
        match &self.checksum_url {
            Some(u) => Some(u.clone()),
            None => None,
        }
    }

    /// The local path the checksum manifest is downloaded to.
    pub fn get_checksum_path(&self) -> (r: String)
        ensures
            r@ == joined_file_spec(self@.temp_dir, checksum_file_name_spec(self@.version)),
    {
        let mut name = String::from_str("v");
        name.append(self.version.as_str());
        name.append("-SHASUMS256.txt");
        self.temp_dir.join_file(name.as_str())
    }
}

/// The manifest file name for a version.
pub open spec fn checksum_file_name_spec(version: Seq<char>) -> Seq<char> {
    "v"@ + version + "-SHASUMS256.txt"@
}

/// Builds the `Tool` values for a plan whose plugins the sandbox loaded,
/// pairwise: the id and locator come from the plan, version, handle and
/// checksum URL from the load.
pub fn complete_tool_loads(
    env: &ProtoEnvironment,
    plan: &Vec<(String, PluginLocator)>,
    loaded: &Vec<LoadedPlugin>,
) -> (tools: Vec<Tool>)
    requires
        loaded@.len() == plan@.len(),
    ensures
        tools@.len() == plan@.len(),
        forall|i: int|
            0 <= i < tools@.len() ==> {
                let t = #[trigger] tools.deep_view()[i];
                t.id == entries_model(plan@)[i].0 && t.locator == entries_model(plan@)[i].1
                    && t.version == loaded.deep_view()[i].version && t.plugin
                    == loaded.deep_view()[i].plugin && t.checksum_url
                    == loaded.deep_view()[i].checksum_url && t.temp_dir
                    == env.store.temp_dir@.push(t.id) && t.install_dir
                    == env.store.inventory_dir@.push(t.id).push(t.version)
            },
{
    let mut tools: Vec<Tool> = Vec::new();
    let mut i: usize = 0;
    while i < plan.len()
        invariant
            i <= plan.len(),
            loaded@.len() == plan@.len(),
            tools@.len() == i as int,
            forall|j: int|
                0 <= j < i ==> {
                    let t = #[trigger] tools.deep_view()[j];
                    t.id == entries_model(plan@)[j].0 && t.locator == entries_model(plan@)[j].1
                        && t.version == loaded.deep_view()[j].version && t.plugin
                        == loaded.deep_view()[j].plugin && t.checksum_url
                        == loaded.deep_view()[j].checksum_url && t.temp_dir
                        == env.store.temp_dir@.push(t.id) && t.install_dir
                        == env.store.inventory_dir@.push(t.id).push(t.version)
                },
        decreases plan.len() - i,
    {
        let e = &plan[i];
        let l = &loaded[i];
        let cu = match &l.checksum_url {
            Some(u) => Some(u.clone()),
            None => None,
        };
        let ghost pre = tools.deep_view();
        let t = Tool::new(e.0.clone(), l.version.clone(), e.1.clone(), l.plugin, cu, env);
        tools.push(t);
        proof {
            assert(tools.deep_view() =~~= pre.push(tools@[i as int]@));
        }
        i = i + 1;
    }
    tools
}

/// Every tool built from a well-formed plan respects the filter and is
/// never the schema plugin: the orchestrator cannot hand back a tool the
/// filter excludes, nor surface the shared schema plugin as a tool.
pub proof fn lemma_loaded_tools_respect_filter(
    plan: Seq<(Seq<char>, LocatorModel)>,
    cfg: ConfigModel,
    filter: Seq<Seq<char>>,
    tools: Seq<ToolModel>,
)
    requires
        plan_ok(plan, cfg, filter),
        tools.len() == plan.len(),
        forall|i: int| 0 <= i < tools.len() ==> (#[trigger] tools[i]).id == plan[i].0,
    ensures
        filter.len() > 0 ==> forall|i: int|
            0 <= i < tools.len() ==> filter.contains((#[trigger] tools[i]).id),
        forall|i: int| 0 <= i < tools.len() ==> (#[trigger] tools[i]).id != schema_id_spec(),
{
}

/// Holds the session environment and hands out the verified planning and
/// completion steps of a tool load.
pub struct ProtoResource {
    /// The session environment every load shares.
    pub env: ProtoEnvironment,
}

impl ProtoResource {
    /// A resource over an environment.
    pub fn new(env: ProtoEnvironment) -> (r: ProtoResource)
        ensures
            r.env == env,
    {
        ProtoResource { env }
    }
}


/// A version without a trailing `.0` patch component: upstream checksum
/// manifests often name `1.21` where the resolved version is `1.21.0`.
pub open spec fn strip_patch_zero_spec(v: Seq<char>) -> Seq<char> {
    if v.len() >= 2 && v.skip(v.len() - 2) == ".0"@ {
        v.take(v.len() - 2)
    } else {
        v
    }
}

/// Drops a trailing `.0` from a version.
pub fn strip_patch_zero(version: &str) -> (r: String)
    ensures
        r@ == strip_patch_zero_spec(version@),
{
    let n: usize = version.unicode_len();
    proof {
        reveal_strlit(".0");
    }
    if n >= 2 && version.get_char(n - 2) == '.' && version.get_char(n - 1) == '0' {
        proof {
            assert(version@.skip(n - 2) =~= ".0"@);
        }
        let r = version.substring_char(0, n - 2).to_owned();
        proof {
            assert(r@ =~= version@.take(n - 2));
        }
        r
    } else {
        proof {
            if n >= 2 {
                assert(version@.skip(n - 2)[0] == version@[n - 2]);
                assert(version@.skip(n - 2)[1] == version@[n - 1]);
            }
        }
        version.to_owned()
    }
}

/// The version string a release publishes: the body of the version file
/// with surrounding whitespace removed.
pub fn parse_latest_version(body: &str) -> (r: String)
    ensures
        r@ == crate::text::trim_spec(body@),
{
    crate::text::trim_ascii_space(body)
}

} // verus!
