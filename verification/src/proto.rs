//! The process-scoped environment: working directory, home, store layout,
//! and the exactly-once configuration and plugin-loader state.

use vstd::prelude::*;

use vstd::pervasive::unreached;

use crate::config::ConfigDocument;
use crate::config::DocModel;
use crate::config::empty_doc_model;
use crate::config::parse_config;
use crate::config::parse_config_spec;
use crate::error::ErrorModel;
use crate::error::ProtoError;
use crate::loader::PluginLoader;
use crate::loader::ResolvedPlugin;
use crate::loader::resolve_post;
use crate::locator::PluginLocator;
use crate::manager::ProtoConfig;
use crate::manager::ProtoConfigFile;
use crate::manager::ProtoConfigManager;
use crate::manager::docs_of;
use crate::manager::first_http_timeout;
use crate::manager::first_offline;
use crate::manager::is_merged_of;
use crate::paths::DirPath;
use crate::paths::config_walk_dirs;
use crate::paths::joined_file_spec;
use crate::paths::lemma_walk_stays_inside;
use crate::paths::starts_with_path;
use crate::paths::walk_dirs_spec;

verus! {

/// The on-disk layout under the store root.
pub struct Store {
    /// The store root itself.
    pub root: DirPath,
    /// Where plugin artifacts are cached.
    pub plugins_dir: DirPath,
    /// Where downloads land before they are verified.
    pub temp_dir: DirPath,
    /// Where tools are installed, one directory per tool and version.
    pub inventory_dir: DirPath,
}

impl Store {
    /// The fixed layout below a store root.
    pub fn new(root: DirPath) -> (r: Store)
        ensures
            r.root@ == root@,
            r.plugins_dir@ == root@.push("plugins"@),
            r.temp_dir@ == root@.push("temp"@),
            r.inventory_dir@ == root@.push("tools"@),
    {
        let plugins_dir = root.child("plugins");
        let temp_dir = root.child("temp");
        let inventory_dir = root.child("tools");
        Store { root, plugins_dir, temp_dir, inventory_dir }
    }
}

/// One configuration file's content as read from disk: whether the file
/// existed, and its text when it did.
pub struct FileRead {
    /// Whether the file existed; an absent file is the empty document.
    pub exists: bool,
    /// The file's text; ignored when `exists` is false.
    pub text: String,
}

/// Mathematical image of a [`FileRead`].
pub struct ReadModel {
    pub exists: bool,
    pub text: Seq<char>,
}

impl View for FileRead {
    type V = ReadModel;

    open spec fn view(&self) -> ReadModel {
        ReadModel { exists: self.exists, text: self.text@ }
    }
}

impl DeepView for FileRead {
    type V = ReadModel;

    open spec fn deep_view(&self) -> ReadModel {
        self.view()
    }
}

/// The document a read contributes: an absent file is empty, a present
/// file must parse.
pub open spec fn read_doc(rd: ReadModel) -> Option<DocModel> {
    if rd.exists {
        parse_config_spec(rd.text)
    } else {
        Some(empty_doc_model())
    }
}

/// The file name every configuration directory is probed for.
pub open spec fn config_file_name() -> Seq<char> {
    "proto.cfg"@
}

/// The name of the environment-mode variant file of a directory.
pub open spec fn mode_file_name_spec(mode: Seq<char>) -> Seq<char> {
    "proto."@ + mode + ".cfg"@
}

/// The config files probed in one directory: the base file, then — in a
/// named environment mode — the mode variant, which the base file takes
/// precedence over.
pub open spec fn dir_plan_spec(d: Seq<Seq<char>>, mode: Option<Seq<char>>) -> Seq<Seq<char>> {
    match mode {
        None => seq![joined_file_spec(d, config_file_name())],
        Some(m) => seq![
            joined_file_spec(d, config_file_name()),
            joined_file_spec(d, mode_file_name_spec(m)),
        ],
    }
}

/// The config files probed along a walk, nearest directory first.
pub open spec fn dirs_plan_spec(dirs: Seq<Seq<Seq<char>>>, mode: Option<Seq<char>>) -> Seq<
    Seq<char>,
>
    decreases dirs.len(),
{
    if dirs.len() == 0 {
        Seq::empty()
    } else {
        dirs_plan_spec(dirs.drop_last(), mode) + dir_plan_spec(dirs.last(), mode)
    }
}

/// The directories an environment's config walk visits.
pub open spec fn env_walk_spec(env: ProtoEnvironment) -> Seq<Seq<Seq<char>>> {
    walk_dirs_spec(
        env.cwd@,
        if starts_with_path(env.home@, env.cwd@) {
            Some(env.home@)
        } else {
            None
        },
    )
}

/// The mode of an environment, as a sequence of characters.
pub open spec fn env_mode_spec(env: ProtoEnvironment) -> Option<Seq<char>> {
    match env.env_mode {
        Some(m) => Some(m@),
        None => None,
    }
}

/// The non-global config files an environment reads, in order.
pub open spec fn env_plan_spec(env: ProtoEnvironment) -> Seq<Seq<char>> {
    dirs_plan_spec(env_walk_spec(env), env_mode_spec(env))
}

/// The session-scoped environment: paths, store layout, and the lazily
/// created, exactly-once configuration manager and plugin loader.
pub struct ProtoEnvironment {
    /// The working directory the session started in.
    pub cwd: DirPath,
    /// The named environment mode, when one is set.
    pub env_mode: Option<String>,
    /// The user's home directory.
    pub home: DirPath,
    /// The store root.
    pub root: DirPath,
    /// The layout below the store root.
    pub store: Store,
    /// The configuration stack; built once, on first load.
    pub config_manager: Option<ProtoConfigManager>,
    /// The plugin loader; built once, on first use.
    pub plugin_loader: Option<PluginLoader>,
    /// Whether this environment was built for a test sandbox.
    pub test_mode: bool,
}

/// The documents of the environment's loaded configuration stack,
/// nearest first; empty while nothing is loaded.
pub open spec fn env_docs(env: ProtoEnvironment) -> Seq<DocModel> {
    match env.config_manager {
        Some(m) => docs_of(m.files.deep_view()),
        None => Seq::empty(),
    }
}

/// The fields of the environment that no method changes.
pub open spec fn same_identity(a: ProtoEnvironment, b: ProtoEnvironment) -> bool {
    &&& a.cwd == b.cwd
    &&& a.env_mode == b.env_mode
    &&& a.home == b.home
    &&& a.root == b.root
    &&& a.store == b.store
    &&& a.test_mode == b.test_mode
}

impl ProtoEnvironment {
    /// The configuration stack has been built.
    pub open spec fn config_initialized(&self) -> bool {
        self.config_manager is Some
    }

    /// The plugin loader has been built.
    pub open spec fn loader_initialized(&self) -> bool {
        self.plugin_loader is Some
    }

    /// A cached merge, when present, is the merge of the loaded files.
    pub open spec fn wf(&self) -> bool {
        match self.config_manager {
            Some(m) => m.wf(),
            None => true,
        }
    }

    /// An environment over explicit paths; nothing loaded yet.
    pub fn from(root: DirPath, cwd: DirPath, home: DirPath, env_mode: Option<String>) -> (r:
        ProtoEnvironment)
        ensures
            r.cwd == cwd,
            r.env_mode == env_mode,
            r.home == home,
            r.root == root,
            r.store.root@ == root@,
            r.store.plugins_dir@ == root@.push("plugins"@),
            r.store.temp_dir@ == root@.push("temp"@),
            r.store.inventory_dir@ == root@.push("tools"@),
            r.config_manager is None,
            r.plugin_loader is None,
            r.test_mode == false,
            r.wf(),
    {
        let store = Store::new(root.clone());
        ProtoEnvironment {
            cwd,
            env_mode,
            home,
            root,
            store,
            config_manager: None,
            plugin_loader: None,
            test_mode: false,
        }
    }

    /// The usual environment: the store lives at `.proto` under the home
    /// directory.
    pub fn new(cwd: DirPath, home: DirPath, env_mode: Option<String>) -> (r: ProtoEnvironment)
        ensures
            r.cwd == cwd,
            r.env_mode == env_mode,
            r.home == home,
            r.root@ == home@.push(".proto"@),
            r.store.root@ == r.root@,
            r.store.plugins_dir@ == r.root@.push("plugins"@),
            r.store.temp_dir@ == r.root@.push("temp"@),
            r.store.inventory_dir@ == r.root@.push("tools"@),
            r.config_manager is None,
            r.plugin_loader is None,
            r.test_mode == false,
            r.wf(),
    {
        let root = home.child(".proto");
        Self::from(root, cwd, home, env_mode)
    }

    /// An environment confined to a test sandbox.
    pub fn new_testing(sandbox: &DirPath) -> (r: ProtoEnvironment)
        ensures
            r.cwd@ == sandbox@,
            r.home@ == sandbox@.push(".home"@),
            r.root@ == sandbox@.push(".proto"@),
            r.env_mode is None,
            r.config_manager is None,
            r.plugin_loader is None,
            r.test_mode == true,
            r.wf(),
    {
        let mut env = Self::from(
            sandbox.child(".proto"),
            sandbox.clone(),
            sandbox.child(".home"),
            None,
        );
        env.test_mode = true;
        env
    }

    /// The directory whose config file a write should go to.
    pub fn get_config_dir(&self, global: bool) -> (r: DirPath)
        ensures
            r@ == if global {
                self.root@
            } else {
                self.cwd@
            },
    {
        if global {
            self.root.clone()
        } else {
            self.cwd.clone()
        }
    }

    /// The path translations handed to sandboxed plugins: working
    /// directory, store root and home under stable virtual names.
    pub fn get_virtual_paths(&self) -> (r: Vec<(DirPath, String)>)
        ensures
            r@.len() == 3,
            r@[0].0@ == self.cwd@ && r@[0].1@ == "/cwd"@,
            r@[1].0@ == self.root@ && r@[1].1@ == "/proto"@,
            r@[2].0@ == self.home@ && r@[2].1@ == "/userhome"@,
    {
        let mut r: Vec<(DirPath, String)> = Vec::new();
        r.push((self.cwd.clone(), String::from_str("/cwd")));
        r.push((self.root.clone(), String::from_str("/proto")));
        r.push((self.home.clone(), String::from_str("/userhome")));
        r
    }

    /// The non-global config files to probe, nearest directory first: one
    /// per visited directory, plus the mode variant when a mode is set.
    pub fn config_file_plan(&self) -> (r: Vec<String>)
        ensures
            r.deep_view() == env_plan_spec(*self),
    {
        let dirs = config_walk_dirs(&self.cwd, &self.home);
        let ghost dv = dirs.deep_view();
        let ghost mode = env_mode_spec(*self);
        let mut out: Vec<String> = Vec::new();
        let mut i: usize = 0;
        proof {
            assert(dv.take(0) =~= Seq::<Seq<Seq<char>>>::empty());
            assert(dirs_plan_spec(Seq::<Seq<Seq<char>>>::empty(), mode) == Seq::<
                Seq<char>,
            >::empty());
            assert(out.deep_view() =~= Seq::<Seq<char>>::empty());
        }
        while i < dirs.len()
            invariant
                i <= dirs.len(),
                dv == dirs.deep_view(),
                dv.len() == dirs.len(),
                mode == env_mode_spec(*self),
                out.deep_view() == dirs_plan_spec(dv.take(i as int), mode),
            decreases dirs.len() - i,
        {
            let ghost oldout = out.deep_view();
            let p1 = dirs[i].join_file("proto.cfg");
            let ghost p1v = p1@;
            out.push(p1);
            match &self.env_mode {
                Some(m) => {
                    let mut name = String::from_str("proto.");
                    name.append(m.as_str());
                    name.append(".cfg");
                    proof {
                        assert(name@ == mode_file_name_spec(m@));
                    }
                    let p2 = dirs[i].join_file(name.as_str());
                    let ghost p2v = p2@;
                    out.push(p2);
                    proof {
                        assert(out.deep_view() =~~= oldout.push(p1v).push(p2v));
                        assert(oldout.push(p1v).push(p2v) =~= oldout + dir_plan_spec(
                            dv[i as int],
                            mode,
                        ));
                    }
                },
                None => {
                    proof {
                        assert(out.deep_view() =~~= oldout.push(p1v));
                        assert(oldout.push(p1v) =~= oldout + dir_plan_spec(dv[i as int], mode));
                    }
                },
            }
            proof {
                assert(dv.take(i + 1).drop_last() =~= dv.take(i as int));
                assert(dv.take(i + 1).last() == dv[i as int]);
                assert(dirs_plan_spec(dv.take(i + 1), mode) == dirs_plan_spec(
                    dv.take(i as int),
                    mode,
                ) + dir_plan_spec(dv[i as int], mode));
            }
            i = i + 1;
        }
        proof {
            assert(dv.take(dirs.len() as int) =~= dv);
        }
        out
    }

    /// The path of the mandatory global config file.
    pub fn global_config_path(&self) -> (r: String)
        ensures
            r@ == joined_file_spec(self.root@, config_file_name()),
    {
        self.root.join_file("proto.cfg")
    }
}


/// The reads parse: every file that exists holds a well-formed document.
pub open spec fn reads_ok(reads: Seq<ReadModel>) -> bool {
    forall|i: int| 0 <= i < reads.len() ==> (#[trigger] read_doc(reads[i])) is Some
}

/// The path of the `i`th file the environment reads: a planned walk file,
/// or — one past the plan — the global file.
pub open spec fn planned_path(env: ProtoEnvironment, i: int) -> Seq<char> {
    if i < env_plan_spec(env).len() {
        env_plan_spec(env)[i]
    } else {
        joined_file_spec(env.root@, config_file_name())
    }
}

/// The configuration stack built from `reads`: one file per planned path
/// carrying the corresponding read, and exactly one global file, last.
pub open spec fn manager_matches(
    env: ProtoEnvironment,
    reads: Seq<ReadModel>,
    m: ProtoConfigManager,
) -> bool {
    let plan = env_plan_spec(env);
    let files = m.files.deep_view();
    &&& files.len() == plan.len() + 1
    &&& forall|i: int|
        0 <= i < plan.len() ==> {
            let f = #[trigger] files[i];
            f.path == plan[i] && f.exists == reads[i].exists && f.global == false && Some(f.config)
                == read_doc(reads[i])
        }
    &&& files.last().path == joined_file_spec(env.root@, config_file_name())
    &&& files.last().exists == reads.last().exists
    &&& files.last().global == true
    &&& Some(files.last().config) == read_doc(reads.last())
}

impl ProtoEnvironment {
    /// Builds the configuration stack from the reads of the planned files
    /// (the global file's read last). Built at most once: a second call
    /// changes nothing. A file that exists but does not parse aborts the
    /// whole load, naming the offending path; no partial stack is kept.
    pub fn load_config_manager(&mut self, reads: &Vec<FileRead>) -> (r: Result<(), ProtoError>)
        requires
            old(self).wf(),
            reads@.len() == env_plan_spec(*old(self)).len() + 1,
        ensures
            same_identity(*final(self), *old(self)),
            final(self).plugin_loader == old(self).plugin_loader,
            final(self).wf(),
            old(self).config_initialized() ==> r is Ok && *final(self) == *old(self),
            !old(self).config_initialized() ==> match r {
                Ok(_) => reads_ok(reads.deep_view()) && (final(self).config_manager matches Some(m)
                    && manager_matches(*old(self), reads.deep_view(), m) && m.merged is None),
                Err(e) => !reads_ok(reads.deep_view()) && final(self).config_manager is None && (
                exists|i: int|
                    0 <= i < reads.deep_view().len() && (#[trigger] read_doc(
                        reads.deep_view()[i],
                    )) is None && e@ == ErrorModel::Config(planned_path(*old(self), i)) && (forall|
                        j: int,
                    |
                        0 <= j < i ==> (#[trigger] read_doc(reads.deep_view()[j])) is Some)),
            },
    {
        if self.config_manager.is_some() {
            return Ok(());
        }
        let plan = self.config_file_plan();
        let ghost rv = reads.deep_view();
        let ghost pv = plan.deep_view();
        let mut files: Vec<ProtoConfigFile> = Vec::new();
        let mut i: usize = 0;
        while i < plan.len()
            invariant
                i <= plan.len(),
                reads@.len() == pv.len() + 1,
                rv == reads.deep_view(),
                rv.len() == reads@.len(),
                pv == plan.deep_view(),
                pv.len() == plan@.len(),
                pv == env_plan_spec(*self),
                *self == *old(self),
                old(self).config_manager is None,
                files@.len() == i as int,
                forall|j: int| 0 <= j < i ==> (#[trigger] read_doc(rv[j])) is Some,
                forall|j: int|
                    0 <= j < i ==> {
                        let f = #[trigger] files.deep_view()[j];
                        f.path == pv[j] && f.exists == rv[j].exists && f.global == false && Some(
                            f.config,
                        ) == read_doc(rv[j])
                    },
            decreases plan.len() - i,
        {
            let rd = &reads[i];
            let doc = if rd.exists {
                match parse_config(rd.text.as_str()) {
                    Ok(d) => d,
                    Err(_) => {
                        return Err(ProtoError::Config { path: plan[i].clone() });
                    },
                }
            } else {
                ConfigDocument::empty()
            };
            let ghost oldfv = files.deep_view();
            let f = ProtoConfigFile { path: plan[i].clone(), exists: rd.exists, global: false, config: doc };
            proof {
                assert(f@.path == pv[i as int]);
                assert(Some(f@.config) == read_doc(rv[i as int]));
            }
            files.push(f);
            proof {
                assert(files.deep_view() =~~= oldfv.push(files@[i as int]@));
            }
            i = i + 1;
        }
        let grd = &reads[plan.len()];
        let gdoc = if grd.exists {
            match parse_config(grd.text.as_str()) {
                Ok(d) => d,
                Err(_) => {
                    return Err(ProtoError::Config { path: self.global_config_path() });
                },
            }
        } else {
            ConfigDocument::empty()
        };
        let ghost oldfv = files.deep_view();
        let gpath = self.global_config_path();
        let gf = ProtoConfigFile { path: gpath, exists: grd.exists, global: true, config: gdoc };
        proof {
            assert(Some(gf@.config) == read_doc(rv[pv.len() as int]));
        }
        files.push(gf);
        proof {
            assert(files.deep_view() =~~= oldfv.push(files@[pv.len() as int]@));
        }
        self.config_manager = Some(ProtoConfigManager::new(files));
        Ok(())
    }

    /// The merged configuration. Requires the stack to be loaded; merges
    /// on first call and serves the cached merge afterwards, so that every
    /// caller observes the same configuration.
    pub fn load_config(&mut self) -> (r: ProtoConfig)
        requires
            old(self).config_initialized(),
            old(self).wf(),
        ensures
            same_identity(*final(self), *old(self)),
            final(self).plugin_loader == old(self).plugin_loader,
            final(self).wf(),
            final(self).config_initialized(),
            old(self).config_manager matches Some(m) ==> is_merged_of(
                r@,
                docs_of(m.files.deep_view()),
            ),
            (final(self).config_manager matches Some(m2) && (old(self).config_manager matches Some(
                m,
            ) ==> m2.files == m.files && (m2.merged matches Some(c) && c@ == r@))),
            old(self).config_manager matches Some(m) && m.merged matches Some(c)
                ==> *final(self) == *old(self) && r@ == c@,
    {
        let taken = self.config_manager.take();
        match taken {
            Some(mut m) => {
                let cfg = m.get_merged_config();
                self.config_manager = Some(m);
                cfg
            },
            None => unreached(),
        }
    }

    /// The plugin loader, built on first use from the store layout, the
    /// merged configuration and the offline signal; later calls observe
    /// the same loader.
    pub fn get_plugin_loader(&mut self, offline: bool) -> (r: PluginLoader)
        requires
            old(self).config_initialized(),
            old(self).wf(),
        ensures
            same_identity(*final(self), *old(self)),
            final(self).wf(),
            final(self).config_initialized(),
            final(self).loader_initialized(),
            (final(self).plugin_loader matches Some(l) && l@ == r@),
            old(self).plugin_loader matches Some(l0) ==> *final(self) == *old(self) && r@ == l0@,
            old(self).plugin_loader is None ==> {
                &&& r@.plugins_dir == old(self).store.plugins_dir@
                &&& r@.temp_dir == old(self).store.temp_dir@
                &&& r@.cache.len() == 0
                &&& r@.http_timeout_secs == (match first_http_timeout(env_docs(*old(self))) {
                    Some(v) => v,
                    None => 30,
                })
                &&& r@.offline == (offline || (match first_offline(env_docs(*old(self))) {
                    Some(b) => b,
                    None => false,
                }))
            },
    {
        if let Some(l) = &self.plugin_loader {
            return l.clone();
        }
        let config = self.load_config();
        let mut loader = PluginLoader::new(
            self.store.plugins_dir.clone(),
            self.store.temp_dir.clone(),
        );
        loader.set_offline_checker(offline || config.offline);
        loader.set_client_options(config.http_timeout_secs);
        let out = loader.clone();
        self.plugin_loader = Some(loader);
        out
    }

    /// Resolves a locator with the environment's loader.
    pub fn load_plugin(&self, locator: &PluginLocator) -> (r: Result<ResolvedPlugin, ProtoError>)
        requires
            self.loader_initialized(),
        ensures
            self.plugin_loader matches Some(l) ==> resolve_post(l@, locator@, match r {
                Ok(p) => Ok(p@),
                Err(e) => Err(e@),
            }),
    {
        match &self.plugin_loader {
            Some(l) => l.load_plugin(locator),
            None => unreached(),
        }
    }

    /// Records a completed fetch in the environment's loader.
    pub fn register_fetched_plugin(&mut self, locator: &PluginLocator, path: &String)
        requires
            old(self).loader_initialized(),
        ensures
            same_identity(*final(self), *old(self)),
            final(self).config_manager == old(self).config_manager,
            final(self).loader_initialized(),
            (final(self).plugin_loader matches Some(l2) && (old(self).plugin_loader matches Some(
                l1,
            ) ==> {
                &&& crate::loader::cache_lookup(l2@.cache, locator@) is Some
                &&& (crate::loader::cache_lookup(l1@.cache, locator@) is None
                    ==> crate::loader::cache_lookup(l2@.cache, locator@) == Some(path@))
                &&& (crate::loader::cache_lookup(l1@.cache, locator@) is Some ==> l2 == l1)
                &&& (forall|l: crate::locator::LocatorModel|
                    l != locator@ ==> #[trigger] crate::loader::cache_lookup(l2@.cache, l)
                        == crate::loader::cache_lookup(l1@.cache, l))
                &&& l2@.offline == l1@.offline
                &&& l2@.plugins_dir == l1@.plugins_dir
                &&& l2@.temp_dir == l1@.temp_dir
                &&& l2@.http_timeout_secs == l1@.http_timeout_secs
            })),
    {
        let taken = self.plugin_loader.take();
        match taken {
            Some(mut ld) => {
                ld.register_fetched(locator, path);
                self.plugin_loader = Some(ld);
            },
            None => unreached(),
        }
    }
}


/// The configuration walk never escapes the home directory when the
/// working directory lies inside it — every visited directory sits below
/// home and is the working directory or one of its ancestors — and the
/// loaded stack always holds exactly one global file, the last, whatever
/// the hierarchy's depth.
pub proof fn lemma_config_stack_bounded(
    env: ProtoEnvironment,
    reads: Seq<ReadModel>,
    m: ProtoConfigManager,
)
    requires
        starts_with_path(env.home@, env.cwd@),
        reads.len() == env_plan_spec(env).len() + 1,
        manager_matches(env, reads, m),
    ensures
        forall|k: int|
            0 <= k < env_walk_spec(env).len() ==> starts_with_path(
                env.home@,
                #[trigger] env_walk_spec(env)[k],
            ) && starts_with_path(env_walk_spec(env)[k], env.cwd@),
        m.files.deep_view().len() >= 1,
        m.files.deep_view().last().global,
        forall|i: int|
            0 <= i < m.files.deep_view().len() - 1 ==> !(#[trigger] m.files.deep_view()[i]).global,
{
    lemma_walk_stays_inside(env.cwd@, env.home@);
}

} // verus!
