//! The plugin loader: resolves a locator against the on-disk cache and the
//! offline setting, and decides what — if anything — must be fetched.
//!
//! The loader itself performs no I/O. Resolving yields either a local path,
//! a cache hit, or a fetch instruction; the surrounding application performs
//! the fetch and registers the resulting cache file.

use vstd::prelude::*;

use crate::error::ErrorModel;
use crate::error::ProtoError;
use crate::locator::LocatorModel;
use crate::locator::PluginLocator;
use crate::locator::locator_eq;
use crate::paths::DirPath;
use crate::paths::joined_file_spec;

verus! {

/// Replaces the characters that may not appear in a cache file name.
pub open spec fn sanitize_char_spec(c: char) -> char {
    if c == '/' || c == ':' || c == '@' {
        '_'
    } else {
        c
    }
}

pub open spec fn sanitize_spec(s: Seq<char>) -> Seq<char> {
    s.map_values(|c: char| sanitize_char_spec(c))
}

/// The cache file name of a locator: its kind, then its sanitized payload,
/// so that equal locators always land on the same file and distinct kinds
/// never collide.
pub open spec fn cache_name_spec(l: LocatorModel) -> Seq<char> {
    match l {
        LocatorModel::SourcePath(p) => "path-"@ + sanitize_spec(p),
        LocatorModel::SourceUrl(u) => "url-"@ + sanitize_spec(u),
        LocatorModel::Registry(n) => "registry-"@ + sanitize_spec(n),
    }
}

/// Sanitizes a payload for use in a file name.
fn sanitize(s: &str) -> (r: String)
    ensures
        r@ == sanitize_spec(s@),
{
    let n: usize = s.unicode_len();
    let mut out = String::new();
    let mut i: usize = 0;
    proof {
        assert(out@ =~= sanitize_spec(s@.take(0)));
    }
    while i < n
        invariant
            i <= n,
            n == s@.len(),
            out@ == sanitize_spec(s@.take(i as int)),
        decreases n - i,
    {
        let c = s.get_char(i);
        if c == '/' || c == ':' || c == '@' {
            out.append("_");
            proof {
                reveal_strlit("_");
                assert(out@ =~= sanitize_spec(s@.take(i + 1)));
            }
        } else {
            let piece = s.substring_char(i, i + 1);
            out.append(piece);
            proof {
                assert(piece@ =~= seq![s@[i as int]]);
                assert(out@ =~= sanitize_spec(s@.take(i + 1)));
            }
        }
        i = i + 1;
    }
    proof {
        assert(s@.take(n as int) =~= s@);
    }
    out
}

/// The cache file name of a locator.
pub fn cache_file_name(l: &PluginLocator) -> (r: String)
    ensures
        r@ == cache_name_spec(l@),
{
    let mut out = String::new();
    match l {
        PluginLocator::SourcePath { path } => {
            out.append("path-");
            out.append(sanitize(path.as_str()).as_str());
        },
        PluginLocator::SourceUrl { url } => {
            out.append("url-");
            out.append(sanitize(url.as_str()).as_str());
        },
        PluginLocator::Registry { name } => {
            out.append("registry-");
            out.append(sanitize(name.as_str()).as_str());
        },
    }
    out
}

/// The cache path of `l` in a list of cache entries: first entry wins.
pub open spec fn cache_lookup(
    cache: Seq<(LocatorModel, Seq<char>)>,
    l: LocatorModel,
) -> Option<Seq<char>>
    decreases cache.len(),
{
    if cache.len() == 0 {
        None
    } else if cache[0].0 == l {
        Some(cache[0].1)
    } else {
        cache_lookup(cache.drop_first(), l)
    }
}

pub proof fn lemma_cache_lookup_append(
    e1: Seq<(LocatorModel, Seq<char>)>,
    e2: Seq<(LocatorModel, Seq<char>)>,
    l: LocatorModel,
)
    ensures
        cache_lookup(e1 + e2, l) == if cache_lookup(e1, l) is Some {
            cache_lookup(e1, l)
        } else {
            cache_lookup(e2, l)
        },
    decreases e1.len(),
{
    if e1.len() == 0 {
        assert(e1 + e2 =~= e2);
    } else {
        assert((e1 + e2).drop_first() =~= e1.drop_first() + e2);
        assert((e1 + e2)[0] == e1[0]);
        lemma_cache_lookup_append(e1.drop_first(), e2, l);
    }
}

/// The image of the loader's cache entries.
pub open spec fn cache_model(s: Seq<(PluginLocator, String)>) -> Seq<(LocatorModel, Seq<char>)> {
    s.map_values(|e: (PluginLocator, String)| (e.0@, e.1@))
}

/// What resolving a locator decided.
pub enum ResolvedPlugin {
    /// A path locator: load the manifest straight from that path.
    Local { path: String },
    /// The artifact is already in the cache at this path.
    Cached { path: String },
    /// The artifact must be fetched from `source` into the cache file
    /// `dest`.
    Fetch { source: PluginLocator, dest: String },
}

/// Mathematical image of a [`ResolvedPlugin`].
pub enum ResolvedModel {
    Local(Seq<char>),
    Cached(Seq<char>),
    Fetch(LocatorModel, Seq<char>),
}

impl View for ResolvedPlugin {
    type V = ResolvedModel;

    open spec fn view(&self) -> ResolvedModel {
        match self {
            ResolvedPlugin::Local { path } => ResolvedModel::Local(path@),
            ResolvedPlugin::Cached { path } => ResolvedModel::Cached(path@),
            ResolvedPlugin::Fetch { source, dest } => ResolvedModel::Fetch(source@, dest@),
        }
    }
}

/// Mathematical image of a [`PluginLoader`].
pub struct LoaderModel {
    pub plugins_dir: Seq<Seq<char>>,
    pub temp_dir: Seq<Seq<char>>,
    pub offline: bool,
    pub http_timeout_secs: u64,
    pub cache: Seq<(LocatorModel, Seq<char>)>,
}

/// Fetches, caches and resolves tool plugins. The in-memory cache mirrors
/// the cache directory on disk: the application seeds it with the files
/// already present and registers every fetch it completes.
pub struct PluginLoader {
    /// Directory that holds the cached plugin artifacts.
    pub plugins_dir: DirPath,
    /// Directory for temporary downloads.
    pub temp_dir: DirPath,
    /// Whether network fetches are forbidden.
    pub offline: bool,
    /// HTTP client timeout, in seconds.
    pub http_timeout_secs: u64,
    /// Cache entries: locator and the cache file it resolved to.
    pub cache: Vec<(PluginLocator, String)>,
}

impl View for PluginLoader {
    type V = LoaderModel;

    open spec fn view(&self) -> LoaderModel {
        LoaderModel {
            plugins_dir: self.plugins_dir@,
            temp_dir: self.temp_dir@,
            offline: self.offline,
            http_timeout_secs: self.http_timeout_secs,
            cache: cache_model(self.cache@),
        }
    }
}

impl Clone for PluginLoader {
    /// A clone denotes the same loader state.
    fn clone(&self) -> (r: Self)
        ensures
            r@ == self@,
    {
        let mut cache: Vec<(PluginLocator, String)> = Vec::new();
        let mut i: usize = 0;
        proof {
            assert(cache_model(cache@) =~= cache_model(self.cache@).take(0));
        }
        while i < self.cache.len()
            invariant
                i <= self.cache.len(),
                cache@.len() == i as int,
                cache_model(cache@) == cache_model(self.cache@).take(i as int),
            decreases self.cache.len() - i,
        {
            let e = &self.cache[i];
            let pair = (e.0.clone(), e.1.clone());
            proof {
                assert(pair.0@ == self.cache@[i as int].0@);
                assert(pair.1@ == self.cache@[i as int].1@);
            }
            cache.push(pair);
            proof {
                assert(cache_model(cache@) =~~= cache_model(self.cache@).take(i + 1));
            }
            i = i + 1;
        }
        proof {
            assert(cache_model(self.cache@).take(self.cache.len() as int) =~= cache_model(
                self.cache@,
            ));
        }
        PluginLoader {
            plugins_dir: self.plugins_dir.clone(),
            temp_dir: self.temp_dir.clone(),
            offline: self.offline,
            http_timeout_secs: self.http_timeout_secs,
            cache,
        }
    }
}

/// What [`PluginLoader::load_plugin`] must decide for each locator:
/// path locators load directly; a cached artifact is reused; otherwise
/// offline mode fails with the distinguishable offline error, and only an
/// online loader asks for a fetch, into the locator's own cache file.
pub open spec fn resolve_post(
    loader: LoaderModel,
    loc: LocatorModel,
    r: Result<ResolvedModel, ErrorModel>,
) -> bool {
    match loc {
        LocatorModel::SourcePath(p) => r == Ok::<ResolvedModel, ErrorModel>(ResolvedModel::Local(p)),
        _ => match cache_lookup(loader.cache, loc) {
            Some(path) => r == Ok::<ResolvedModel, ErrorModel>(ResolvedModel::Cached(path)),
            None => if loader.offline {
                r == Err::<ResolvedModel, ErrorModel>(ErrorModel::Offline(loc))
            } else {
                r == Ok::<ResolvedModel, ErrorModel>(
                    ResolvedModel::Fetch(
                        loc,
                        joined_file_spec(loader.plugins_dir, cache_name_spec(loc)),
                    ),
                )
            },
        },
    }
}

/// Once a locator's artifact is in the cache — as the orchestrator
/// guarantees for the schema plugin before any parallel tool load starts —
/// resolving that locator never asks for another fetch, so the cache file
/// is written at most once.
pub proof fn lemma_cached_plugin_never_fetches(
    loader: LoaderModel,
    loc: LocatorModel,
    r: Result<ResolvedModel, ErrorModel>,
)
    requires
        resolve_post(loader, loc, r),
        cache_lookup(loader.cache, loc) is Some,
    ensures
        !(r matches Ok(ResolvedModel::Fetch(_, _))),
        r is Ok,
{
}

impl PluginLoader {
    /// A fresh loader over the store's directories; nothing cached, online,
    /// default timeout.
    pub fn new(plugins_dir: DirPath, temp_dir: DirPath) -> (r: PluginLoader)
        ensures
            r@.plugins_dir == plugins_dir@,
            r@.temp_dir == temp_dir@,
            r@.offline == false,
            r@.http_timeout_secs == 30,
            r@.cache == Seq::<(LocatorModel, Seq<char>)>::empty(),
    {
        let r = PluginLoader {
            plugins_dir,
            temp_dir,
            offline: false,
            http_timeout_secs: 30,
            cache: Vec::new(),
        };
        proof {
            assert(cache_model(r.cache@) =~= Seq::<(LocatorModel, Seq<char>)>::empty());
        }
        r
    }

    /// Installs the HTTP client settings of the merged configuration.
    pub fn set_client_options(&mut self, http_timeout_secs: u64)
        ensures
            *final(self) == (PluginLoader { http_timeout_secs, ..*old(self) }),
    {
        self.http_timeout_secs = http_timeout_secs;
    }

    /// Installs the offline signal the loader consults before any fetch.
    pub fn set_offline_checker(&mut self, offline: bool)
        ensures
            *final(self) == (PluginLoader { offline, ..*old(self) }),
    {
        self.offline = offline;
    }

    /// The cache file the locator already resolved to, if any.
    pub fn cache_get(&self, locator: &PluginLocator) -> (r: Option<String>)
        ensures
            match r {
                Some(p) => cache_lookup(self@.cache, locator@) == Some(p@),
                None => cache_lookup(self@.cache, locator@) is None,
            },
    {
        let ghost m = cache_model(self.cache@);
        let mut k: usize = 0;
        proof {
            assert(m.skip(0) =~= m);
        }
        while k < self.cache.len()
            invariant
                k <= self.cache.len(),
                m == cache_model(self.cache@),
                m.len() == self.cache@.len(),
                cache_lookup(m, locator@) == cache_lookup(m.skip(k as int), locator@),
            decreases self.cache.len() - k,
        {
            proof {
                assert(m.skip(k as int)[0] == m[k as int]);
            }
            if locator_eq(&self.cache[k].0, locator) {
                return Some(self.cache[k].1.clone());
            }
            proof {
                assert(m.skip(k as int).drop_first() =~= m.skip(k + 1));
            }
            k = k + 1;
        }
        proof {
            assert(m.skip(self.cache.len() as int) =~= Seq::<(LocatorModel, Seq<char>)>::empty());
        }
        None
    }

    /// Whether the locator's artifact is already cached.
    pub fn is_cached(&self, locator: &PluginLocator) -> (r: bool)
        ensures
            r == (cache_lookup(self@.cache, locator@) is Some),
    {
        self.cache_get(locator).is_some()
    }

    /// Resolves a locator: a path locator loads directly, a cached
    /// artifact is reused, and otherwise the loader either refuses (when
    /// offline) or asks for a fetch into the locator's cache file.
    pub fn load_plugin(&self, locator: &PluginLocator) -> (r: Result<
        ResolvedPlugin,
        ProtoError,
    >)
        ensures
            resolve_post(self@, locator@, match r {
                Ok(p) => Ok(p@),
                Err(e) => Err(e@),
            }),
    {
        match locator {
            PluginLocator::SourcePath { path } => Ok(ResolvedPlugin::Local { path: path.clone() }),
            _ => {
                match self.cache_get(locator) {
                    Some(path) => Ok(ResolvedPlugin::Cached { path }),
                    None => {
                        if self.offline {
                            Err(ProtoError::Offline { locator: locator.clone() })
                        } else {
                            let name = cache_file_name(locator);
                            let dest = self.plugins_dir.join_file(name.as_str());
                            Ok(ResolvedPlugin::Fetch { source: locator.clone(), dest })
                        }
                    },
                }
            },
        }
    }

    /// Records that the locator's artifact now sits in the cache file at
    /// `path`. An already-cached locator keeps its first entry; every
    /// other locator's cache entry is untouched.
    pub fn register_fetched(&mut self, locator: &PluginLocator, path: &String)
        ensures
            final(self).plugins_dir == old(self).plugins_dir,
            final(self).temp_dir == old(self).temp_dir,
            final(self).offline == old(self).offline,
            final(self).http_timeout_secs == old(self).http_timeout_secs,
            cache_lookup(final(self)@.cache, locator@) is Some,
            cache_lookup(old(self)@.cache, locator@) is Some ==> *final(self) == *old(self),
            cache_lookup(old(self)@.cache, locator@) is None ==> cache_lookup(
                final(self)@.cache,
                locator@,
            ) == Some(path@),
            forall|l: LocatorModel|
                l != locator@ ==> #[trigger] cache_lookup(final(self)@.cache, l) == cache_lookup(
                    old(self)@.cache,
                    l,
                ),
    {
        if self.cache_get(locator).is_some() {
            return ;
        }
        let ghost oldm = cache_model(self.cache@);
        self.cache.push((locator.clone(), path.clone()));
        proof {
            assert(cache_model(self.cache@) =~~= oldm.push((locator@, path@)));
            assert(oldm.push((locator@, path@)) =~= oldm + seq![(locator@, path@)]);
            assert(seq![(locator@, path@)].drop_first() =~= Seq::<(
                LocatorModel,
                Seq<char>,
            )>::empty());
            assert(cache_lookup(Seq::<(LocatorModel, Seq<char>)>::empty(), locator@) is None);
            lemma_cache_lookup_append(oldm, seq![(locator@, path@)], locator@);
            assert forall|l: LocatorModel| l != locator@ implies #[trigger] cache_lookup(
                cache_model(self.cache@),
                l,
            ) == cache_lookup(oldm, l) by {
                assert(cache_lookup(Seq::<(LocatorModel, Seq<char>)>::empty(), l) is None);
                lemma_cache_lookup_append(oldm, seq![(locator@, path@)], l);
            }
        }
    }
}

} // verus!
