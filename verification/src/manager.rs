//! Layered configuration: the ordered files, the first-writer-wins merge,
//! and the merge cache.

use vstd::prelude::*;

use crate::config::ConfigDocument;
use crate::config::DocModel;
use crate::config::entries_model;
use crate::locator::LocatorModel;
use crate::locator::PluginLocator;
use crate::text::str_eq;

verus! {

/// The value of `id` in a list of entries: the earliest entry wins.
pub open spec fn lookup_entry(
    entries: Seq<(Seq<char>, LocatorModel)>,
    id: Seq<char>,
) -> Option<LocatorModel>
    decreases entries.len(),
{
    if entries.len() == 0 {
        None
    } else if entries[0].0 == id {
        Some(entries[0].1)
    } else {
        lookup_entry(entries.drop_first(), id)
    }
}

pub proof fn lemma_lookup_append(
    e1: Seq<(Seq<char>, LocatorModel)>,
    e2: Seq<(Seq<char>, LocatorModel)>,
    id: Seq<char>,
)
    ensures
        lookup_entry(e1 + e2, id) == if lookup_entry(e1, id) is Some {
            lookup_entry(e1, id)
        } else {
            lookup_entry(e2, id)
        },
    decreases e1.len(),
{
    if e1.len() == 0 {
        assert(e1 + e2 =~= e2);
    } else {
        assert((e1 + e2).drop_first() =~= e1.drop_first() + e2);
        assert((e1 + e2)[0] == e1[0]);
        lemma_lookup_append(e1.drop_first(), e2, id);
    }
}

pub proof fn lemma_lookup_exists(entries: Seq<(Seq<char>, LocatorModel)>, id: Seq<char>)
    ensures
        (lookup_entry(entries, id) is Some) <==> exists|k: int|
            0 <= k < entries.len() && (#[trigger] entries[k]).0 == id,
    decreases entries.len(),
{
    if entries.len() > 0 {
        lemma_lookup_exists(entries.drop_first(), id);
        if entries[0].0 == id {
        } else if lookup_entry(entries, id) is Some {
            let k = choose|k: int|
                0 <= k < entries.drop_first().len() && (#[trigger] entries.drop_first()[k]).0
                    == id;
            assert(entries[k + 1].0 == id);
        } else if exists|k: int| 0 <= k < entries.len() && (#[trigger] entries[k]).0 == id {
            let k = choose|k: int| 0 <= k < entries.len() && (#[trigger] entries[k]).0 == id;
            assert(entries.drop_first()[k - 1].0 == id);
        }
    }
}

/// The documents of a sequence of files, nearest first.
pub open spec fn docs_of(files: Seq<FileModel>) -> Seq<DocModel> {
    files.map_values(|f: FileModel| f.config)
}

/// All plugin entries of the documents, concatenated nearest-file first.
pub open spec fn all_entries(docs: Seq<DocModel>) -> Seq<(Seq<char>, LocatorModel)>
    decreases docs.len(),
{
    if docs.len() == 0 {
        Seq::empty()
    } else {
        all_entries(docs.drop_last()) + docs.last().plugins
    }
}

pub proof fn lemma_all_entries_split(docs: Seq<DocModel>, m: int)
    requires
        0 <= m <= docs.len(),
    ensures
        all_entries(docs) == all_entries(docs.take(m)) + all_entries(docs.skip(m)),
    decreases docs.len(),
{
    if m == docs.len() {
        assert(docs.take(m) =~= docs);
        assert(all_entries(docs.skip(m)) =~= Seq::<(Seq<char>, LocatorModel)>::empty());
        assert(all_entries(docs) =~= all_entries(docs.take(m)) + all_entries(docs.skip(m)));
    } else {
        let q = docs.drop_last();
        lemma_all_entries_split(q, m);
        assert(q.take(m) =~= docs.take(m));
        assert(docs.skip(m).drop_last() =~= q.skip(m));
        assert(docs.skip(m).len() > 0);
        assert(docs.skip(m).last() == docs.last());
        assert(all_entries(docs.skip(m)) == all_entries(q.skip(m)) + docs.last().plugins);
        assert(all_entries(docs.take(m)) + (all_entries(q.skip(m)) + docs.last().plugins)
            =~= (all_entries(docs.take(m)) + all_entries(q.skip(m))) + docs.last().plugins);
    }
}

/// The offline setting of the nearest file that sets one.
pub open spec fn first_offline(docs: Seq<DocModel>) -> Option<bool>
    decreases docs.len(),
{
    if docs.len() == 0 {
        None
    } else if docs[0].offline is Some {
        docs[0].offline
    } else {
        first_offline(docs.drop_first())
    }
}

/// The `http-timeout` setting of the nearest file that sets one.
pub open spec fn first_http_timeout(docs: Seq<DocModel>) -> Option<u64>
    decreases docs.len(),
{
    if docs.len() == 0 {
        None
    } else if docs[0].http_timeout is Some {
        docs[0].http_timeout
    } else {
        first_http_timeout(docs.drop_first())
    }
}

/// The merged configuration.
pub struct ConfigModel {
    /// One entry per configured id; the nearest file's value.
    pub plugins: Seq<(Seq<char>, LocatorModel)>,
    /// The nearest `offline` setting, `false` when no file sets one.
    pub offline: bool,
    /// The nearest `http-timeout` setting, 30 when no file sets one.
    pub http_timeout_secs: u64,
}

/// `cfg` is the first-writer-wins merge of `docs` (nearest document
/// first): looking an id up in the merged entries agrees with looking it
/// up in the concatenation of all documents' entries, the merged entries
/// name each id at most once, and the `offline` setting is the nearest
/// one.
pub open spec fn is_merged_of(cfg: ConfigModel, docs: Seq<DocModel>) -> bool {
    &&& forall|id: Seq<char>|
        #[trigger] lookup_entry(cfg.plugins, id) == lookup_entry(all_entries(docs), id)
    &&& forall|i: int, j: int|
        0 <= i < j < cfg.plugins.len() ==> (#[trigger] cfg.plugins[i]).0 != (
        #[trigger] cfg.plugins[j]).0
    &&& cfg.offline == match first_offline(docs) {
        Some(b) => b,
        None => false,
    }
    &&& cfg.http_timeout_secs == match first_http_timeout(docs) {
        Some(v) => v,
        None => 30,
    }
}

/// Any two merges of the same documents agree on every id and on the
/// offline setting: every caller of the cached merge observes the same
/// result.
pub proof fn lemma_merge_deterministic(c1: ConfigModel, c2: ConfigModel, docs: Seq<DocModel>)
    requires
        is_merged_of(c1, docs),
        is_merged_of(c2, docs),
    ensures
        forall|id: Seq<char>|
            #[trigger] lookup_entry(c1.plugins, id) == lookup_entry(c2.plugins, id),
        c1.offline == c2.offline,
        c1.http_timeout_secs == c2.http_timeout_secs,
{
}

pub proof fn lemma_lookup_all_none(ds: Seq<DocModel>, id: Seq<char>)
    requires
        forall|j: int| 0 <= j < ds.len() ==> lookup_entry((#[trigger] ds[j]).plugins, id) is None,
    ensures
        lookup_entry(all_entries(ds), id) is None,
    decreases ds.len(),
{
    if ds.len() == 0 {
        assert(all_entries(ds) =~= Seq::<(Seq<char>, LocatorModel)>::empty());
    } else {
        lemma_lookup_all_none(ds.drop_last(), id);
        lemma_lookup_append(all_entries(ds.drop_last()), ds.last().plugins, id);
    }
}

/// First-writer-wins across files: when file `i` (counted from the start
/// directory outward) sets `id` and no nearer file does, the merged value
/// is file `i`'s value, wherever farther files also set the same id.
pub proof fn lemma_merge_nearest_wins(
    cfg: ConfigModel,
    docs: Seq<DocModel>,
    i: int,
    id: Seq<char>,
    loc: LocatorModel,
)
    requires
        is_merged_of(cfg, docs),
        0 <= i < docs.len(),
        lookup_entry(docs[i].plugins, id) == Some(loc),
        forall|j: int| 0 <= j < i ==> lookup_entry((#[trigger] docs[j]).plugins, id) is None,
    ensures
        lookup_entry(cfg.plugins, id) == Some(loc),
{
    lemma_all_entries_split(docs, i);
    assert forall|j: int|
        0 <= j < docs.take(i).len() implies lookup_entry(
        (#[trigger] docs.take(i)[j]).plugins,
        id,
    ) is None by {
        assert(docs.take(i)[j] == docs[j]);
    }
    lemma_lookup_all_none(docs.take(i), id);
    let tail = docs.skip(i);
    lemma_all_entries_split(tail, 1);
    assert(tail.take(1).drop_last() =~= Seq::<DocModel>::empty());
    assert(tail.take(1).last() == docs[i]);
    assert(all_entries(Seq::<DocModel>::empty()) =~~= Seq::<(Seq<char>, LocatorModel)>::empty());
    assert(all_entries(tail.take(1)) =~~= docs[i].plugins);
    lemma_lookup_append(all_entries(tail.take(1)), all_entries(tail.skip(1)), id);
    lemma_lookup_append(all_entries(docs.take(i)), all_entries(tail), id);
}

/// One configuration file of the layered stack.
pub struct ProtoConfigFile {
    /// Absolute path of the file.
    pub path: String,
    /// Whether the file physically existed; an absent file contributes the
    /// empty document and is not an error.
    pub exists: bool,
    /// Whether this is the mandatory global file.
    pub global: bool,
    /// The parsed document.
    pub config: ConfigDocument,
}

/// Mathematical image of a [`ProtoConfigFile`].
pub struct FileModel {
    pub path: Seq<char>,
    pub exists: bool,
    pub global: bool,
    pub config: DocModel,
}

impl View for ProtoConfigFile {
    type V = FileModel;

    open spec fn view(&self) -> FileModel {
        FileModel {
            path: self.path@,
            exists: self.exists,
            global: self.global,
            config: self.config@,
        }
    }
}

impl DeepView for ProtoConfigFile {
    type V = FileModel;

    open spec fn deep_view(&self) -> FileModel {
        self.view()
    }
}

/// The merged configuration, as executable data.
pub struct ProtoConfig {
    /// One `(id, locator)` pair per configured id.
    pub plugins: Vec<(String, PluginLocator)>,
    /// Whether the stack asks to work offline.
    pub offline: bool,
    /// The HTTP client timeout, in seconds.
    pub http_timeout_secs: u64,
}

impl View for ProtoConfig {
    type V = ConfigModel;

    open spec fn view(&self) -> ConfigModel {
        ConfigModel {
            plugins: entries_model(self.plugins@),
            offline: self.offline,
            http_timeout_secs: self.http_timeout_secs,
        }
    }
}

impl Clone for ProtoConfig {
    /// A clone denotes the same merged configuration.
    fn clone(&self) -> (r: Self)
        ensures
            r@ == self@,
    {
        let mut plugins: Vec<(String, PluginLocator)> = Vec::new();
        let mut i: usize = 0;
        proof {
            assert(entries_model(plugins@) =~= entries_model(self.plugins@).take(0));
        }
        while i < self.plugins.len()
            invariant
                i <= self.plugins.len(),
                plugins@.len() == i as int,
                entries_model(plugins@) == entries_model(self.plugins@).take(i as int),
            decreases self.plugins.len() - i,
        {
            let e = &self.plugins[i];
            let pair = (e.0.clone(), e.1.clone());
            proof {
                assert(pair.0@ == self.plugins@[i as int].0@);
                assert(pair.1@ == self.plugins@[i as int].1@);
            }
            plugins.push(pair);
            proof {
                assert(plugins@.len() == i + 1);
                assert(entries_model(plugins@).len() == i + 1);
                assert(entries_model(plugins@)[i as int] == (self.plugins@[i as int].0@, self.plugins@[i as int].1@));
                assert(entries_model(plugins@) =~~= entries_model(self.plugins@).take(i + 1));
            }
            i = i + 1;
        }
        proof {
            assert(entries_model(self.plugins@).take(self.plugins.len() as int) =~= entries_model(
                self.plugins@,
            ));
        }
        ProtoConfig {
            plugins,
            offline: self.offline,
            http_timeout_secs: self.http_timeout_secs,
        }
    }
}

/// The locator configured for `id`, if any.
pub fn config_get_plugin(cfg: &ProtoConfig, id: &str) -> (r: Option<PluginLocator>)
    ensures
        match r {
            Some(l) => lookup_entry(cfg@.plugins, id@) == Some(l@),
            None => lookup_entry(cfg@.plugins, id@) is None,
        },
{
    let ghost m = entries_model(cfg.plugins@);
    let mut k: usize = 0;
    proof {
        assert(m.skip(0) =~= m);
    }
    while k < cfg.plugins.len()
        invariant
            k <= cfg.plugins.len(),
            m == entries_model(cfg.plugins@),
            lookup_entry(m, id@) == lookup_entry(m.skip(k as int), id@),
        decreases cfg.plugins.len() - k,
    {
        proof {
            assert(m.skip(k as int)[0] == m[k as int]);
        }
        if str_eq(cfg.plugins[k].0.as_str(), id) {
            return Some(cfg.plugins[k].1.clone());
        }
        proof {
            assert(m.skip(k as int).drop_first() =~= m.skip(k + 1));
        }
        k = k + 1;
    }
    proof {
        assert(m.skip(cfg.plugins.len() as int) =~= Seq::<(Seq<char>, LocatorModel)>::empty());
    }
    None
}

/// Merges the files' documents, nearest first: the first writer of each
/// key wins, later (more global) files only contribute keys no nearer
/// file set.
pub fn merge_config_files(files: &Vec<ProtoConfigFile>) -> (r: ProtoConfig)
    ensures
        is_merged_of(r@, docs_of(files.deep_view())),
{
    let ghost fv = files.deep_view();
    let ghost docs = docs_of(fv);
    let mut entries: Vec<(String, PluginLocator)> = Vec::new();
    let mut offline_acc: Option<bool> = None;
    let mut timeout_acc: Option<u64> = None;
    let mut fi: usize = 0;
    proof {
        assert(docs.len() == files@.len());
        assert(entries_model(entries@) =~= all_entries(docs_of(fv.take(0))));
        assert(docs.skip(0) =~= docs);
    }
    while fi < files.len()
        invariant
            fi <= files.len(),
            fv == files.deep_view(),
            docs == docs_of(fv),
            docs.len() == files@.len(),
            entries_model(entries@) == all_entries(docs_of(fv.take(fi as int))),
            match offline_acc {
                Some(b) => first_offline(docs) == Some(b),
                None => first_offline(docs) == first_offline(docs.skip(fi as int)),
            },
            match timeout_acc {
                Some(v) => first_http_timeout(docs) == Some(v),
                None => first_http_timeout(docs) == first_http_timeout(docs.skip(fi as int)),
            },
        decreases files.len() - fi,
    {
        let ghost base = entries_model(entries@);
        let ghost fplugins = docs[fi as int].plugins;
        let mut ei: usize = 0;
        proof {
            assert(fplugins =~= entries_model(files@[fi as int].config.plugins@));
            assert(base + fplugins.take(0) =~= base);
        }
        while ei < files[fi].config.plugins.len()
            invariant
                fi < files.len(),
                ei <= files[fi as int].config.plugins.len(),
                fv == files.deep_view(),
                docs == docs_of(fv),
                fplugins == docs[fi as int].plugins,
                fplugins == entries_model(files@[fi as int].config.plugins@),
                fplugins.len() == files@[fi as int].config.plugins@.len(),
                entries@.len() == base.len() + ei as int,
                entries_model(entries@) == base + fplugins.take(ei as int),
            decreases files[fi as int].config.plugins.len() - ei,
        {
            let e = &files[fi].config.plugins[ei];
            let pair = (e.0.clone(), e.1.clone());
            proof {
                assert(pair.0@ == files@[fi as int].config.plugins@[ei as int].0@);
                assert(pair.1@ == files@[fi as int].config.plugins@[ei as int].1@);
            }
            let ghost oldm = entries_model(entries@);
            entries.push(pair);
            proof {
                assert(entries_model(entries@) =~~= oldm.push(fplugins[ei as int]));
                assert((base + fplugins.take(ei as int)).push(fplugins[ei as int]) =~~= base
                    + fplugins.take(ei + 1));
                assert(entries_model(entries@) == base + fplugins.take(ei + 1));
            }
            ei = ei + 1;
        }
        if offline_acc.is_none() {
            offline_acc = files[fi].config.offline;
        }
        if timeout_acc.is_none() {
            timeout_acc = files[fi].config.http_timeout;
        }
        proof {
            assert(fplugins.take(fplugins.len() as int) =~= fplugins);
            assert(docs_of(fv.take(fi + 1)).drop_last() =~= docs_of(fv.take(fi as int)));
            assert(docs_of(fv.take(fi + 1)).last() == docs[fi as int]);
            assert(all_entries(docs_of(fv.take(fi + 1))) == all_entries(
                docs_of(fv.take(fi as int)),
            ) + fplugins);
            assert(docs.skip(fi as int)[0] == docs[fi as int]);
            assert(docs.skip(fi as int).drop_first() =~= docs.skip(fi + 1));
        }
        fi = fi + 1;
    }
    proof {
        assert(fv.take(files.len() as int) =~= fv);
        assert(docs.skip(files.len() as int) =~= Seq::<DocModel>::empty());
    }
    let offline = match offline_acc {
        Some(b) => b,
        None => false,
    };
    let http_timeout_secs = match timeout_acc {
        Some(v) => v,
        None => 30,
    };
    let ghost em = entries_model(entries@);
    let mut plugins: Vec<(String, PluginLocator)> = Vec::new();
    let mut k: usize = 0;
    proof {
        assert(em.take(0) =~= Seq::<(Seq<char>, LocatorModel)>::empty());
        assert forall|id: Seq<char>|
            #[trigger] lookup_entry(entries_model(plugins@), id) == lookup_entry(
            em.take(0),
            id,
        ) by {
            assert(entries_model(plugins@) =~= Seq::<(Seq<char>, LocatorModel)>::empty());
        }
    }
    while k < entries.len()
        invariant
            k <= entries.len(),
            em == entries_model(entries@),
            em.len() == entries@.len(),
            plugins@.len() == entries_model(plugins@).len(),
            forall|id: Seq<char>|
                #[trigger] lookup_entry(entries_model(plugins@), id) == lookup_entry(
                    em.take(k as int),
                    id,
                ),
            forall|i: int, j: int|
                0 <= i < j < plugins@.len() ==> (#[trigger] entries_model(plugins@)[i]).0 != (
                #[trigger] entries_model(plugins@)[j]).0,
        decreases entries.len() - k,
    {
        let ghost pm = entries_model(plugins@);
        let mut present = false;
        let mut t: usize = 0;
        while t < plugins.len()
            invariant
                t <= plugins.len(),
                pm == entries_model(plugins@),
                pm.len() == plugins@.len(),
                k < entries@.len(),
                em == entries_model(entries@),
                present == exists|w: int| 0 <= w < t && (#[trigger] pm[w]).0 == em[k as int].0,
            decreases plugins.len() - t,
        {
            if str_eq(plugins[t].0.as_str(), entries[k].0.as_str()) {
                proof {
                    assert((#[trigger] pm[t as int]).0 == em[k as int].0);
                }
                present = true;
            }
            t = t + 1;
        }
        proof {
            lemma_lookup_exists(pm, em[k as int].0);
            assert(em.take(k + 1) =~= em.take(k as int) + seq![em[k as int]]);
            assert(seq![em[k as int]].drop_first() =~= Seq::<(Seq<char>, LocatorModel)>::empty());
            assert(lookup_entry(Seq::<(Seq<char>, LocatorModel)>::empty(), em[k as int].0) is None);
        }
        if present {
            proof {
                assert(lookup_entry(pm, em[k as int].0) is Some);
                assert forall|id: Seq<char>|
                    #[trigger] lookup_entry(entries_model(plugins@), id) == lookup_entry(
                    em.take(k + 1),
                    id,
                ) by {
                    assert(lookup_entry(Seq::<(Seq<char>, LocatorModel)>::empty(), id) is None);
                    lemma_lookup_append(em.take(k as int), seq![em[k as int]], id);
                }
            }
        } else {
            let e = &entries[k];
            plugins.push((e.0.clone(), e.1.clone()));
            proof {
                assert(entries_model(plugins@) =~~= pm + seq![em[k as int]]);
                assert(lookup_entry(pm, em[k as int].0) is None);
                assert forall|id: Seq<char>|
                    #[trigger] lookup_entry(entries_model(plugins@), id) == lookup_entry(
                    em.take(k + 1),
                    id,
                ) by {
                    assert(lookup_entry(Seq::<(Seq<char>, LocatorModel)>::empty(), id) is None);
                    lemma_lookup_append(pm, seq![em[k as int]], id);
                    lemma_lookup_append(em.take(k as int), seq![em[k as int]], id);
                }
                assert forall|i: int, j: int|
                    0 <= i < j < plugins@.len() implies (#[trigger] entries_model(plugins@)[i]).0
                    != (#[trigger] entries_model(plugins@)[j]).0 by {
                    if j == plugins@.len() - 1 {
                        assert(entries_model(plugins@)[i] == pm[i]);
                        lemma_lookup_exists(pm, em[k as int].0);
                        if pm[i].0 == em[k as int].0 {
                            assert(exists|w: int|
                                0 <= w < pm.len() && (#[trigger] pm[w]).0 == em[k as int].0);
                        }
                    } else {
                        assert(entries_model(plugins@)[i] == pm[i]);
                        assert(entries_model(plugins@)[j] == pm[j]);
                    }
                }
            }
        }
        k = k + 1;
    }
    proof {
        assert(em.take(entries@.len() as int) =~= em);
    }
    ProtoConfig { plugins, offline, http_timeout_secs }
}

/// The ordered stack of configuration files, nearest to the working
/// directory first, the global file last, with the merge cached after it
/// is first computed.
pub struct ProtoConfigManager {
    /// The layered files.
    pub files: Vec<ProtoConfigFile>,
    /// The cached merge; `None` until first requested.
    pub merged: Option<ProtoConfig>,
}

impl ProtoConfigManager {
    /// A cached merge, when present, is the merge of the files.
    pub open spec fn wf(&self) -> bool {
        match self.merged {
            Some(c) => is_merged_of(c@, docs_of(self.files.deep_view())),
            None => true,
        }
    }

    /// A fresh manager over the given files; nothing merged yet.
    pub fn new(files: Vec<ProtoConfigFile>) -> (r: ProtoConfigManager)
        ensures
            r.files == files,
            r.merged is None,
            r.wf(),
    {
        ProtoConfigManager { files, merged: None }
    }

    /// The merged configuration. The merge is computed on first call and
    /// cached; later calls return the cached result without re-merging, so
    /// every caller observes the same configuration.
    pub fn get_merged_config(&mut self) -> (r: ProtoConfig)
        requires
            old(self).wf(),
        ensures
            is_merged_of(r@, docs_of(old(self).files.deep_view())),
            final(self).files == old(self).files,
            final(self).merged matches Some(c) && c@ == r@,
            final(self).wf(),
            old(self).merged matches Some(c) ==> *final(self) == *old(self) && r@ == c@,
    {
        if let Some(c) = &self.merged {
            return c.clone();
        }
        let cfg = merge_config_files(&self.files);
        let out = cfg.clone();
        self.merged = Some(cfg);
        out
    }
}

} // verus!
