//! One configuration document: its grammar and its verified parser.
//!
//! A document is a sequence of `'\n'`-separated lines. A line is empty, a
//! `#` comment, or `key=value`. A key `plugins.<id>` maps the tool id to a
//! plugin locator; the key `offline` takes `true` or `false`. Unknown keys
//! are ignored so that newer settings do not break older readers. A line
//! with no `=` (and not blank or a comment), an empty id, a malformed
//! locator or a malformed boolean makes the whole document malformed.

use vstd::prelude::*;

use crate::locator::LocatorModel;
use crate::locator::PluginLocator;
use crate::locator::parse_locator;
use crate::locator::parse_locator_spec;
use crate::text::find_char;
use crate::text::find_char_spec;
use crate::text::is_prefix_of;
use crate::text::parse_u64;
use crate::text::parse_u64_spec;
use crate::text::split_lines;
use crate::text::split_lines_spec;
use crate::text::str_eq;
use crate::text::str_starts_with;

verus! {

/// What one line of a document contributes.
pub enum LineModel {
    /// Blank line, comment, or unknown key.
    Skip,
    /// One `plugins.<id>=<locator>` entry.
    Plugin(Seq<char>, LocatorModel),
    /// The `offline` setting.
    Offline(bool),
    /// The `http-timeout` setting, in seconds.
    HttpTimeout(u64),
}

/// Mathematical image of a parsed document.
pub struct DocModel {
    /// The plugin entries in the order the file gives them.
    pub plugins: Seq<(Seq<char>, LocatorModel)>,
    /// The first `offline` setting of the file, if any.
    pub offline: Option<bool>,
    /// The first `http-timeout` setting of the file, if any.
    pub http_timeout: Option<u64>,
}

/// The image of a document with no lines.
pub open spec fn empty_doc_model() -> DocModel {
    DocModel { plugins: Seq::empty(), offline: None, http_timeout: None }
}

/// What one line parses to, or `None` when it is malformed.
pub open spec fn parse_line_spec(l: Seq<char>) -> Option<LineModel> {
    if l.len() == 0 {
        Some(LineModel::Skip)
    } else if l[0] == '#' {
        Some(LineModel::Skip)
    } else {
        let i = find_char_spec(l, '=');
        if i < 0 {
            None
        } else {
            let key = l.take(i);
            let value = l.skip(i + 1);
            if is_prefix_of("plugins."@, key) {
                let id = key.skip("plugins."@.len() as int);
                if id.len() == 0 {
                    None
                } else {
                    match parse_locator_spec(value) {
                        Some(loc) => Some(LineModel::Plugin(id, loc)),
                        None => None,
                    }
                }
            } else if key == "offline"@ {
                if value == "true"@ {
                    Some(LineModel::Offline(true))
                } else if value == "false"@ {
                    Some(LineModel::Offline(false))
                } else {
                    None
                }
            } else if key == "http-timeout"@ {
                match parse_u64_spec(value) {
                    Some(v) => Some(LineModel::HttpTimeout(v)),
                    None => None,
                }
            } else {
                Some(LineModel::Skip)
            }
        }
    }
}

/// Folds one parsed line into the document built so far. The first
/// `offline` line of a file wins; plugin entries keep file order.
pub open spec fn doc_apply_line(acc: DocModel, line: LineModel) -> DocModel {
    match line {
        LineModel::Skip => acc,
        LineModel::Plugin(id, loc) => DocModel { plugins: acc.plugins.push((id, loc)), ..acc },
        LineModel::Offline(b) => if acc.offline is Some {
            acc
        } else {
            DocModel { offline: Some(b), ..acc }
        },
        LineModel::HttpTimeout(v) => if acc.http_timeout is Some {
            acc
        } else {
            DocModel { http_timeout: Some(v), ..acc }
        },
    }
}

/// What a sequence of lines parses to; `None` as soon as any line is
/// malformed.
pub open spec fn parse_lines_spec(lines: Seq<Seq<char>>) -> Option<DocModel>
    decreases lines.len(),
{
    if lines.len() == 0 {
        Some(empty_doc_model())
    } else {
        match parse_lines_spec(lines.drop_last()) {
            None => None,
            Some(acc) => match parse_line_spec(lines.last()) {
                None => None,
                Some(lm) => Some(doc_apply_line(acc, lm)),
            },
        }
    }
}

/// What a whole document text parses to.
pub open spec fn parse_config_spec(text: Seq<char>) -> Option<DocModel> {
    parse_lines_spec(split_lines_spec(text))
}

/// Once a prefix of the lines is malformed, the whole document is.
pub proof fn lemma_parse_lines_none_prefix(lines: Seq<Seq<char>>, k: int)
    requires
        0 <= k <= lines.len(),
        parse_lines_spec(lines.take(k)) is None,
    ensures
        parse_lines_spec(lines) is None,
    decreases lines.len() - k,
{
    if k == lines.len() {
        assert(lines.take(k) =~= lines);
    } else {
        assert(lines.take(k + 1).drop_last() =~= lines.take(k));
        lemma_parse_lines_none_prefix(lines, k + 1);
    }
}

/// The image of a sequence of plugin entries.
pub open spec fn entries_model(s: Seq<(String, PluginLocator)>) -> Seq<(Seq<char>, LocatorModel)> {
    s.map_values(|e: (String, PluginLocator)| (e.0@, e.1@))
}

/// One parsed configuration document.
pub struct ConfigDocument {
    /// The `plugins.<id>` entries, in file order.
    pub plugins: Vec<(String, PluginLocator)>,
    /// The file's `offline` setting, if it has one.
    pub offline: Option<bool>,
    /// The file's `http-timeout` setting (seconds), if it has one.
    pub http_timeout: Option<u64>,
}

impl View for ConfigDocument {
    type V = DocModel;

    open spec fn view(&self) -> DocModel {
        DocModel {
            plugins: entries_model(self.plugins@),
            offline: self.offline,
            http_timeout: self.http_timeout,
        }
    }
}

impl ConfigDocument {
    /// The document an absent file contributes: no entries, no settings.
    pub fn empty() -> (r: ConfigDocument)
        ensures
            r@ == empty_doc_model(),
    {
        let r = ConfigDocument { plugins: Vec::new(), offline: None, http_timeout: None };
        proof {
            assert(r@.plugins =~= empty_doc_model().plugins);
        }
        r
    }
}

/// What one line contributes, as executable data.
pub enum LineAction {
    Skip,
    Plugin(String, PluginLocator),
    Offline(bool),
    HttpTimeout(u64),
}

impl View for LineAction {
    type V = LineModel;

    open spec fn view(&self) -> LineModel {
        match self {
            LineAction::Skip => LineModel::Skip,
            LineAction::Plugin(id, loc) => LineModel::Plugin(id@, loc@),
            LineAction::Offline(b) => LineModel::Offline(*b),
            LineAction::HttpTimeout(v) => LineModel::HttpTimeout(*v),
        }
    }
}

/// Parses one line.
fn parse_line(line: &str) -> (r: Option<LineAction>)
    ensures
        match r {
            Some(a) => parse_line_spec(line@) == Some(a@),
            None => parse_line_spec(line@) is None,
        },
{
    let n = line.unicode_len();
    if n == 0 {
        return Some(LineAction::Skip);
    }
    if line.get_char(0) == '#' {
        return Some(LineAction::Skip);
    }
    match find_char(line, '=') {
        None => None,
        Some(i) => {
            let key = line.substring_char(0, i);
            let value = line.substring_char(i + 1, n);
            proof {
                assert(key@ =~= line@.take(i as int));
                assert(value@ =~= line@.skip(i + 1));
            }
            if str_starts_with(key, "plugins.") {
                proof {
                    reveal_strlit("plugins.");
                }
                let id = key.substring_char(8, i).to_owned();
                proof {
                    assert(id@ =~= key@.skip(8));
                }
                if id.as_str().unicode_len() == 0 {
                    return None;
                }
                match parse_locator(value) {
                    Some(loc) => Some(LineAction::Plugin(id, loc)),
                    None => None,
                }
            } else if str_eq(key, "offline") {
                if str_eq(value, "true") {
                    Some(LineAction::Offline(true))
                } else if str_eq(value, "false") {
                    Some(LineAction::Offline(false))
                } else {
                    None
                }
            } else if str_eq(key, "http-timeout") {
                match parse_u64(value) {
                    Some(v) => Some(LineAction::HttpTimeout(v)),
                    None => None,
                }
            } else {
                Some(LineAction::Skip)
            }
        },
    }
}

/// Parses a whole document. On failure the result names the index of the
/// first malformed line.
pub fn parse_config(text: &str) -> (r: Result<ConfigDocument, usize>)
    ensures
        match r {
            Ok(doc) => parse_config_spec(text@) == Some(doc@),
            Err(i) => parse_config_spec(text@) is None && i < split_lines_spec(text@).len()
                && parse_line_spec(split_lines_spec(text@)[i as int]) is None,
        },
{
    let lines = split_lines(text);
    let ghost lv = lines.deep_view();
    let mut plugins: Vec<(String, PluginLocator)> = Vec::new();
    let mut offline: Option<bool> = None;
    let mut http_timeout: Option<u64> = None;
    let mut i: usize = 0;
    proof {
        assert(lv.take(0) =~= Seq::<Seq<char>>::empty());
        assert(entries_model(plugins@) =~= Seq::<(Seq<char>, LocatorModel)>::empty());
    }
    while i < lines.len()
        invariant
            i <= lines.len(),
            lv == lines.deep_view(),
            lv == split_lines_spec(text@),
            lv.len() == lines.len(),
            parse_lines_spec(lv.take(i as int)) == Some(
                DocModel { plugins: entries_model(plugins@), offline, http_timeout },
            ),
        decreases lines.len() - i,
    {
        let ghost pre = DocModel { plugins: entries_model(plugins@), offline, http_timeout };
        proof {
            assert(lv.take(i + 1).drop_last() =~= lv.take(i as int));
            assert(lv.take(i + 1).last() == lv[i as int]);
            assert(lv[i as int] == lines@[i as int]@);
        }
        match parse_line(lines[i].as_str()) {
            None => {
                proof {
                    assert(parse_lines_spec(lv.take(i + 1)) is None);
                    lemma_parse_lines_none_prefix(lv, i + 1);
                }
                return Err(i);
            },
            Some(LineAction::Skip) => {
                proof {
                    assert(parse_lines_spec(lv.take(i + 1)) == Some(pre));
                }
            },
            Some(LineAction::Plugin(id, loc)) => {
                let ghost idv = id@;
                let ghost locv = loc@;
                plugins.push((id, loc));
                proof {
                    assert(entries_model(plugins@) =~= pre.plugins.push((idv, locv)));
                }
            },
            Some(LineAction::Offline(b)) => {
                if offline.is_none() {
                    offline = Some(b);
                }
            },
            Some(LineAction::HttpTimeout(v)) => {
                if http_timeout.is_none() {
                    http_timeout = Some(v);
                }
            },
        }
        i = i + 1;
    }
    proof {
        assert(lv.take(lines.len() as int) =~= lv);
    }
    Ok(ConfigDocument { plugins, offline, http_timeout })
}

} // verus!
