//! Plugin locators: where a plugin comes from.

use vstd::prelude::*;

use crate::text::is_prefix_of;
use crate::text::str_eq;
use crate::text::str_starts_with;

verus! {

/// Closed sum of the places a plugin can be loaded from.
#[derive(Debug)]
pub enum PluginLocator {
    /// A plugin manifest on the local filesystem.
    SourcePath { path: String },
    /// A plugin fetched from a remote URL.
    SourceUrl { url: String },
    /// A plugin named in the registry, e.g. `name@version`.
    Registry { name: String },
}

/// Mathematical image of a [`PluginLocator`].
pub enum LocatorModel {
    SourcePath(Seq<char>),
    SourceUrl(Seq<char>),
    Registry(Seq<char>),
}

impl View for PluginLocator {
    type V = LocatorModel;

    open spec fn view(&self) -> LocatorModel {
        match self {
            PluginLocator::SourcePath { path } => LocatorModel::SourcePath(path@),
            PluginLocator::SourceUrl { url } => LocatorModel::SourceUrl(url@),
            PluginLocator::Registry { name } => LocatorModel::Registry(name@),
        }
    }
}

impl DeepView for PluginLocator {
    type V = LocatorModel;

    open spec fn deep_view(&self) -> LocatorModel {
        self.view()
    }
}

impl Clone for PluginLocator {
    /// A clone denotes the same plugin source.
    fn clone(&self) -> (r: Self)
        ensures
            r@ == self@,
    {
        match self {
            PluginLocator::SourcePath { path } => PluginLocator::SourcePath { path: path.clone() },
            PluginLocator::SourceUrl { url } => PluginLocator::SourceUrl { url: url.clone() },
            PluginLocator::Registry { name } => PluginLocator::Registry { name: name.clone() },
        }
    }
}

/// Two locators are equal iff variant and payload match.
pub fn locator_eq(a: &PluginLocator, b: &PluginLocator) -> (r: bool)
    ensures
        r == (a@ == b@),
{
    match (a, b) {
        (PluginLocator::SourcePath { path: x }, PluginLocator::SourcePath { path: y }) => str_eq(
            x.as_str(),
            y.as_str(),
        ),
        (PluginLocator::SourceUrl { url: x }, PluginLocator::SourceUrl { url: y }) => str_eq(
            x.as_str(),
            y.as_str(),
        ),
        (PluginLocator::Registry { name: x }, PluginLocator::Registry { name: y }) => str_eq(
            x.as_str(),
            y.as_str(),
        ),
        _ => false,
    }
}

/// Result of reading a locator out of its textual form: `path:...`,
/// `url:...` or `registry:...`; anything else is malformed.
pub open spec fn parse_locator_spec(v: Seq<char>) -> Option<LocatorModel> {
    if is_prefix_of("path:"@, v) {
        Some(LocatorModel::SourcePath(v.skip("path:"@.len() as int)))
    } else if is_prefix_of("url:"@, v) {
        Some(LocatorModel::SourceUrl(v.skip("url:"@.len() as int)))
    } else if is_prefix_of("registry:"@, v) {
        Some(LocatorModel::Registry(v.skip("registry:"@.len() as int)))
    } else {
        None
    }
}

/// Parses the textual form of a locator.
pub fn parse_locator(value: &str) -> (r: Option<PluginLocator>)
    ensures
        match r {
            Some(l) => parse_locator_spec(value@) == Some(l@),
            None => parse_locator_spec(value@) is None,
        },
{
    let n = value.unicode_len();
    if str_starts_with(value, "path:") {
        proof {
            reveal_strlit("path:");
        }
        let path = value.substring_char(5, n).to_owned();
        proof {
            assert(path@ =~= value@.skip(5));
        }
        Some(PluginLocator::SourcePath { path })
    } else if str_starts_with(value, "url:") {
        proof {
            reveal_strlit("url:");
        }
        let url = value.substring_char(4, n).to_owned();
        proof {
            assert(url@ =~= value@.skip(4));
        }
        Some(PluginLocator::SourceUrl { url })
    } else if str_starts_with(value, "registry:") {
        proof {
            reveal_strlit("registry:");
        }
        let name = value.substring_char(9, n).to_owned();
        proof {
            assert(name@ =~= value@.skip(9));
        }
        Some(PluginLocator::Registry { name })
    } else {
        None
    }
}

} // verus!
