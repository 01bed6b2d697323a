//! The error taxonomy of the runtime core.

use vstd::prelude::*;

use crate::locator::LocatorModel;
use crate::locator::PluginLocator;

verus! {

/// Every failure the core can report. Each variant keeps the paths, ids or
/// locators a caller needs to render an actionable message.
#[derive(Debug)]
pub enum ProtoError {
    /// A configuration file exists but is malformed; fatal to the whole load.
    Config { path: String },
    /// A network fetch was required while offline and nothing was cached.
    Offline { locator: PluginLocator },
    /// A fetch or parse of a plugin failed for a reason other than being
    /// offline.
    PluginFetch { locator: PluginLocator, reason: String },
    /// The artifact's digest appears nowhere in the checksum manifest.
    InvalidChecksum { download_path: String, checksum_path: String },
    /// A parallel tool-load task failed; carries the id of the tool.
    ToolLoad { id: String },
}

/// Mathematical image of a [`ProtoError`].
pub enum ErrorModel {
    Config(Seq<char>),
    Offline(LocatorModel),
    PluginFetch(LocatorModel, Seq<char>),
    InvalidChecksum(Seq<char>, Seq<char>),
    ToolLoad(Seq<char>),
}

impl View for ProtoError {
    type V = ErrorModel;

    open spec fn view(&self) -> ErrorModel {
        match self {
            ProtoError::Config { path } => ErrorModel::Config(path@),
            ProtoError::Offline { locator } => ErrorModel::Offline(locator@),
            ProtoError::PluginFetch { locator, reason } => ErrorModel::PluginFetch(
                locator@,
                reason@,
            ),
            ProtoError::InvalidChecksum { download_path, checksum_path } =>
                ErrorModel::InvalidChecksum(download_path@, checksum_path@),
            ProtoError::ToolLoad { id } => ErrorModel::ToolLoad(id@),
        }
    }
}

/// The rendered message of an error.
pub open spec fn message_spec(e: ErrorModel) -> Seq<char> {
    match e {
        ErrorModel::Config(path) => "config file "@ + path + " is malformed"@,
        ErrorModel::Offline(l) => "offline: required fetch for "@ + locator_text_spec(l)
            + " has no cached copy"@,
        ErrorModel::PluginFetch(l, reason) => "failed to fetch "@ + locator_text_spec(l) + ": "@
            + reason,
        ErrorModel::InvalidChecksum(download, checksum) => "checksum of "@ + download
            + " does not match any entry of "@ + checksum,
        ErrorModel::ToolLoad(id) => "failed to load tool "@ + id,
    }
}

/// The textual form of a locator, as it appears in messages and in config
/// values.
pub open spec fn locator_text_spec(l: LocatorModel) -> Seq<char> {
    match l {
        LocatorModel::SourcePath(p) => "path:"@ + p,
        LocatorModel::SourceUrl(u) => "url:"@ + u,
        LocatorModel::Registry(n) => "registry:"@ + n,
    }
}

/// Renders a locator back to its textual form.
pub fn locator_text(l: &PluginLocator) -> (r: String)
    ensures
        r@ == locator_text_spec(l@),
{
    let mut out = String::new();
    match l {
        PluginLocator::SourcePath { path } => {
            out.append("path:");
            out.append(path.as_str());
        },
        PluginLocator::SourceUrl { url } => {
            out.append("url:");
            out.append(url.as_str());
        },
        PluginLocator::Registry { name } => {
            out.append("registry:");
            out.append(name.as_str());
        },
    }
    out
}

impl ProtoError {
    /// A human-readable description that keeps all diagnostic context.
    pub fn message(&self) -> (r: String)
        ensures
            r@ == message_spec(self@),
    {
        let mut out = String::new();
        match self {
            ProtoError::Config { path } => {
                out.append("config file ");
                out.append(path.as_str());
                out.append(" is malformed");
            },
            ProtoError::Offline { locator } => {
                out.append("offline: required fetch for ");
                out.append(locator_text(locator).as_str());
                out.append(" has no cached copy");
            },
            ProtoError::PluginFetch { locator, reason } => {
                out.append("failed to fetch ");
                out.append(locator_text(locator).as_str());
                out.append(": ");
                out.append(reason.as_str());
            },
            ProtoError::InvalidChecksum { download_path, checksum_path } => {
                out.append("checksum of ");
                out.append(download_path.as_str());
                out.append(" does not match any entry of ");
                out.append(checksum_path.as_str());
            },
            ProtoError::ToolLoad { id } => {
                out.append("failed to load tool ");
                out.append(id.as_str());
            },
        }
        out
    }
}

} // verus!
