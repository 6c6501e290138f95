//! The build report: one entry per item that failed or was ignored, so a
//! failure never aborts the remaining work but is still visible.

use vstd::prelude::*;

verus! {

/// One reported incident of a build.
pub enum BuildLogEntry {
    /// A template file that did not compile, by registration name.
    TemplateRejected { name: String },
    /// A helper script that did not compile, by registration name.
    HelperRejected { name: String },
    /// A file in the template or script directory that is not a template
    /// or script, ignored.
    FileIgnored { name: String },
    /// A page whose rendering failed, by root-relative source path.
    RenderFailed { path: String },
    /// An asset that had to be read as text but is not valid text, by
    /// root-relative path.
    AssetUnreadable { path: String },
    /// A stylesheet that did not compile, by root-relative path.
    StylesheetRejected { path: String },
}

/// The view of [`BuildLogEntry`].
#[verifier::ext_equal]
pub ghost enum BuildLogV {
    TemplateRejected { name: Seq<char> },
    HelperRejected { name: Seq<char> },
    FileIgnored { name: Seq<char> },
    RenderFailed { path: Seq<char> },
    AssetUnreadable { path: Seq<char> },
    StylesheetRejected { path: Seq<char> },
}

impl View for BuildLogEntry {
    type V = BuildLogV;

    open spec fn view(&self) -> BuildLogV {
        match self {
            BuildLogEntry::TemplateRejected { name } => BuildLogV::TemplateRejected {
                name: name@,
            },
            BuildLogEntry::HelperRejected { name } => BuildLogV::HelperRejected { name: name@ },
            BuildLogEntry::FileIgnored { name } => BuildLogV::FileIgnored { name: name@ },
            BuildLogEntry::RenderFailed { path } => BuildLogV::RenderFailed { path: path@ },
            BuildLogEntry::AssetUnreadable { path } => BuildLogV::AssetUnreadable { path: path@ },
            BuildLogEntry::StylesheetRejected { path } => BuildLogV::StylesheetRejected {
                path: path@,
            },
        }
    }
}

/// The view of a report.
pub open spec fn report_view(r: Seq<BuildLogEntry>) -> Seq<BuildLogV> {
    r.map_values(|e: BuildLogEntry| e@)
}

} // verus!
