//! Files a build produces: each write is a path relative to the output
//! root, with text or raw bytes to put there.

use vstd::prelude::*;

verus! {

/// One file to be written under the output root.
#[allow(inconsistent_fields)]
pub enum OutputFile {
    Text { path: String, data: String },
    Binary { path: String, data: Vec<u8> },
}

/// The view of [`OutputFile`].
#[verifier::ext_equal]
#[allow(inconsistent_fields)]
pub ghost enum OutputFileV {
    Text { path: Seq<char>, data: Seq<char> },
    Binary { path: Seq<char>, data: Seq<u8> },
}

impl View for OutputFile {
    type V = OutputFileV;

    open spec fn view(&self) -> OutputFileV {
        match self {
            OutputFile::Text { path, data } => OutputFileV::Text { path: path@, data: data@ },
            OutputFile::Binary { path, data } => OutputFileV::Binary { path: path@, data: data@ },
        }
    }
}

/// The view of a list of writes.
pub open spec fn outputs_view(w: Seq<OutputFile>) -> Seq<OutputFileV> {
    w.map_values(|o: OutputFile| o@)
}

} // verus!
