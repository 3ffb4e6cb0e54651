//! The wire formats a manifest file may use on disk.

use vstd::prelude::*;

verus! {

/// The file format of the raw manifest on disk.
///
/// The embedding installs a matching format adapter for each variant;
/// `Custom` means the author registers an adapter of their own.
#[derive(Clone, Copy, Debug, PartialEq, Eq, Structural)]
pub enum ManifestFormat {
    /// A Rust-oriented configuration format, easy for humans and machines
    /// to read and write.
    Ron,
    /// A standard configuration format, easy for humans and machines to read
    /// and write.
    Json,
    /// A configuration format that accepts complex data structures, with a
    /// focus on human-editable data.
    Yaml,
    /// A configuration format that emphasizes readability and simplicity,
    /// with a focus on human-editable data.
    Toml,
    /// A markup language encoding documents readably for humans and machines.
    Xml,
    /// A simple text-based tabular format: rows separated by newlines,
    /// columns by commas.
    Csv,
    /// A JSON-derived binary format.
    MsgPack,
    /// A format of the author's own; the author registers the adapter.
    Custom,
}

} // verus!
