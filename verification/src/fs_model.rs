//! The filesystem as the scans see it: a listed directory entry, a snapshot
//! of a subtree, and the trusted wrappers that query the real disk. Every
//! decision taken on what these wrappers return is made by verified code in
//! the discovery and launch modules.

use vstd::prelude::*;

verus! {

/// What one directory entry looked like when its directory was listed:
/// the entry's name and its file type.
pub struct DirEntryInfo {
    pub name: String,
    pub kind: EntryKind,
}

/// A listed entry is a regular file, a directory, or something else
/// (a symbolic link, a socket, or an entry whose type could not be read);
/// the scans only ever act on the first two.
#[derive(Clone, Copy, PartialEq, Eq, Structural)]
pub enum EntryKind {
    File,
    Dir,
    Other,
}

/// A snapshot of part of a filesystem tree: what the recursive executable
/// scan walks. A directory that could not be read appears with no children.
pub enum FsNode {
    File { name: String },
    Dir { name: String, children: Vec<FsNode> },
}

/// Relies on `std::path::Path::exists`: whether something sits at this path
/// on disk. The outcome depends on the machine's disk, so nothing is
/// promised of it.
#[verifier::external_body]
pub(crate) fn path_exists(p: &str) -> bool {
    std::path::Path::new(p).exists()
}

/// Relies on `std::path::Path::is_dir`: whether the path names a directory.
/// The outcome depends on the machine's disk, so nothing is promised of it.
#[verifier::external_body]
pub(crate) fn path_is_dir(p: &str) -> bool {
    std::path::Path::new(p).is_dir()
}

/// Relies on `std::path::Path::read_dir`: lists a directory's entries, each
/// converted to its name and file type; `None` when the directory or one of
/// its entries cannot be read. Order and content depend on the machine's
/// disk, so nothing is promised of the result.
#[verifier::external_body]
pub(crate) fn read_dir_entries(p: &str) -> Option<Vec<DirEntryInfo>> {
    let rd = std::path::Path::new(p).read_dir().ok()?;
    let mut v: Vec<DirEntryInfo> = Vec::new();
    for entry in rd {
        let e = entry.ok()?;
        let kind = match e.file_type() {
            Ok(t) if t.is_file() => EntryKind::File,
            Ok(t) if t.is_dir() => EntryKind::Dir,
            _ => EntryKind::Other,
        };
        v.push(DirEntryInfo { name: e.file_name().to_string_lossy().into_owned(), kind });
    }
    Some(v)
}

} // verus!
