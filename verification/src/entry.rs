//! Classification of a single directory entry.
//!
//! A directory entry is described by plain values: its name, its file-type
//! flags, its length and its permission bits. The classifier decides whether
//! the entry is a directory to traverse, a file to test against the search
//! target, or something to skip: symlinks and special files (to avoid cycles
//! and non-file semantics), zero-length files, and entries the current
//! process may not read.

use vstd::prelude::*;

verus! {

/// The permission bits that grant some form of read access
/// (owner, group or other).
pub const READ_BITS: u32 = 0o444;

/// What one directory entry looks like, as plain values: the file-type flags
/// reported for it, its metadata length, and its permission bits.
/// `mode` is `None` when the metadata needed for the readability test could
/// not be retrieved; such an entry counts as unreadable and is skipped.
#[derive(Clone)]
pub struct EntryMeta {
    pub name: String,
    pub is_symlink: bool,
    pub is_block_device: bool,
    pub is_char_device: bool,
    pub is_fifo: bool,
    pub is_socket: bool,
    pub is_file: bool,
    pub is_dir: bool,
    pub len: u64,
    pub mode: Option<u32>,
}

/// The three outcomes of classification.
#[derive(PartialEq, Eq, Structural, Clone, Copy, Debug)]
pub enum EntryClass {
    /// A subdirectory: traverse it as a task of its own.
    Directory,
    /// A regular, non-empty, readable file: test its name against the target.
    File,
    /// Everything else: ignore it.
    Skip,
}

/// A symlink or a special file (block device, character device, FIFO,
/// socket): never traversed and never matched.
pub open spec fn is_special(m: EntryMeta) -> bool {
    m.is_symlink || m.is_block_device || m.is_char_device || m.is_fifo || m.is_socket
}

/// Whether permission bits grant read access. An entry whose metadata could
/// not be retrieved counts as unreadable.
pub open spec fn spec_readable(mode: Option<u32>) -> bool {
    match mode {
        Some(bits) => bits & READ_BITS != 0,
        None => false,
    }
}

/// The classification rule: symlinks and special files are skipped, then
/// zero-length and unreadable entries, then a regular file is `File`, a
/// directory is `Directory`, and anything else is skipped.
pub open spec fn spec_classify(m: EntryMeta) -> EntryClass {
    if is_special(m) {
        EntryClass::Skip
    } else if m.len == 0 || !spec_readable(m.mode) {
        EntryClass::Skip
    } else if m.is_file {
        EntryClass::File
    } else if m.is_dir {
        EntryClass::Directory
    } else {
        EntryClass::Skip
    }
}

/// Decides whether the permission bits grant read access to anyone.
pub fn mode_allows_read(mode: &Option<u32>) -> (r: bool)
    ensures
        r == spec_readable(*mode),
{
    match mode {
        Some(bits) => *bits & READ_BITS != 0,
        None => false,
    }
}

/// Classifies one directory entry.
pub fn classify(m: &EntryMeta) -> (c: EntryClass)
    ensures
        c == spec_classify(*m),
{
    if m.is_symlink || m.is_block_device || m.is_char_device || m.is_fifo || m.is_socket {
        EntryClass::Skip
    } else if m.len == 0 || !mode_allows_read(&m.mode) {
        EntryClass::Skip
    } else if m.is_file {
        EntryClass::File
    } else if m.is_dir {
        EntryClass::Directory
    } else {
        EntryClass::Skip
    }
}

/// A symlink is always skipped, so a cycle through a symlink is never
/// entered: the walk only recurses into entries classified `Directory`.
pub proof fn lemma_symlink_is_skipped(m: EntryMeta)
    requires
        m.is_symlink,
    ensures
        spec_classify(m) == EntryClass::Skip,
{
}

} // verus!
