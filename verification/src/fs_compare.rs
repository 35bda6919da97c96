//! The decisions of comparing two directory trees: which entries match and,
//! chunk by chunk, whether two files hold the same bytes. The caller walks
//! the trees and reads the files.

use vstd::prelude::*;

verus! {

/// The next step of comparing two files.
#[derive(Debug, Clone, Copy, PartialEq, Eq, Structural)]
pub enum CompareStep {
    /// The files are equal.
    Same,
    /// The files differ.
    Differ,
    /// The first `n` bytes of both buffers agree: consume them and read on.
    Advance(usize),
}

/// Files of different sizes differ; otherwise their contents decide.
pub fn size_step(len_a: u64, len_b: u64) -> (r: CompareStep)
    ensures
        r == if len_a != len_b {
            CompareStep::Differ
        } else {
            CompareStep::Advance(0)
        },
{
    if len_a != len_b {
        CompareStep::Differ
    } else {
        CompareStep::Advance(0)
    }
}

/// Compares the buffered bytes of two files: both at their end means equal
/// files, one at its end means different ones; otherwise the shorter buffer's
/// length of bytes is compared.
pub fn compare_step(a: &[u8], b: &[u8]) -> (r: CompareStep)
    ensures
        a@.len() == 0 && b@.len() == 0 ==> r == CompareStep::Same,
        (a@.len() == 0) != (b@.len() == 0) ==> r == CompareStep::Differ,
        a@.len() > 0 && b@.len() > 0 ==> {
            let n = if a@.len() < b@.len() {
                a@.len()
            } else {
                b@.len()
            };
            if a@.take(n as int) == b@.take(n as int) {
                r == CompareStep::Advance(n as usize)
            } else {
                r == CompareStep::Differ
            }
        },
{
    if a.len() == 0 && b.len() == 0 {
        return CompareStep::Same;
    }
    let n = if a.len() < b.len() {
        a.len()
    } else {
        b.len()
    };
    if n == 0 {
        return CompareStep::Differ;
    }
    let mut i: usize = 0;
    while i < n
        invariant
            n <= a@.len(),
            n <= b@.len(),
            i <= n,
            forall|j: int| 0 <= j < i ==> a@[j] == b@[j],
        decreases n - i,
    {
        if a[i] != b[i] {
            assert(a@.take(n as int)[i as int] != b@.take(n as int)[i as int]);
            return CompareStep::Differ;
        }
        i = i + 1;
    }
    assert(a@.take(n as int) =~= b@.take(n as int));
    CompareStep::Advance(n)
}

/// What a directory entry is.
#[derive(Debug, Clone, Copy, PartialEq, Eq, Structural)]
pub enum EntryKind {
    File,
    Dir,
    Symlink,
    Other,
}

/// An entry met while walking a directory tree (in file name order).
#[derive(Debug)]
pub struct EntryInfo {
    /// How deep below the walked directory the entry is.
    pub depth: usize,
    /// The entry's file name, as bytes.
    pub file_name: Vec<u8>,
    pub kind: EntryKind,
}

/// What to do with a pair of entries met at the same point of two walks.
#[derive(Debug, Clone, Copy, PartialEq, Eq, Structural)]
pub enum EntryStep {
    /// The walked directories themselves: not compared.
    Skip,
    /// The trees differ here.
    Mismatch,
    /// Two files of the same name: compare their contents.
    CompareFiles,
    /// The entries match: go on.
    Continue,
}

/// Compares two entries: the tops are skipped; depth, name and kind must
/// agree; files are then compared by content.
pub fn entry_step(a: &EntryInfo, b: &EntryInfo) -> (r: EntryStep)
    ensures
        r == if a.depth == 0 && b.depth == 0 {
            EntryStep::Skip
        } else if a.depth != b.depth || a.file_name@ != b.file_name@ || a.kind != b.kind {
            EntryStep::Mismatch
        } else if a.kind == EntryKind::File {
            EntryStep::CompareFiles
        } else {
            EntryStep::Continue
        },
{
    if a.depth == 0 && b.depth == 0 {
        return EntryStep::Skip;
    }
    if a.depth != b.depth || !bytes_equal(&a.file_name, &b.file_name) || a.kind != b.kind {
        return EntryStep::Mismatch;
    }
    if a.kind == EntryKind::File {
        EntryStep::CompareFiles
    } else {
        EntryStep::Continue
    }
}

/// Whether two byte strings are equal.
fn bytes_equal(a: &Vec<u8>, b: &Vec<u8>) -> (r: bool)
    ensures
        r == (a@ == b@),
{
    if a.len() != b.len() {
        return false;
    }
    let mut i: usize = 0;
    while i < a.len()
        invariant
            a@.len() == b@.len(),
            i <= a@.len(),
            forall|j: int| 0 <= j < i ==> a@[j] == b@[j],
        decreases a@.len() - i,
    {
        if a[i] != b[i] {
            return false;
        }
        i = i + 1;
    }
    assert(a@ =~= b@);
    true
}

} // verus!
