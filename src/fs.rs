//! The filesystem capability that the `fs/*` methods use, and the records it
//! returns. Paths are given already resolved against the working directory.

use vstd::prelude::*;
use crate::methods::{FsEntry, FsStatResult};
use vstd::string::*;
use vstd::utf8::encode_utf8;

verus! {

/// One entry of a directory.
pub struct DirEntry {
    pub name: String,
    pub path: String,
    pub is_dir: bool,
    pub size: u64,
}

/// What `stat` reports of a path.
pub struct FileStat {
    pub path: String,
    pub is_dir: bool,
    pub size: u64,
    /// Seconds since the UNIX epoch, if available.
    pub modified: Option<u64>,
}

/// Filesystem operations, implemented over the local disk, a remote host or
/// memory. Failures carry the underlying message.
pub trait Filesystem {
    fn list(&self, path: &str) -> Result<Vec<DirEntry>, String>;

    fn read(&self, path: &str) -> Result<String, String>;

    /// Writes `content`, creating parent directories.
    fn write(&self, path: &str, content: &str) -> Result<(), String>;

    fn stat(&self, path: &str) -> Result<FileStat, String>;

    /// Creates the directory and its parents.
    fn mkdir(&self, path: &str) -> Result<(), String>;

    /// Removes a file, or a directory with all it holds.
    fn remove(&self, path: &str) -> Result<(), String>;
}

/// Byte-wise lexicographic order, a prefix first.
pub open spec fn bytes_le(a: Seq<u8>, b: Seq<u8>) -> bool
    decreases a.len(),
{
    if a.len() == 0 {
        true
    } else if b.len() == 0 {
        false
    } else if a[0] != b[0] {
        a[0] < b[0]
    } else {
        bytes_le(a.drop_first(), b.drop_first())
    }
}

/// The order of a listing: directories first, then by name.
pub open spec fn listed_le(a: DirEntry, b: DirEntry) -> bool {
    if a.is_dir != b.is_dir {
        a.is_dir
    } else {
        bytes_le(encode_utf8(a.name@), encode_utf8(b.name@))
    }
}

pub proof fn lemma_bytes_le_total(a: Seq<u8>, b: Seq<u8>)
    ensures
        bytes_le(a, b) || bytes_le(b, a),
    decreases a.len(),
{
    if a.len() > 0 && b.len() > 0 && a[0] == b[0] {
        lemma_bytes_le_total(a.drop_first(), b.drop_first());
    }
}

pub proof fn lemma_bytes_le_transitive(a: Seq<u8>, b: Seq<u8>, c: Seq<u8>)
    requires
        bytes_le(a, b),
        bytes_le(b, c),
    ensures
        bytes_le(a, c),
    decreases a.len(),
{
    if a.len() > 0 && b.len() > 0 && c.len() > 0 && a[0] == b[0] && b[0] == c[0] {
        lemma_bytes_le_transitive(a.drop_first(), b.drop_first(), c.drop_first());
    }
}

/// Whether `a` goes no later than `b`, byte by byte.
fn bytes_le_exec(a: &[u8], b: &[u8]) -> (r: bool)
    ensures
        r == bytes_le(a@, b@),
{
    let mut i: usize = 0;
    assert(a@.subrange(0, a@.len() as int) =~= a@);
    assert(b@.subrange(0, b@.len() as int) =~= b@);
    while i < a.len() && i < b.len()
        invariant
            i <= a@.len(),
            i <= b@.len(),
            bytes_le(a@, b@) == bytes_le(a@.subrange(i as int, a@.len() as int), b@.subrange(i as int, b@.len() as int)),
        decreases a@.len() - i,
    {
        let ghost sa = a@.subrange(i as int, a@.len() as int);
        let ghost sb = b@.subrange(i as int, b@.len() as int);
        assert(sa[0] == a@[i as int] && sb[0] == b@[i as int]);
        if a[i] != b[i] {
            return a[i] < b[i];
        }
        assert(sa.drop_first() =~= a@.subrange(i + 1, a@.len() as int));
        assert(sb.drop_first() =~= b@.subrange(i + 1, b@.len() as int));
        i = i + 1;
    }
    i == a.len()
}

fn listed_le_exec(a: &DirEntry, b: &DirEntry) -> (r: bool)
    ensures
        r == listed_le(*a, *b),
{
    if a.is_dir != b.is_dir {
        a.is_dir
    } else {
        bytes_le_exec(a.name.as_str().as_bytes(), b.name.as_str().as_bytes())
    }
}

proof fn lemma_listed_le_total(a: DirEntry, b: DirEntry)
    ensures
        listed_le(a, b) || listed_le(b, a),
{
    lemma_bytes_le_total(encode_utf8(a.name@), encode_utf8(b.name@));
}

proof fn lemma_listed_le_transitive(a: DirEntry, b: DirEntry, c: DirEntry)
    requires
        listed_le(a, b),
        listed_le(b, c),
    ensures
        listed_le(a, c),
{
    if a.is_dir == b.is_dir && b.is_dir == c.is_dir {
        lemma_bytes_le_transitive(encode_utf8(a.name@), encode_utf8(b.name@), encode_utf8(c.name@));
    }
}

/// Orders a listing: directories first, then by name, byte by byte; the
/// entries are the same ones.
pub fn sort_listing(entries: Vec<DirEntry>) -> (r: Vec<DirEntry>)
    ensures
        r@.to_multiset() == entries@.to_multiset(),
        forall|i: int, j: int| 0 <= i < j < r@.len() ==> listed_le(r@[i], r@[j]),
{
    broadcast use vstd::seq_lib::group_to_multiset_ensures;
    let ghost all = entries@;
    let mut rest = entries;
    let mut out: Vec<DirEntry> = Vec::new();
    while rest.len() > 0
        invariant
            out@.to_multiset().add(rest@.to_multiset()) == all.to_multiset(),
            forall|i: int, j: int| 0 <= i < j < out@.len() ==> listed_le(out@[i], out@[j]),
        decreases rest@.len(),
    {
        let ghost before_rest = rest@;
        let e = match rest.pop() {
            Some(e) => e,
            None => {
                return out;
            },
        };
        proof {
            assert(before_rest =~= rest@.push(e));
            vstd::seq_lib::to_multiset_build(rest@, e);
        }
        let mut p: usize = 0;
        while p < out.len() && listed_le_exec(&out[p], &e)
            invariant
                p <= out@.len(),
                forall|k: int| 0 <= k < p ==> listed_le(out@[k], e),
            decreases out@.len() - p,
        {
            p = p + 1;
        }
        let ghost before = out@;
        proof {
            if p < before.len() {
                lemma_listed_le_total(before[p as int], e);
            }
        }
        out.insert(p, e);
        proof {
            vstd::seq_lib::to_multiset_insert(before, p as int, e);
            assert(out@ == before.insert(p as int, e));
            assert forall|i: int, j: int| 0 <= i < j < out@.len() implies listed_le(out@[i], out@[j]) by {
                if j < p {
                    assert(out@[i] == before[i] && out@[j] == before[j]);
                } else if j == p {
                    assert(out@[i] == before[i]);
                } else if i == p {
                    assert(out@[j] == before[j - 1]);
                    if j - 1 > p {
                        lemma_listed_le_transitive(e, before[p as int], before[j - 1]);
                    }
                } else if i < p {
                    assert(out@[i] == before[i] && out@[j] == before[j - 1]);
                } else {
                    assert(out@[i] == before[i - 1] && out@[j] == before[j - 1]);
                }
            }
            assert(out@.to_multiset().add(rest@.to_multiset()) =~= all.to_multiset());
        }
    }
    assert(rest@.to_multiset() =~= vstd::multiset::Multiset::empty());
    assert(out@.to_multiset() =~= all.to_multiset());
    out
}

impl DirEntry {
    /// The entry as `fs/list` reports it.
    pub fn into_fs_entry(self) -> (r: FsEntry)
        ensures
            r.name == self.name,
            r.path == self.path,
            r.is_dir == self.is_dir,
            r.size == self.size,
    {
        FsEntry { name: self.name, path: self.path, is_dir: self.is_dir, size: self.size }
    }
}

impl FileStat {
    /// The record as `fs/stat` reports it.
    pub fn into_stat_result(self) -> (r: FsStatResult)
        ensures
            r.path == self.path,
            r.is_dir == self.is_dir,
            r.size == self.size,
            r.modified == self.modified,
    {
        FsStatResult { path: self.path, is_dir: self.is_dir, size: self.size, modified: self.modified }
    }
}

} // verus!
