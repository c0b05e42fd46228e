//! Version control through the `git` command: the arguments each operation
//! passes, and the reading of what `git` prints. Running `git` is left to the
//! caller.

use vstd::prelude::*;
use vstd::string::*;
use crate::decimal::{decimal, parse_i64, signed_decimal, u64_text};
use crate::methods::{GitBranchEntry, GitLogEntry, GitStatusEntry};
use crate::text::{lines_of, text_lines, trim_text, trimmed};

verus! {

/// How a path differs from the last commit.
#[derive(Debug, Clone, Copy, PartialEq, Eq, Structural)]
pub enum FileStatus {
    Modified,
    Added,
    Deleted,
    Renamed,
    Untracked,
    Conflicted,
}

/// One changed path.
pub struct StatusEntry {
    pub path: String,
    pub status: FileStatus,
}

/// One commit.
pub struct LogEntry {
    pub id: String,
    pub message: String,
    pub author: String,
    pub timestamp: i64,
}

/// One branch, and whether it is checked out.
pub struct BranchInfo {
    pub name: String,
    pub is_head: bool,
}

/// A working tree that `git` manages.
pub struct GitRepo {
    workdir: String,
}

/// The lowercase word of a status, as `git/status` reports it.
pub open spec fn status_word(s: FileStatus) -> Seq<char> {
    match s {
        FileStatus::Modified => "modified"@,
        FileStatus::Added => "added"@,
        FileStatus::Deleted => "deleted"@,
        FileStatus::Renamed => "renamed"@,
        FileStatus::Untracked => "untracked"@,
        FileStatus::Conflicted => "conflicted"@,
    }
}

impl FileStatus {
    pub fn word(&self) -> (r: String)
        ensures
            r@ == status_word(*self),
    {
        match self {
            FileStatus::Modified => "modified".to_owned(),
            FileStatus::Added => "added".to_owned(),
            FileStatus::Deleted => "deleted".to_owned(),
            FileStatus::Renamed => "renamed".to_owned(),
            FileStatus::Untracked => "untracked".to_owned(),
            FileStatus::Conflicted => "conflicted".to_owned(),
        }
    }
}

/// The status that a two-letter porcelain code, trimmed, stands for; an
/// unknown code counts as modified.
pub open spec fn status_of_code(code: Seq<char>) -> FileStatus {
    if code == "A"@ {
        FileStatus::Added
    } else if code == "D"@ {
        FileStatus::Deleted
    } else if code == "R"@ {
        FileStatus::Renamed
    } else if code == "??"@ {
        FileStatus::Untracked
    } else if code == "UU"@ || code == "AA"@ || code == "DD"@ {
        FileStatus::Conflicted
    } else {
        FileStatus::Modified
    }
}

/// What one porcelain line reports: lines shorter than four characters
/// report nothing; the path starts at the fourth character.
pub open spec fn status_line(line: Seq<char>) -> Option<(Seq<char>, FileStatus)> {
    if line.len() < 4 {
        None
    } else {
        Some((line.subrange(3, line.len() as int), status_of_code(trimmed(line.subrange(0, 2)))))
    }
}

/// What the porcelain lines report, in order.
pub open spec fn status_entries(lines: Seq<Seq<char>>) -> Seq<(Seq<char>, FileStatus)>
    decreases lines.len(),
{
    if lines.len() == 0 {
        Seq::empty()
    } else {
        let rest = status_entries(lines.drop_last());
        match status_line(lines.last()) {
            Some(e) => rest.push(e),
            None => rest,
        }
    }
}

/// What one line of the branch list reports: a star marks the current
/// branch, and the name is what follows the first two characters, trimmed.
pub open spec fn branch_line(line: Seq<char>) -> Option<(Seq<char>, bool)> {
    let name = if line.len() >= 2 {
        trimmed(line.subrange(2, line.len() as int))
    } else {
        trimmed(Seq::empty())
    };
    if name.len() == 0 {
        None
    } else {
        Some((name, line.len() > 0 && line[0] == '*'))
    }
}

pub open spec fn branch_entries(lines: Seq<Seq<char>>) -> Seq<(Seq<char>, bool)>
    decreases lines.len(),
{
    if lines.len() == 0 {
        Seq::empty()
    } else {
        let rest = branch_entries(lines.drop_last());
        match branch_line(lines.last()) {
            Some(e) => rest.push(e),
            None => rest,
        }
    }
}

/// The timestamp a log line gives: its integer, or 0 when it is none.
pub open spec fn timestamp_of(line: Seq<char>) -> i64 {
    if exists|v: i64| line == signed_decimal(v as int) {
        choose|v: i64| line == signed_decimal(v as int)
    } else {
        0
    }
}

/// The texts of `v`.
pub open spec fn texts(v: Seq<String>) -> Seq<Seq<char>> {
    Seq::new(v.len(), |i: int| v[i]@)
}

/// The format that `log` asks `git log` for: hash, subject, author and time,
/// one per line.
pub open spec fn log_format() -> Seq<char> {
    "--format=%H%n%s%n%an%n%at"@
}

fn words2(a: &str, b: &str) -> (r: Vec<String>)
    ensures
        texts(r@) == seq![a@, b@],
{
    let mut v: Vec<String> = Vec::new();
    v.push(a.to_owned());
    v.push(b.to_owned());
    assert(texts(v@) =~= seq![a@, b@]);
    v
}

impl GitRepo {
    pub fn new(workdir: String) -> (r: GitRepo)
        ensures
            r.workdir_view() == workdir@,
    {
        GitRepo { workdir }
    }

    pub closed spec fn workdir_view(&self) -> Seq<char> {
        self.workdir@
    }

    /// The directory that `git` runs in.
    pub fn workdir(&self) -> (r: &str)
        ensures
            r@ == self.workdir_view(),
    {
        self.workdir.as_str()
    }

    /// The current branch, from what `git branch --show-current` printed.
    pub fn branch(output: &str) -> (r: String)
        ensures
            r@ == trimmed(output@),
    {
        trim_text(output)
    }

    /// The changed paths, from what `git status --porcelain=v1` printed.
    pub fn status(output: &str) -> (r: Vec<StatusEntry>)
        ensures
            Seq::new(r@.len(), |i: int| (r@[i].path@, r@[i].status)) == status_entries(lines_of(output@)),
    {
        let lines = text_lines(output);
        let ghost ls = lines_of(output@);
        let mut out: Vec<StatusEntry> = Vec::new();
        let mut i: usize = 0;
        while i < lines.len()
            invariant
                i <= lines@.len(),
                lines@.len() == ls.len(),
                forall|k: int| 0 <= k < ls.len() ==> #[trigger] lines@[k]@ == ls[k],
                Seq::new(out@.len(), |k: int| (out@[k].path@, out@[k].status)) == status_entries(ls.subrange(0, i as int)),
            decreases lines@.len() - i,
        {
            let ghost before = Seq::new(out@.len(), |k: int| (out@[k].path@, out@[k].status));
            assert(ls.subrange(0, i + 1).drop_last() =~= ls.subrange(0, i as int));
            assert(ls.subrange(0, i + 1).last() == lines@[i as int]@);
            let line = lines[i].as_str();
            let n = line.unicode_len();
            if n >= 4 {
                let code = trim_text(line.substring_char(0, 2));
                let status = if code == "A".to_owned() {
                    FileStatus::Added
                } else if code == "D".to_owned() {
                    FileStatus::Deleted
                } else if code == "R".to_owned() {
                    FileStatus::Renamed
                } else if code == "??".to_owned() {
                    FileStatus::Untracked
                } else if code == "UU".to_owned() || code == "AA".to_owned() || code == "DD".to_owned() {
                    FileStatus::Conflicted
                } else {
                    FileStatus::Modified
                };
                let path = line.substring_char(3, n).to_owned();
                out.push(StatusEntry { path, status });
                assert(Seq::new(out@.len(), |k: int| (out@[k].path@, out@[k].status)) =~= before.push(
                    status_line(lines@[i as int]@)->Some_0,
                ));
            }
            i = i + 1;
        }
        assert(ls.subrange(0, ls.len() as int) =~= ls);
        out
    }

    /// The branches, from what `git branch --format="%(HEAD) %(refname:short)"`
    /// printed.
    pub fn branches(output: &str) -> (r: Vec<BranchInfo>)
        ensures
            Seq::new(r@.len(), |i: int| (r@[i].name@, r@[i].is_head)) == branch_entries(lines_of(output@)),
    {
        let lines = text_lines(output);
        let ghost ls = lines_of(output@);
        let mut out: Vec<BranchInfo> = Vec::new();
        let mut i: usize = 0;
        while i < lines.len()
            invariant
                i <= lines@.len(),
                lines@.len() == ls.len(),
                forall|k: int| 0 <= k < ls.len() ==> #[trigger] lines@[k]@ == ls[k],
                Seq::new(out@.len(), |k: int| (out@[k].name@, out@[k].is_head)) == branch_entries(ls.subrange(0, i as int)),
            decreases lines@.len() - i,
        {
            let ghost before = Seq::new(out@.len(), |k: int| (out@[k].name@, out@[k].is_head));
            assert(ls.subrange(0, i + 1).drop_last() =~= ls.subrange(0, i as int));
            assert(ls.subrange(0, i + 1).last() == lines@[i as int]@);
            let line = lines[i].as_str();
            let n = line.unicode_len();
            let is_head = n > 0 && line.get_char(0) == '*';
            let name = if n >= 2 {
                trim_text(line.substring_char(2, n))
            } else {
                trim_text("")
            };
            proof {
                reveal_strlit("");
                assert(""@ =~= Seq::<char>::empty());
            }
            if name.unicode_len() > 0 {
                out.push(BranchInfo { name, is_head });
                assert(Seq::new(out@.len(), |k: int| (out@[k].name@, out@[k].is_head)) =~= before.push(
                    branch_line(lines@[i as int]@)->Some_0,
                ));
            }
            i = i + 1;
        }
        assert(ls.subrange(0, ls.len() as int) =~= ls);
        out
    }

    /// The commits, from what `git log` printed with `log_format`: four lines
    /// per commit, an incomplete group at the end left out.
    pub fn log(output: &str) -> (r: Vec<LogEntry>)
        ensures
            r@.len() == lines_of(output@).len() / 4,
            forall|k: int|
                0 <= k < r@.len() ==> {
                    &&& (#[trigger] r@[k]).id@ == lines_of(output@)[4 * k]
                    &&& r@[k].message@ == lines_of(output@)[4 * k + 1]
                    &&& r@[k].author@ == lines_of(output@)[4 * k + 2]
                    &&& r@[k].timestamp == timestamp_of(lines_of(output@)[4 * k + 3])
                },
    {
        let lines = text_lines(output);
        let ghost ls = lines_of(output@);
        let mut out: Vec<LogEntry> = Vec::new();
        let mut i: usize = 0;
        while lines.len() - i >= 4
            invariant
                lines@.len() == ls.len(),
                forall|k: int| 0 <= k < ls.len() ==> #[trigger] lines@[k]@ == ls[k],
                i == 4 * out@.len(),
                i <= lines@.len(),
                forall|k: int|
                    0 <= k < out@.len() ==> {
                        &&& (#[trigger] out@[k]).id@ == ls[4 * k]
                        &&& out@[k].message@ == ls[4 * k + 1]
                        &&& out@[k].author@ == ls[4 * k + 2]
                        &&& out@[k].timestamp == timestamp_of(ls[4 * k + 3])
                    },
            decreases lines@.len() - i,
        {
            let timestamp = match parse_i64(lines[i + 3].as_str()) {
                Some(t) => t,
                None => 0,
            };
            proof {
                let line = ls[i + 3];
                if exists|v: i64| line == signed_decimal(v as int) {
                    let w = choose|v: i64| line == signed_decimal(v as int);
                    crate::decimal::lemma_signed_injective(w as int, timestamp as int);
                }
            }
            out.push(LogEntry {
                id: lines[i].clone(),
                message: lines[i + 1].clone(),
                author: lines[i + 2].clone(),
                timestamp,
            });
            i = i + 4;
        }
        out
    }

    /// The arguments of `git log` for the last `limit` commits.
    pub fn log_args(limit: u64) -> (r: Vec<String>)
        ensures
            texts(r@) == seq!["log"@, "-"@ + decimal(limit as nat), log_format()],
    {
        let mut count = "-".to_owned();
        count.append(u64_text(limit).as_str());
        let mut v: Vec<String> = Vec::new();
        v.push("log".to_owned());
        v.push(count);
        v.push("--format=%H%n%s%n%an%n%at".to_owned());
        assert(texts(v@) =~= seq!["log"@, "-"@ + decimal(limit as nat), log_format()]);
        v
    }

    /// The arguments of `git diff`: staged changes with `--cached`, and one
    /// path after `--` when given.
    pub fn diff(path: Option<&str>, staged: bool) -> (r: Vec<String>)
        ensures
            texts(r@) == seq!["diff"@] + (if staged {
                seq!["--cached"@]
            } else {
                seq![]
            }) + match path {
                Some(p) => seq!["--"@, p@],
                None => seq![],
            },
    {
        let mut v: Vec<String> = Vec::new();
        v.push("diff".to_owned());
        if staged {
            v.push("--cached".to_owned());
        }
        match path {
            Some(p) => {
                v.push("--".to_owned());
                v.push(p.to_owned());
            },
            None => {},
        }
        assert(texts(v@) =~= seq!["diff"@] + (if staged {
            seq!["--cached"@]
        } else {
            seq![]
        }) + match path {
            Some(p) => seq!["--"@, p@],
            None => seq![],
        });
        v
    }

    /// The arguments of `git checkout`.
    pub fn checkout(branch: &str) -> (r: Vec<String>)
        ensures
            texts(r@) == seq!["checkout"@, branch@],
    {
        words2("checkout", branch)
    }

    /// The three `git` runs of a commit: stage the paths, commit with the
    /// message, read the new head. No path is a failure.
    pub fn commit(message: &str, paths: &Vec<String>) -> (r: Result<Vec<Vec<String>>, String>)
        ensures
            paths@.len() == 0 ==> (r matches Err(m) && m@ == "no paths to commit"@),
            paths@.len() > 0 ==> (r matches Ok(runs) && runs@.len() == 3
                && texts(runs@[0]@) == seq!["add"@] + texts(paths@)
                && texts(runs@[1]@) == seq!["commit"@, "-m"@, message@]
                && texts(runs@[2]@) == seq!["rev-parse"@, "HEAD"@]),
    {
        if paths.len() == 0 {
            return Err("no paths to commit".to_owned());
        }
        let mut add: Vec<String> = Vec::new();
        add.push("add".to_owned());
        let mut i: usize = 0;
        while i < paths.len()
            invariant
                i <= paths@.len(),
                texts(add@) == seq!["add"@] + texts(paths@.subrange(0, i as int)),
            decreases paths@.len() - i,
        {
            let ghost prev = texts(add@);
            add.push(paths[i].clone());
            assert(texts(add@) =~= prev.push(paths@[i as int]@));
            assert(texts(paths@.subrange(0, i + 1)) =~= texts(paths@.subrange(0, i as int)).push(
                paths@[i as int]@,
            ));
            i = i + 1;
            assert(texts(add@) =~= seq!["add"@] + texts(paths@.subrange(0, i as int)));
        }
        assert(paths@.subrange(0, paths@.len() as int) =~= paths@);
        let mut commit: Vec<String> = Vec::new();
        commit.push("commit".to_owned());
        commit.push("-m".to_owned());
        commit.push(message.to_owned());
        assert(texts(commit@) =~= seq!["commit"@, "-m"@, message@]);
        let head = words2("rev-parse", "HEAD");
        let mut runs: Vec<Vec<String>> = Vec::new();
        runs.push(add);
        runs.push(commit);
        runs.push(head);
        Ok(runs)
    }
}

impl StatusEntry {
    /// The entry as `git/status` reports it.
    pub fn into_rpc(self) -> (r: GitStatusEntry)
        ensures
            r.path == self.path,
            r.status@ == status_word(self.status),
    {
        let status = self.status.word();
        GitStatusEntry { path: self.path, status }
    }
}

impl LogEntry {
    /// The entry as `git/log` reports it.
    pub fn into_rpc(self) -> (r: GitLogEntry)
        ensures
            r.id == self.id,
            r.message == self.message,
            r.author == self.author,
            r.timestamp == self.timestamp,
    {
        GitLogEntry { id: self.id, message: self.message, author: self.author, timestamp: self.timestamp }
    }
}

impl BranchInfo {
    /// The entry as `git/branches` reports it.
    pub fn into_rpc(self) -> (r: GitBranchEntry)
        ensures
            r.name == self.name,
            r.is_head == self.is_head,
    {
        GitBranchEntry { name: self.name, is_head: self.is_head }
    }
}

} // verus!
