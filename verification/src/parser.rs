//! Walking the history of one repository: which commits pass the filters,
//! and what is derived from each.

use crate::clock::{convert_timestamp, representable};
use crate::error::DevRecapError;
use crate::git::{
    author_email, author_name, commit_message, commit_seconds, commit_tree, diff_trees,
    commit_parent, delta_paths, error_text, find_commit, head_history, line_counts, oid_text,
    open_repository, parent_count,
};
use crate::github::{ascending, extract_pr_numbers, numbers_found, reference_matches};
use crate::model::{Author, CommitRecord, Timespan};
use crate::text::{
    chars_of, contains, contains_text, is_blank, join_from, joined, lines, lines_of, lowercase,
    lowercase_of, rows, string_of, string_of_range, texts_of, trim, trimmed,
};
use vstd::prelude::*;

verus! {

/// The lines that follow the blank lines at the start.
pub open spec fn skip_blank(lines: Seq<Seq<char>>) -> Seq<Seq<char>>
    decreases lines.len(),
{
    if lines.len() > 0 && is_blank(lines[0]) {
        skip_blank(lines.skip(1))
    } else {
        lines
    }
}

/// The summary of a message: its first line without the white space around
/// it, and the empty text for a message without lines.
pub open spec fn summary_of(message: Seq<char>) -> Seq<char> {
    let all = lines_of(message);
    if all.len() == 0 {
        Seq::empty()
    } else {
        trimmed(all[0])
    }
}

/// What follows the first line of a message and the blank lines after it.
pub open spec fn body_lines(message: Seq<char>) -> Seq<Seq<char>> {
    let all = lines_of(message);
    if all.len() == 0 {
        Seq::empty()
    } else {
        skip_blank(all.skip(1))
    }
}

/// The body of a message: the lines after the first, from the first that is
/// not blank, with a line feed between each two; `None` where none is left.
pub open spec fn body_of(message: Seq<char>) -> Option<Seq<char>> {
    let rest = body_lines(message);
    if rest.len() == 0 {
        None
    } else {
        Some(joined(rest, seq!['\n']))
    }
}

/// The short form of a hash: its first seven characters, or all of it where
/// it has fewer.
pub open spec fn short_of(hash: Seq<char>) -> Seq<char> {
    if hash.len() <= 7 {
        hash
    } else {
        hash.take(7)
    }
}

/// Whether an author's address passes the filter: there is no filter, or the
/// address holds the filter's text, upper and lower case taken as the same.
pub open spec fn author_matches(filter: Option<Seq<char>>, email: Seq<char>) -> bool {
    match filter {
        None => true,
        Some(wanted) => contains_text(lowercase_of(email), lowercase_of(wanted)),
    }
}

/// The order in which a walk hands out the commits of a history.
#[derive(Debug, Clone, Copy)]
pub enum WalkOrder {
    /// No order in particular.
    Unsorted,
    /// No commit before all of its children.
    Topological,
    /// By the time of the commit.
    Time,
    /// Backwards.
    Reverse,
}

/// The paths of one changed entry of a diff: on the side that the diff
/// starts from, and on the side that it leads to.
#[derive(Debug)]
pub struct DeltaPaths {
    /// The path on the old side, where the entry has one.
    pub old: Option<String>,
    /// The path on the new side, where the entry has one.
    pub new: Option<String>,
}

/// The files that a diff changed: for each entry that has a path on the new
/// side that path, in the order of the entries.
pub open spec fn changed_files(deltas: Seq<DeltaPaths>) -> Seq<Seq<char>>
    decreases deltas.len(),
{
    if deltas.len() == 0 {
        Seq::empty()
    } else {
        match deltas.last().new {
            Some(path) => changed_files(deltas.drop_last()).push(path@),
            None => changed_files(deltas.drop_last()),
        }
    }
}

impl CommitRecord {
    /// Whether what is derived from the hash and the message agrees with them.
    pub open spec fn consistent(self) -> bool {
        &&& self.short_hash@ == short_of(self.hash@)
        &&& self.summary@ == summary_of(self.message@)
        &&& self.body.deep_view() == body_of(self.message@)
        &&& ascending(self.pr_numbers@)
        &&& forall|n: u32|
            self.pr_numbers@.contains(n) <==> numbers_found(
                reference_matches(self.message@),
            ).contains(n)
    }

    /// A short description: the short hash, a hyphen between spaces, the summary.
    pub fn short_desc(&self) -> (text: String)
        ensures
            text@ == self.short_hash@ + " - "@ + self.summary@,
    {
        let mut out: Vec<char> = chars_of(self.short_hash.as_str());
        crate::text::append(&mut out, &chars_of(" - "));
        crate::text::append(&mut out, &chars_of(self.summary.as_str()));
        string_of(&out)
    }

    /// The record of a commit from what the repository holds of it. The
    /// short hash, the summary, the body and the references are derived here.
    pub fn assemble(
        hash: String,
        author: Author,
        timestamp: i64,
        message: String,
        files_changed: Vec<String>,
        insertions: u32,
        deletions: u32,
    ) -> (commit: CommitRecord)
        ensures
            commit.hash@ == hash@,
            commit.author == author,
            commit.timestamp == timestamp,
            commit.message@ == message@,
            commit.files_changed == files_changed,
            commit.insertions == insertions,
            commit.deletions == deletions,
            commit.consistent(),
    {
        let letters = chars_of(hash.as_str());
        let cut: usize = if letters.len() <= 7 {
            letters.len()
        } else {
            7
        };
        let short_hash = string_of_range(&letters, 0, cut);
        proof {
            assert(letters@.subrange(0, cut as int) =~= short_of(hash@));
        }
        let (summary, body) = Parser::split_message(message.as_str());
        let pr_numbers = extract_pr_numbers(message.as_str());
        CommitRecord {
            hash,
            short_hash,
            author,
            timestamp,
            message,
            summary,
            body,
            files_changed,
            insertions,
            deletions,
            pr_numbers,
        }
    }
}

/// The author of a commit from the name and the address that the repository
/// holds; a name or an address that cannot be read gets a stand-in.
pub fn extract_author(name: Option<String>, email: Option<String>) -> (author: Author)
    ensures
        author.name@ == (match name {
            Some(text) => text@,
            None => "Unknown"@,
        }),
        author.email@ == (match email {
            Some(text) => text@,
            None => "unknown@example.com"@,
        }),
{
    let name = match name {
        Some(text) => text,
        None => string_of(&chars_of("Unknown")),
    };
    let email = match email {
        Some(text) => text,
        None => string_of(&chars_of("unknown@example.com")),
    };
    Author { name, email }
}

/// A count as a 32-bit number: the count itself where it fits, the greatest
/// 32-bit number where it does not.
pub open spec fn saturated(count: usize) -> u32 {
    if count > u32::MAX {
        u32::MAX
    } else {
        count as u32
    }
}

/// What a diff says of a commit: the paths on the new side of its entries,
/// and the two line counts as 32-bit numbers, a count that does not fit being
/// given as the greatest 32-bit number.
pub fn diff_summary(deltas: Vec<DeltaPaths>, added: usize, removed: usize) -> (r: (
    Vec<String>,
    u32,
    u32,
))
    ensures
        texts_of(r.0@) == changed_files(deltas@),
        r.1 == saturated(added),
        r.2 == saturated(removed),
{
    let mut files: Vec<String> = Vec::new();
    let mut i: usize = 0;
    proof {
        assert(deltas@.take(0) =~= Seq::<DeltaPaths>::empty());
        assert(texts_of(files@) =~= changed_files(deltas@.take(0)));
    }
    while i < deltas.len()
        invariant
            i <= deltas.len(),
            texts_of(files@) == changed_files(deltas@.take(i as int)),
        decreases deltas.len() - i,
    {
        let ghost before = texts_of(files@);
        proof {
            assert(deltas@.take(i + 1).drop_last() =~= deltas@.take(i as int));
            assert(deltas@.take(i + 1).last() == deltas@[i as int]);
        }
        match &deltas[i].new {
            Some(path) => {
                files.push(path.clone());
                proof {
                    assert(texts_of(files@) =~= before.push(path@));
                }
            },
            None => {},
        }
        i += 1;
    }
    proof {
        assert(deltas@.take(i as int) =~= deltas@);
    }
    (files, saturate(added), saturate(removed))
}

/// Gives a count as a 32-bit number.
pub fn saturate(count: usize) -> (r: u32)
    ensures
        r == saturated(count),
{
    if count > u32::MAX as usize {
        u32::MAX
    } else {
        count as u32
    }
}

/// The error of the library for a failure of the version-control layer.
pub fn git_failure(error: &git2::Error) -> (e: DevRecapError)
    ensures
        e is Git,
{
    DevRecapError::Git(error_text(error))
}

/// What the filters read of a commit: when it was made and by whom.
#[derive(Debug)]
pub struct Candidate {
    /// When the commit was made.
    pub timestamp: i64,
    /// Who wrote the commit.
    pub author: Author,
}

/// What a commit is compared with to find what it changed.
#[derive(Debug, Clone, Copy)]
pub enum DiffBase {
    /// The tree without any entry: every line of the commit counts as added.
    EmptyTree,
    /// The tree of the parent with the given number.
    Parent {
        /// The number of the parent among the commit's parents, from zero.
        index: usize,
    },
}

/// What a commit with `parents` parents is compared with: the empty tree
/// where it has no parent, else its first parent, whatever others it has.
pub open spec fn base_of(parents: usize) -> DiffBase {
    if parents == 0 {
        DiffBase::EmptyTree
    } else {
        DiffBase::Parent { index: 0 }
    }
}

/// Chooses what a commit with `parents` parents is compared with.
pub fn diff_base(parents: usize) -> (base: DiffBase)
    ensures
        base == base_of(parents),
{
    if parents == 0 {
        DiffBase::EmptyTree
    } else {
        DiffBase::Parent { index: 0 }
    }
}

/// Reads the commits of a repository that pass two filters: an author's
/// address and a time window.
pub struct Parser {
    author_email: Option<String>,
    timespan: Timespan,
}

impl Parser {
    /// The text that an author's address must hold, where one is asked for.
    pub closed spec fn filter(self) -> Option<Seq<char>> {
        self.author_email.deep_view()
    }

    /// The time window.
    pub closed spec fn span(self) -> Timespan {
        self.timespan
    }

    /// Whether a commit made at `timestamp` by the author with the address
    /// `email` passes both filters.
    pub open spec fn keeps(self, timestamp: i64, email: Seq<char>) -> bool {
        self.span().spec_contains(timestamp) && author_matches(self.filter(), email)
    }

    /// A parser with the two filters.
    pub fn new(author_email: Option<String>, timespan: Timespan) -> (parser: Parser)
        ensures
            parser.filter() == author_email.deep_view(),
            parser.span() == timespan,
    {
        Parser { author_email, timespan }
    }

    /// Tests whether a commit passes both filters.
    pub fn accepts(&self, timestamp: i64, email: &str) -> (r: bool)
        ensures
            r == self.keeps(timestamp, email@),
    {
        if !self.timespan.contains(timestamp) {
            return false;
        }
        match &self.author_email {
            None => true,
            Some(wanted) => {
                let hay = chars_of(lowercase(email).as_str());
                let needle = chars_of(lowercase(wanted.as_str()).as_str());
                contains(&hay, &needle)
            },
        }
    }

    /// The positions of the commits that pass both filters, in the order in
    /// which the commits stand: every position that passes, each once, and
    /// no other.
    pub fn select(&self, candidates: &Vec<Candidate>) -> (kept: Vec<usize>)
        ensures
            forall|j: int, k: int| 0 <= j < k < kept.len() ==> kept[j] < kept[k],
            forall|k: int|
                0 <= k < kept.len() ==> (#[trigger] kept[k]) < candidates.len() && self.keeps(
                    candidates[kept[k] as int].timestamp,
                    candidates[kept[k] as int].author.email@,
                ),
            forall|i: int|
                0 <= i < candidates.len() && self.keeps(
                    (#[trigger] candidates[i]).timestamp,
                    candidates[i].author.email@,
                ) ==> kept@.contains(i as usize),
    {
        let mut kept: Vec<usize> = Vec::new();
        let mut i: usize = 0;
        while i < candidates.len()
            invariant
                i <= candidates.len(),
                forall|j: int, k: int| 0 <= j < k < kept.len() ==> kept[j] < kept[k],
                forall|k: int|
                    0 <= k < kept.len() ==> (#[trigger] kept[k]) < i && self.keeps(
                        candidates[kept[k] as int].timestamp,
                        candidates[kept[k] as int].author.email@,
                    ),
                forall|p: int|
                    0 <= p < i && self.keeps(
                        (#[trigger] candidates[p]).timestamp,
                        candidates[p].author.email@,
                    ) ==> kept@.contains(p as usize),
            decreases candidates.len() - i,
        {
            let ghost before = kept@;
            if self.accepts(candidates[i].timestamp, candidates[i].author.email.as_str()) {
                kept.push(i);
                proof {
                    assert(kept@[before.len() as int] == i);
                }
            }
            proof {
                assert forall|p: int|
                    0 <= p < i + 1 && self.keeps(
                        (#[trigger] candidates[p]).timestamp,
                        candidates[p].author.email@,
                    ) implies kept@.contains(p as usize) by {
                    if p < i {
                        assert(before.contains(p as usize));
                        let k = choose|k: int| 0 <= k < before.len() && before[k] == p as usize;
                        assert(kept@[k] == p as usize);
                    }
                }
            }
            i += 1;
        }
        kept
    }

    /// Splits a commit message into its summary and its body.
    pub fn split_message(message: &str) -> (r: (String, Option<String>))
        ensures
            r.0@ == summary_of(message@),
            r.1.deep_view() == body_of(message@),
    {
        let all = lines(&chars_of(message));
        if all.len() == 0 {
            return (String::new(), None);
        }
        let summary = string_of(&trim(&all[0]));
        let ghost rest = rows(all@).skip(1);
        let mut k: usize = 1;
        proof {
            assert(rows(all@)[0] == all@[0]@);
        }
        let mut blank: bool = k < all.len() && trim(&all[k]).len() == 0;
        while blank
            invariant
                1 <= k <= all.len(),
                rest == rows(all@).skip(1),
                blank == (k < all.len() && is_blank(all@[k as int]@)),
                skip_blank(rest) == skip_blank(rows(all@).skip(k as int)),
            decreases all.len() - k,
        {
            proof {
                let here = rows(all@).skip(k as int);
                assert(here[0] == all@[k as int]@);
                assert(here.skip(1) =~= rows(all@).skip(k + 1));
            }
            k += 1;
            blank = k < all.len() && trim(&all[k]).len() == 0;
        }
        proof {
            let here = rows(all@).skip(k as int);
            if k < all.len() {
                assert(here[0] == all@[k as int]@);
            }
            assert(skip_blank(here) == here);
        }
        if k == all.len() {
            (summary, None)
        } else {
            let body = join_from(&all, k, &chars_of("\n"));
            proof {
                reveal_strlit("\n");
                assert("\n"@ =~= seq!['\n']);
            }
            (summary, Some(string_of(&body)))
        }
    }

    /// The changed files and the line counts of a commit, against what
    /// `diff_base` chooses for the number of its parents.
    fn get_diff_stats<'repo>(
        repo: &'repo git2::Repository,
        commit: &git2::Commit<'repo>,
    ) -> (r: Result<(Vec<String>, u32, u32), DevRecapError>)
        ensures
            r is Err ==> r->Err_0 is Git,
    {
        let tree = match commit_tree(commit) {
            Ok(tree) => tree,
            Err(e) => {
                return Err(git_failure(&e));
            },
        };
        let diff = match diff_base(parent_count(commit)) {
            DiffBase::EmptyTree => diff_trees(repo, None, &tree),
            DiffBase::Parent { index } => {
                let parent = match commit_parent(commit, index) {
                    Ok(parent) => parent,
                    Err(e) => {
                        return Err(git_failure(&e));
                    },
                };
                let parent_tree = match commit_tree(&parent) {
                    Ok(tree) => tree,
                    Err(e) => {
                        return Err(git_failure(&e));
                    },
                };
                diff_trees(repo, Some(&parent_tree), &tree)
            },
        };
        let diff = match diff {
            Ok(diff) => diff,
            Err(e) => {
                return Err(git_failure(&e));
            },
        };
        let (added, removed) = match line_counts(&diff) {
            Ok(counts) => counts,
            Err(e) => {
                return Err(git_failure(&e));
            },
        };
        let paths = match delta_paths(&diff) {
            Ok(paths) => paths,
            Err(e) => {
                return Err(git_failure(&e));
            },
        };
        Ok(diff_summary(paths, added, removed))
    }

    /// The commits of the repository at `repo_path` that pass the filters,
    /// from the head in order of time. The time and the author of every
    /// commit of the walk are read first; `select` then says which commits
    /// are kept, and only those are compared with what `diff_base` chooses.
    /// Whatever the repository holds, each
    /// commit that is returned passes both filters, the calendar can hold
    /// its instant, and what it derives from its hash and message agrees
    /// with them. A failure of the version-control layer, that the path
    /// holds no repository among them, is returned as `Git`.
    pub fn parse_commits(&self, repo_path: &str) -> (r: Result<Vec<CommitRecord>, DevRecapError>)
        ensures
            match r {
                Ok(commits) => forall|i: int|
                    0 <= i < commits.len() ==> (#[trigger] commits[i]).consistent() && self.keeps(
                        commits[i].timestamp,
                        commits[i].author.email@,
                    ) && representable(commits[i].timestamp),
                Err(e) => e is Git,
            },
    {
        let repo = match open_repository(repo_path) {
            Ok(repo) => repo,
            Err(e) => {
                return Err(git_failure(&e));
            },
        };
        let ids = match head_history(&repo, WalkOrder::Time) {
            Ok(ids) => ids,
            Err(e) => {
                return Err(git_failure(&e));
            },
        };
        let mut found: Vec<git2::Commit<'_>> = Vec::new();
        let mut candidates: Vec<Candidate> = Vec::new();
        let mut i: usize = 0;
        while i < ids.len()
            invariant
                i <= ids.len(),
                found.len() == i,
                candidates.len() == i,
                forall|k: int|
                    0 <= k < candidates.len() ==> representable(
                        (#[trigger] candidates[k]).timestamp,
                    ),
            decreases ids.len() - i,
        {
            let commit = match find_commit(&repo, &ids[i]) {
                Ok(commit) => commit,
                Err(e) => {
                    return Err(git_failure(&e));
                },
            };
            let timestamp = convert_timestamp(commit_seconds(&commit));
            let author = extract_author(author_name(&commit), author_email(&commit));
            candidates.push(Candidate { timestamp, author });
            found.push(commit);
            i += 1;
        }
        let kept = self.select(&candidates);
        let mut commits: Vec<CommitRecord> = Vec::new();
        let mut k: usize = 0;
        while k < kept.len()
            invariant
                k <= kept.len(),
                found.len() == ids.len(),
                candidates.len() == ids.len(),
                forall|j: int|
                    0 <= j < kept.len() ==> (#[trigger] kept[j]) < candidates.len() && self.keeps(
                        candidates[kept[j] as int].timestamp,
                        candidates[kept[j] as int].author.email@,
                    ),
                forall|j: int|
                    0 <= j < candidates.len() ==> representable(
                        (#[trigger] candidates[j]).timestamp,
                    ),
                forall|j: int|
                    0 <= j < commits.len() ==> (#[trigger] commits[j]).consistent() && self.keeps(
                        commits[j].timestamp,
                        commits[j].author.email@,
                    ) && representable(commits[j].timestamp),
            decreases kept.len() - k,
        {
            let at: usize = kept[k];
            let candidate = &candidates[at];
            let message = match commit_message(&found[at]) {
                Some(text) => text,
                None => String::new(),
            };
            let (files, added, removed) = match Self::get_diff_stats(&repo, &found[at]) {
                Ok(stats) => stats,
                Err(e) => {
                    return Err(e);
                },
            };
            let author = Author {
                name: candidate.author.name.clone(),
                email: candidate.author.email.clone(),
            };
            let commit = CommitRecord::assemble(
                oid_text(&ids[at]),
                author,
                candidate.timestamp,
                message,
                files,
                added,
                removed,
            );
            commits.push(commit);
            k += 1;
        }
        Ok(commits)
    }
}

} // verus!
