//! The calls into the version-control layer.
//!
//! What these calls return depends on what the repository on disk holds, so
//! their contracts promise nothing of it: the library's rules are verified
//! for every value that may come back.

use crate::parser::{DeltaPaths, WalkOrder};
use vstd::prelude::*;

verus! {

/// A repository that `git2` has opened.
#[verifier::external_type_specification]
#[verifier::external_body]
pub struct ExRepository(git2::Repository);

/// The error of a `git2` call.
#[verifier::external_type_specification]
#[verifier::external_body]
pub struct ExGitError(git2::Error);

/// The identifier of an object.
#[verifier::external_type_specification]
#[verifier::external_body]
pub struct ExOid(git2::Oid);

/// A commit of an open repository.
#[verifier::external_type_specification]
#[verifier::external_body]
pub struct ExGitCommit<'repo>(git2::Commit<'repo>);

/// A tree of an open repository.
#[verifier::external_type_specification]
#[verifier::external_body]
pub struct ExTree<'repo>(git2::Tree<'repo>);

/// The difference between two trees.
#[verifier::external_type_specification]
#[verifier::external_body]
pub struct ExDiff<'repo>(git2::Diff<'repo>);

/// Calls `git2::Repository::open` on the path.
#[verifier::external_body]
pub(crate) fn open_repository(path: &str) -> (r: Result<git2::Repository, git2::Error>) {
    git2::Repository::open(path)
}

/// Calls `git2::Error::message`: the text of the error.
#[verifier::external_body]
pub(crate) fn error_text(error: &git2::Error) -> (text: String) {
    error.message().to_string()
}

/// Walks the history from the head in the given order: `Repository::revwalk`,
/// `Revwalk::push_head`, `Revwalk::set_sorting` with the flag of `git2::Sort`
/// that stands for the order, and the identifiers that the walk yields. The
/// first failure ends it.
#[verifier::external_body]
pub(crate) fn head_history(repo: &git2::Repository, order: WalkOrder) -> (r: Result<
    Vec<git2::Oid>,
    git2::Error,
>) {
    let mut walk = repo.revwalk()?;
    walk.push_head()?;
    let sort = match order {
        WalkOrder::Unsorted => git2::Sort::NONE,
        WalkOrder::Topological => git2::Sort::TOPOLOGICAL,
        WalkOrder::Time => git2::Sort::TIME,
        WalkOrder::Reverse => git2::Sort::REVERSE,
    };
    walk.set_sorting(sort)?;
    walk.collect()
}

/// Calls `git2::Repository::find_commit`.
#[verifier::external_body]
pub(crate) fn find_commit<'repo>(repo: &'repo git2::Repository, id: &git2::Oid) -> (r: Result<
    git2::Commit<'repo>,
    git2::Error,
>) {
    repo.find_commit(*id)
}

/// The hexadecimal text of an identifier, as its `Display` writes it.
#[verifier::external_body]
pub(crate) fn oid_text(id: &git2::Oid) -> (text: String) {
    id.to_string()
}

/// Calls `git2::Commit::time` and `Time::seconds`: the commit's time in
/// seconds since the epoch.
#[verifier::external_body]
pub(crate) fn commit_seconds(commit: &git2::Commit<'_>) -> (seconds: i64) {
    commit.time().seconds()
}

/// Calls `git2::Commit::author` and `Signature::name`: the author's name,
/// or `None` where it is not valid UTF-8.
#[verifier::external_body]
pub(crate) fn author_name(commit: &git2::Commit<'_>) -> (name: Option<String>) {
    commit.author().name().map(String::from)
}

/// Calls `git2::Commit::author` and `Signature::email`: the author's
/// address, or `None` where it is not valid UTF-8.
#[verifier::external_body]
pub(crate) fn author_email(commit: &git2::Commit<'_>) -> (email: Option<String>) {
    commit.author().email().map(String::from)
}

/// Calls `git2::Commit::message`: the message, or `None` where it is not
/// valid UTF-8.
#[verifier::external_body]
pub(crate) fn commit_message(commit: &git2::Commit<'_>) -> (message: Option<String>) {
    commit.message().map(String::from)
}

/// Calls `git2::Commit::tree`.
#[verifier::external_body]
pub(crate) fn commit_tree<'repo>(commit: &git2::Commit<'repo>) -> (r: Result<
    git2::Tree<'repo>,
    git2::Error,
>) {
    commit.tree()
}

/// Calls `git2::Commit::parent_count`.
#[verifier::external_body]
pub(crate) fn parent_count(commit: &git2::Commit<'_>) -> (count: usize) {
    commit.parent_count()
}

/// Calls `git2::Commit::parent` for the parent with the given number. A
/// number that the commit has no parent for gives an error.
#[verifier::external_body]
pub(crate) fn commit_parent<'repo>(commit: &git2::Commit<'repo>, index: usize) -> (r: Result<
    git2::Commit<'repo>,
    git2::Error,
>) {
    commit.parent(index)
}

/// Calls `git2::Repository::diff_tree_to_tree` without options; no old tree
/// stands for the empty tree.
#[verifier::external_body]
pub(crate) fn diff_trees<'repo>(
    repo: &'repo git2::Repository,
    old: Option<&git2::Tree<'repo>>,
    new: &git2::Tree<'repo>,
) -> (r: Result<git2::Diff<'repo>, git2::Error>) {
    repo.diff_tree_to_tree(old, Some(new), None)
}

/// Calls `git2::Diff::stats`, then `DiffStats::insertions` and
/// `DiffStats::deletions`: the lines added and the lines removed.
#[verifier::external_body]
pub(crate) fn line_counts(diff: &git2::Diff<'_>) -> (r: Result<(usize, usize), git2::Error>) {
    let stats = diff.stats()?;
    Ok((stats.insertions(), stats.deletions()))
}

/// Calls `git2::Diff::foreach` and hands out, for each changed entry, the
/// path of `DiffDelta::old_file` and that of `DiffDelta::new_file`; `None`
/// where a side has no path.
#[verifier::external_body]
pub(crate) fn delta_paths(diff: &git2::Diff<'_>) -> (r: Result<Vec<DeltaPaths>, git2::Error>) {
    let mut deltas = Vec::new();
    let text = |file: git2::DiffFile<'_>| file.path().map(|p| p.to_string_lossy().to_string());
    diff.foreach(
        &mut |delta, _| {
            deltas.push(DeltaPaths { old: text(delta.old_file()), new: text(delta.new_file()) });
            true
        },
        None,
        None,
        None,
    )?;
    Ok(deltas)
}

/// Calls `git2::Repository::remotes` and hands out the names of the remotes
/// in the order of that list; `None` stands for a name that is not valid
/// UTF-8.
#[verifier::external_body]
pub(crate) fn remote_names(repo: &git2::Repository) -> (r: Result<
    Vec<Option<String>>,
    git2::Error,
>) {
    Ok(repo.remotes()?.iter().map(|name| name.map(String::from)).collect())
}

/// Calls `git2::Repository::config` and `Config::get_string`: the value of
/// the setting with the given key. A setting that is not there, or whose
/// value is not valid UTF-8, gives an error.
#[verifier::external_body]
pub(crate) fn config_text(repo: &git2::Repository, key: &str) -> (r: Result<String, git2::Error>) {
    repo.config()?.get_string(key)
}

} // verus!
