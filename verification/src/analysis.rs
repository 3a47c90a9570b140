//! Putting one repository together: its commits, its counters, and what its
//! remote address says of it.

use crate::error::DevRecapError;
use crate::github::{github_repo_of, parse_github_url};
use crate::model::{CommitRecord, GitHubRepo, RepoStats, RepositoryRecord, Timespan};
use crate::parser::Parser;
use crate::clock::representable;
use crate::scanner::{repo_name_of, Scanner};
use crate::stats::{fits, stats_of};
use vstd::prelude::*;

verus! {

/// The author that an analysis names where no commit was found: the address
/// that was asked for, or `any`.
pub open spec fn author_label(author_email: Option<Seq<char>>) -> Seq<char> {
    match author_email {
        Some(address) => address,
        None => "any"@,
    }
}

/// The owner and name that a remote address gives, where there is an address.
pub open spec fn hosting_of(remote_url: Option<Seq<char>>) -> Option<(Seq<char>, Seq<char>)> {
    match remote_url {
        Some(address) => github_repo_of(address),
        None => None,
    }
}

/// The owner and name that a record holds, where it holds them.
pub open spec fn identifier(info: Option<GitHubRepo>) -> Option<(Seq<char>, Seq<char>)> {
    match info {
        Some(repo) => Some(repo@),
        None => None,
    }
}

impl RepositoryRecord {
    /// Whether what the record derives agrees with what it is derived from:
    /// the counters with the commits, and the owner and name with the
    /// address of the remote.
    pub open spec fn consistent(self) -> bool {
        &&& self.stats@ == stats_of(self.commits@)
        &&& identifier(self.github_info) == hosting_of(self.remote_url.deep_view())
    }
}

/// What an analysis ends in, for a repository whose commits were read.
pub enum Outcome {
    /// No commit passed the filters.
    NoCommits,
    /// A counter over the commits does not fit in 32 bits.
    TooLarge,
    /// The repository can be described.
    Described,
}

/// What the analysis of a commit list ends in.
pub open spec fn outcome_of(commits: Seq<CommitRecord>) -> Outcome {
    if commits.len() == 0 {
        Outcome::NoCommits
    } else if !fits(commits) {
        Outcome::TooLarge
    } else {
        Outcome::Described
    }
}

/// The record of a repository from the commits that passed the filters.
/// With no commit the result is `NoCommitsFound`, which names the author
/// that was asked for; with counters that do not fit in 32 bits it is
/// `Other`; else the record holds the commits, their counters, and what the
/// remote address says.
pub fn assemble_repository(
    path: &str,
    name: String,
    remote_url: Option<String>,
    author_email: Option<&str>,
    commits: Vec<CommitRecord>,
) -> (r: Result<RepositoryRecord, DevRecapError>)
    ensures
        match r {
            Ok(repo) => {
                &&& outcome_of(commits@) is Described
                &&& repo.path@ == path@
                &&& repo.name == name
                &&& repo.remote_url == remote_url
                &&& identifier(repo.github_info) == hosting_of(
                    remote_url.deep_view(),
                )
                &&& repo.commits == commits
                &&& repo.stats@ == stats_of(commits@)
                &&& repo.consistent()
            },
            Err(DevRecapError::NoCommitsFound { author }) => {
                &&& outcome_of(commits@) is NoCommits
                &&& author@ == author_label(author_email.deep_view())
            },
            Err(DevRecapError::Other(text)) => {
                &&& outcome_of(commits@) is TooLarge
                &&& text@ == "commit counters exceed 32 bits"@
            },
            Err(_) => false,
        },
{
    if commits.len() == 0 {
        let author = match author_email {
            Some(address) => address.to_owned(),
            None => "any".to_owned(),
        };
        return Err(DevRecapError::NoCommitsFound { author });
    }
    if !RepoStats::counters_fit(&commits) {
        return Err(DevRecapError::Other("commit counters exceed 32 bits".to_owned()));
    }
    let stats = RepoStats::from_commits(&commits);
    let github_info = match &remote_url {
        Some(address) => parse_github_url(address.as_str()),
        None => None,
    };
    Ok(RepositoryRecord { path: path.to_owned(), name, remote_url, github_info, commits, stats })
}

/// The record that stands for a repository whose analysis failed: its path,
/// its name (the final component of the path, or `unknown`), no commits,
/// every counter at zero.
pub fn failed_repository(path: &str) -> (repo: RepositoryRecord)
    ensures
        repo.path@ == path@,
        repo.name@ == repo_name_of(path@),
        repo.remote_url is None,
        repo.github_info is None,
        repo.commits@.len() == 0,
        repo.stats@ == stats_of(Seq::<CommitRecord>::empty()),
        repo.consistent(),
{
    RepositoryRecord {
        path: path.to_owned(),
        name: Scanner::get_repo_name(path),
        remote_url: None,
        github_info: None,
        commits: Vec::new(),
        stats: RepoStats::empty(),
    }
}

/// Analyses the repository at `repo_path`: reads the commits that pass the
/// filters and describes the repository by them. Whatever the repository
/// holds, a record that is returned has at least one commit, each of its
/// commits passes both filters, its counters are those of its commits, and
/// its name is the final component of the path, or `unknown`.
/// A path that holds no repository gives `Git`; a repository none of whose
/// commits passes gives `NoCommitsFound`.
pub fn analyze_repository(repo_path: &str, author_email: Option<&str>, timespan: &Timespan) -> (r:
    Result<RepositoryRecord, DevRecapError>)
    ensures
        match r {
            Ok(repo) => {
                &&& repo.path@ == repo_path@
                &&& repo.name@ == repo_name_of(repo_path@)
                &&& repo.remote_url is Some ==> repo.remote_url->0@.len() > 0
                &&& repo.commits@.len() > 0
                &&& repo.consistent()
                &&& forall|i: int|
                    0 <= i < repo.commits@.len() ==> (#[trigger] repo.commits@[i]).consistent()
                        && timespan.spec_contains(repo.commits@[i].timestamp)
                        && representable(repo.commits@[i].timestamp)
                        && crate::parser::author_matches(
                        author_email.deep_view(),
                        repo.commits@[i].author.email@,
                    )
            },
            Err(DevRecapError::Git(_)) => true,
            Err(DevRecapError::NoCommitsFound { author }) => author@ == author_label(
                author_email.deep_view(),
            ),
            Err(DevRecapError::Other(_)) => true,
            Err(_) => false,
        },
{
    let filter = match author_email {
        Some(address) => Some(address.to_owned()),
        None => None,
    };
    let parser = Parser::new(filter, *timespan);
    let commits = match parser.parse_commits(repo_path) {
        Ok(commits) => commits,
        Err(e) => {
            return Err(e);
        },
    };
    let name = Scanner::get_repo_name(repo_path);
    let remote_url = Scanner::get_remote_url(repo_path);
    assemble_repository(repo_path, name, remote_url, author_email, commits)
}

} // verus!
