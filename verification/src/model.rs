//! The data model shared by every component.
//!
//! An instant is a whole number of seconds since the Unix epoch, in UTC.

use vstd::prelude::*;

verus! {

/// Seconds in one calendar day.
pub const SECONDS_PER_DAY: i64 = 86400;

/// Who wrote a commit.
#[derive(Debug, Clone)]
pub struct Author {
    /// Name of the author.
    pub name: String,
    /// E-mail address of the author.
    pub email: String,
}

/// One commit of a repository's history.
#[derive(Debug, Clone)]
pub struct CommitRecord {
    /// Full hash.
    pub hash: String,
    /// The first seven characters of the hash.
    pub short_hash: String,
    /// Who wrote the commit.
    pub author: Author,
    /// When the commit was made.
    pub timestamp: i64,
    /// The whole message.
    pub message: String,
    /// First line of the message.
    pub summary: String,
    /// What follows the first line, if anything does.
    pub body: Option<String>,
    /// Paths that the commit's diff names, one per changed entry.
    pub files_changed: Vec<String>,
    /// Lines added.
    pub insertions: u32,
    /// Lines removed.
    pub deletions: u32,
    /// Issue and pull-request numbers that the message mentions, ascending.
    pub pr_numbers: Vec<u32>,
}

/// The owner and name under which a hosting provider knows a repository.
#[derive(Debug, Clone)]
pub struct GitHubRepo {
    /// Owner or organisation.
    pub owner: String,
    /// Name of the repository.
    pub repo: String,
}

/// How many commits fell on one calendar day.
#[derive(Debug, Clone, Copy)]
pub struct DayCount {
    /// The day, counted from the epoch.
    pub day: i64,
    /// Commits on that day.
    pub count: u32,
}

/// Counters over the commits of one repository.
#[derive(Debug, Clone)]
pub struct RepoStats {
    /// Number of commits.
    pub total_commits: u32,
    /// Changed files, summed over the commits.
    pub total_files_changed: u32,
    /// Lines added, summed over the commits.
    pub total_insertions: u32,
    /// Lines removed, summed over the commits.
    pub total_deletions: u32,
    /// Distinct issue and pull-request numbers.
    pub pr_count: u32,
    /// Commits per calendar day, the days in the order in which they first occur.
    pub commit_frequency: Vec<DayCount>,
}

/// One analysed repository.
#[derive(Debug, Clone)]
pub struct RepositoryRecord {
    /// Where the repository lies.
    pub path: String,
    /// Last segment of the path.
    pub name: String,
    /// Address of the remote, where one is configured.
    pub remote_url: Option<String>,
    /// Owner and name at the hosting provider, where the address gives them.
    pub github_info: Option<GitHubRepo>,
    /// The commits that passed the filters.
    pub commits: Vec<CommitRecord>,
    /// Counters over `commits`.
    pub stats: RepoStats,
}

/// An inclusive range of instants.
#[derive(Debug, Clone, Copy)]
pub struct Timespan {
    /// First instant of the range.
    pub start: i64,
    /// Last instant of the range.
    pub end: i64,
}

/// The calendar day on which an instant falls, counted from the epoch.
pub open spec fn day_of(timestamp: i64) -> int {
    timestamp as int / 86400
}

/// Computes the calendar day on which an instant falls.
pub fn day_number(timestamp: i64) -> (day: i64)
    ensures
        day == day_of(timestamp),
{
    if timestamp >= 0 {
        timestamp / SECONDS_PER_DAY
    } else {
        let back: i64 = -(timestamp + 1);
        -(back / SECONDS_PER_DAY) - 1
    }
}

impl Timespan {
    /// Whether `t` lies in the range, both ends included.
    pub open spec fn spec_contains(self, t: i64) -> bool {
        self.start <= t && t <= self.end
    }

    /// The range that ends at `now` and began `days` days earlier; it begins
    /// at the earliest instant there is where that day lies before it.
    pub open spec fn spec_days_back(now: i64, days: u32) -> Timespan {
        Timespan {
            start: if now - days * 86400 < i64::MIN {
                i64::MIN
            } else {
                (now - days * 86400) as i64
            },
            end: now,
        }
    }

    /// A range from its two ends.
    pub fn from_dates(start: i64, end: i64) -> (span: Timespan)
        ensures
            span.start == start,
            span.end == end,
    {
        Timespan { start, end }
    }

    /// The range of the `days` days before the present instant. Nothing is
    /// known of the present instant, so the contract says how the range lies
    /// to its own end.
    pub fn days_back(days: u32) -> (span: Timespan)
        ensures
            span == Self::spec_days_back(span.end, days),
    {
        Self::days_back_from(crate::clock::now_seconds(), days)
    }

    /// The range of the `days` days before `now`.
    pub fn days_back_from(now: i64, days: u32) -> (span: Timespan)
        ensures
            span == Self::spec_days_back(now, days),
    {
        let length: i64 = days as i64 * SECONDS_PER_DAY;
        let start: i64 = if now < i64::MIN + length {
            i64::MIN
        } else {
            now - length
        };
        Timespan { start, end: now }
    }

    /// Whether `date` lies in the range, both ends included.
    pub fn contains(&self, date: i64) -> (inside: bool)
        ensures
            inside == self.spec_contains(date),
    {
        date >= self.start && date <= self.end
    }
}

} // verus!
