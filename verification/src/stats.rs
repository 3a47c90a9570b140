//! Folding a commit list into repository-level counters.

use crate::clock::{date_label, date_text};
use crate::model::{day_number, day_of, CommitRecord, DayCount, RepoStats, SECONDS_PER_DAY};
use std::collections::HashSet;
use vstd::prelude::*;

verus! {

broadcast use vstd::std_specs::hash::group_hash_axioms;

/// The sum of a sequence of numbers.
pub open spec fn sum_of(values: Seq<nat>) -> nat
    decreases values.len(),
{
    if values.len() == 0 {
        0
    } else {
        sum_of(values.drop_last()) + values.last()
    }
}

/// How many files each commit changed.
pub open spec fn file_counts(commits: Seq<CommitRecord>) -> Seq<nat> {
    Seq::new(commits.len(), |i: int| commits[i].files_changed@.len())
}

/// How many lines each commit added.
pub open spec fn insertion_counts(commits: Seq<CommitRecord>) -> Seq<nat> {
    Seq::new(commits.len(), |i: int| commits[i].insertions as nat)
}

/// How many lines each commit removed.
pub open spec fn deletion_counts(commits: Seq<CommitRecord>) -> Seq<nat> {
    Seq::new(commits.len(), |i: int| commits[i].deletions as nat)
}

/// Every issue or pull-request number that some commit mentions.
pub open spec fn all_prs(commits: Seq<CommitRecord>) -> Set<u32>
    decreases commits.len(),
{
    if commits.len() == 0 {
        Set::empty()
    } else {
        all_prs(commits.drop_last()).union(commits.last().pr_numbers@.to_set())
    }
}

/// Where the entry of `key` stands in a table of counts: the first index
/// that holds the key, or the table's length where none does.
pub open spec fn position_of<K>(table: Seq<(K, nat)>, key: K) -> nat
    decreases table.len(),
{
    if table.len() == 0 || table[0].0 == key {
        0
    } else {
        1 + position_of(table.skip(1), key)
    }
}

/// A table of counts after one more occurrence of `key`.
pub open spec fn bump<K>(table: Seq<(K, nat)>, key: K) -> Seq<(K, nat)> {
    let k = position_of(table, key) as int;
    if k < table.len() {
        table.update(k, (key, table[k].1 + 1))
    } else {
        table.push((key, 1))
    }
}

/// Commits per calendar day: one entry for each day on which a commit was
/// made, the days in the order in which they first occur.
pub open spec fn frequency_of(commits: Seq<CommitRecord>) -> Seq<(int, nat)>
    decreases commits.len(),
{
    if commits.len() == 0 {
        Seq::empty()
    } else {
        bump(frequency_of(commits.drop_last()), day_of(commits.last().timestamp))
    }
}

/// How many of the commits were made on `day`.
pub open spec fn commits_on(commits: Seq<CommitRecord>, day: int) -> nat
    decreases commits.len(),
{
    if commits.len() == 0 {
        0
    } else {
        commits_on(commits.drop_last(), day) + if day_of(commits.last().timestamp) == day {
            1nat
        } else {
            0nat
        }
    }
}

/// What a stored frequency table says.
pub open spec fn table_of(entries: Seq<DayCount>) -> Seq<(int, nat)> {
    Seq::new(entries.len(), |i: int| (entries[i].day as int, entries[i].count as nat))
}

/// The counters of a repository as plain numbers.
pub struct StatsView {
    /// Number of commits.
    pub total_commits: nat,
    /// Changed files, summed over the commits.
    pub total_files_changed: nat,
    /// Lines added.
    pub total_insertions: nat,
    /// Lines removed.
    pub total_deletions: nat,
    /// Distinct issue and pull-request numbers.
    pub pr_count: nat,
    /// Commits per calendar day.
    pub commit_frequency: Seq<(int, nat)>,
}

impl View for RepoStats {
    type V = StatsView;

    open spec fn view(&self) -> StatsView {
        StatsView {
            total_commits: self.total_commits as nat,
            total_files_changed: self.total_files_changed as nat,
            total_insertions: self.total_insertions as nat,
            total_deletions: self.total_deletions as nat,
            pr_count: self.pr_count as nat,
            commit_frequency: table_of(self.commit_frequency@),
        }
    }
}

/// The counters that a commit list has.
pub open spec fn stats_of(commits: Seq<CommitRecord>) -> StatsView {
    StatsView {
        total_commits: commits.len(),
        total_files_changed: sum_of(file_counts(commits)),
        total_insertions: sum_of(insertion_counts(commits)),
        total_deletions: sum_of(deletion_counts(commits)),
        pr_count: all_prs(commits).len(),
        commit_frequency: frequency_of(commits),
    }
}

/// Whether each counter of a commit list fits in 32 bits.
pub open spec fn fits(commits: Seq<CommitRecord>) -> bool {
    &&& commits.len() <= u32::MAX
    &&& sum_of(file_counts(commits)) <= u32::MAX
    &&& sum_of(insertion_counts(commits)) <= u32::MAX
    &&& sum_of(deletion_counts(commits)) <= u32::MAX
    &&& all_prs(commits).len() <= u32::MAX
}

/// The sum of the first `k` numbers is no more than the sum of all.
pub proof fn lemma_sum_grows(values: Seq<nat>, k: int)
    requires
        0 <= k <= values.len(),
    ensures
        sum_of(values.take(k)) <= sum_of(values),
    decreases values.len() - k,
{
    if k == values.len() {
        assert(values.take(k) =~= values);
    } else {
        lemma_sum_grows(values, k + 1);
        assert(values.take(k + 1).drop_last() =~= values.take(k));
    }
}

/// The entry of a key stands where no earlier entry holds that key.
pub proof fn lemma_position_of<K>(table: Seq<(K, nat)>, key: K, k: int)
    requires
        0 <= k <= table.len(),
        forall|j: int| 0 <= j < k ==> table[j].0 != key,
        k == table.len() || table[k].0 == key,
    ensures
        position_of(table, key) == k,
    decreases k,
{
    if k > 0 {
        let rest = table.skip(1);
        assert forall|j: int| 0 <= j < k - 1 implies rest[j].0 != key by {
            assert(rest[j] == table[j + 1]);
        }
        lemma_position_of(rest, key, k - 1);
    }
}

/// Counts one more commit on `day` in a stored frequency table.
fn record_day(entries: &mut Vec<DayCount>, day: i64, Ghost(bound): Ghost<nat>)
    requires
        bound < u32::MAX,
        forall|k: int| 0 <= k < old(entries).len() ==> old(entries)[k].count <= bound,
    ensures
        table_of(final(entries)@) == bump(table_of(old(entries)@), day as int),
        forall|k: int| 0 <= k < final(entries).len() ==> final(entries)[k].count <= bound + 1,
{
    let mut k: usize = 0;
    while k < entries.len() && entries[k].day != day
        invariant
            k <= entries.len(),
            entries@ == old(entries)@,
            forall|j: int| 0 <= j < k ==> entries@[j].day != day,
        decreases entries.len() - k,
    {
        k += 1;
    }
    let ghost before = table_of(entries@);
    proof {
        lemma_position_of(before, day as int, k as int);
    }
    if k < entries.len() {
        let count: u32 = entries[k].count + 1;
        entries.set(k, DayCount { day, count });
        proof {
            assert(table_of(entries@) =~= before.update(k as int, (day as int, count as nat)));
        }
    } else {
        entries.push(DayCount { day, count: 1 });
        proof {
            assert(table_of(entries@) =~= before.push((day as int, 1nat)));
        }
    }
}

/// Commits per calendar day: one entry for each day on which a commit was
/// made, the days in the order in which they first occur.
pub fn calculate_commit_frequency(commits: &Vec<CommitRecord>) -> (days: Vec<DayCount>)
    requires
        commits.len() <= u32::MAX,
    ensures
        table_of(days@) == frequency_of(commits@),
{
    let mut days: Vec<DayCount> = Vec::new();
    let mut i: usize = 0;
    proof {
        assert(table_of(days@) =~= frequency_of(commits@.take(0)));
    }
    while i < commits.len()
        invariant
            i <= commits.len(),
            commits.len() <= u32::MAX,
            table_of(days@) == frequency_of(commits@.take(i as int)),
            forall|k: int| 0 <= k < days.len() ==> days[k].count <= i,
        decreases commits.len() - i,
    {
        proof {
            assert(commits@.take(i + 1).drop_last() =~= commits@.take(i as int));
        }
        record_day(&mut days, day_number(commits[i].timestamp), Ghost(i as nat));
        i += 1;
    }
    proof {
        assert(commits@.take(i as int) =~= commits@);
    }
    days
}

/// Which entry of a frequency table has the most commits: the last of
/// those that have the most, and -1 for a table without entries.
pub open spec fn busiest(table: Seq<(int, nat)>) -> int
    decreases table.len(),
{
    if table.len() == 0 {
        -1
    } else {
        let earlier = busiest(table.drop_last());
        if earlier < 0 || table.last().1 >= table[earlier].1 {
            table.len() - 1
        } else {
            earlier
        }
    }
}

/// The entry that `busiest` names is an entry of the table.
pub proof fn lemma_busiest_in_table(table: Seq<(int, nat)>)
    ensures
        table.len() == 0 ==> busiest(table) == -1,
        table.len() > 0 ==> 0 <= busiest(table) < table.len(),
    decreases table.len(),
{
    if table.len() > 0 {
        lemma_busiest_in_table(table.drop_last());
    }
}

/// No entry of a table has more commits than the one that `busiest` names,
/// and no later entry has as many.
pub proof fn law_busiest_is_greatest(table: Seq<(int, nat)>, k: int)
    requires
        0 <= k < table.len(),
    ensures
        table[k].1 <= table[busiest(table)].1,
        k > busiest(table) ==> table[k].1 < table[busiest(table)].1,
    decreases table.len(),
{
    lemma_busiest_in_table(table);
    lemma_busiest_in_table(table.drop_last());
    if k < table.len() - 1 {
        law_busiest_is_greatest(table.drop_last(), k);
    }
}

/// Whether the first instant of a day can be written in 64 bits.
pub open spec fn day_in_range(day: int) -> bool {
    -106751991167300 <= day <= 106751991167300
}

/// The calendar date of a day counted from the epoch; the empty text where
/// the calendar cannot hold the day.
pub open spec fn day_label(day: int) -> Seq<char> {
    if day_in_range(day) {
        match date_text((day * 86400) as i64) {
            Some(text) => text,
            None => Seq::empty(),
        }
    } else {
        Seq::empty()
    }
}

/// Writes the calendar date of a day counted from the epoch.
pub fn label_of_day(day: i64) -> (label: String)
    ensures
        label@ == day_label(day as int),
{
    if day < -106751991167300 || day > 106751991167300 {
        return String::new();
    }
    match date_label(day * SECONDS_PER_DAY) {
        Some(text) => text,
        None => String::new(),
    }
}

/// The day with the most commits and how many it has; of several such days
/// the one that stands last in the table. `None` for counters without days.
pub fn find_most_active_day(stats: &RepoStats) -> (r: Option<(String, u32)>)
    ensures
        match r {
            Some((label, count)) => {
                let best = busiest(stats@.commit_frequency);
                &&& 0 <= best < stats@.commit_frequency.len()
                &&& label@ == day_label(stats@.commit_frequency[best].0)
                &&& count == stats@.commit_frequency[best].1
            },
            None => stats@.commit_frequency.len() == 0,
        },
{
    let entries = &stats.commit_frequency;
    if entries.len() == 0 {
        return None;
    }
    let ghost table = table_of(entries@);
    let mut best: usize = 0;
    let mut i: usize = 1;
    proof {
        assert(table.take(1).drop_last() =~= Seq::<(int, nat)>::empty());
        assert(busiest(table.take(1).drop_last()) == -1);
        assert(busiest(table.take(1)) == 0);
    }
    while i < entries.len()
        invariant
            1 <= i <= entries.len(),
            table == table_of(entries@),
            best < i,
            best == busiest(table.take(i as int)),
        decreases entries.len() - i,
    {
        proof {
            assert(table.take(i + 1).drop_last() =~= table.take(i as int));
            assert(table.take(i + 1).last() == table[i as int]);
            assert(table.take(i + 1)[best as int] == table[best as int]);
        }
        if entries[i].count >= entries[best].count {
            best = i;
        }
        i += 1;
    }
    proof {
        assert(table.take(i as int) =~= table);
    }
    Some((label_of_day(entries[best].day), entries[best].count))
}

impl RepoStats {
    /// Counters with every count at zero.
    pub fn empty() -> (stats: RepoStats)
        ensures
            stats@ == stats_of(Seq::<CommitRecord>::empty()),
    {
        let stats = RepoStats {
            total_commits: 0,
            total_files_changed: 0,
            total_insertions: 0,
            total_deletions: 0,
            pr_count: 0,
            commit_frequency: Vec::new(),
        };
        proof {
            let none = Seq::<CommitRecord>::empty();
            assert(file_counts(none) =~= Seq::<nat>::empty());
            assert(insertion_counts(none) =~= Seq::<nat>::empty());
            assert(deletion_counts(none) =~= Seq::<nat>::empty());
            assert(table_of(stats.commit_frequency@) =~= frequency_of(none));
        }
        stats
    }

    /// Tests whether each counter of `commits` fits in 32 bits.
    pub fn counters_fit(commits: &Vec<CommitRecord>) -> (ok: bool)
        ensures
            ok == fits(commits@),
    {
        if commits.len() > u32::MAX as usize {
            return false;
        }
        let limit: u64 = u32::MAX as u64;
        let mut files: u64 = 0;
        let mut added: u64 = 0;
        let mut removed: u64 = 0;
        let mut seen: HashSet<u32> = HashSet::new();
        let mut i: usize = 0;
        proof {
            assert(file_counts(commits@.take(0)) =~= Seq::<nat>::empty());
            assert(insertion_counts(commits@.take(0)) =~= Seq::<nat>::empty());
            assert(deletion_counts(commits@.take(0)) =~= Seq::<nat>::empty());
        }
        while i < commits.len()
            invariant
                i <= commits.len(),
                files == sum_of(file_counts(commits@.take(i as int))),
                added == sum_of(insertion_counts(commits@.take(i as int))),
                removed == sum_of(deletion_counts(commits@.take(i as int))),
                files <= limit,
                added <= limit,
                removed <= limit,
                limit == u32::MAX,
                seen@ == all_prs(commits@.take(i as int)),
                seen@.finite(),
            decreases commits.len() - i,
        {
            let commit = &commits[i];
            let ghost now = commits@.take(i + 1);
            proof {
                step_facts(commits@, i as int);
            }
            if commit.files_changed.len() as u64 > limit - files || commit.insertions as u64 > limit
                - added || commit.deletions as u64 > limit - removed {
                return false;
            }
            files = files + commit.files_changed.len() as u64;
            added = added + commit.insertions as u64;
            removed = removed + commit.deletions as u64;
            let mut k: usize = 0;
            let ghost earlier = seen@;
            while k < commit.pr_numbers.len()
                invariant
                    k <= commit.pr_numbers.len(),
                    seen@ == earlier.union(commit.pr_numbers@.take(k as int).to_set()),
                    seen@.finite(),
                decreases commit.pr_numbers.len() - k,
            {
                seen.insert(commit.pr_numbers[k]);
                proof {
                    lemma_take_to_set(commit.pr_numbers@, k as int);
                }
                k += 1;
            }
            proof {
                assert(commit.pr_numbers@.take(k as int) =~= commit.pr_numbers@);
            }
            i += 1;
        }
        proof {
            assert(commits@.take(i as int) =~= commits@);
        }
        seen.len() <= u32::MAX as usize
    }

    /// The counters of a commit list.
    pub fn from_commits(commits: &Vec<CommitRecord>) -> (stats: RepoStats)
        requires
            fits(commits@),
        ensures
            stats@ == stats_of(commits@),
    {
        let mut files: u32 = 0;
        let mut added: u32 = 0;
        let mut removed: u32 = 0;
        let mut seen: HashSet<u32> = HashSet::new();
        let days = calculate_commit_frequency(commits);
        let mut i: usize = 0;
        proof {
            assert(file_counts(commits@.take(0)) =~= Seq::<nat>::empty());
            assert(insertion_counts(commits@.take(0)) =~= Seq::<nat>::empty());
            assert(deletion_counts(commits@.take(0)) =~= Seq::<nat>::empty());
        }
        while i < commits.len()
            invariant
                i <= commits.len(),
                fits(commits@),
                files == sum_of(file_counts(commits@.take(i as int))),
                added == sum_of(insertion_counts(commits@.take(i as int))),
                removed == sum_of(deletion_counts(commits@.take(i as int))),
                seen@ == all_prs(commits@.take(i as int)),
                seen@.finite(),
            decreases commits.len() - i,
        {
            let commit = &commits[i];
            proof {
                step_facts(commits@, i as int);
            }
            files = files + commit.files_changed.len() as u32;
            added = added + commit.insertions;
            removed = removed + commit.deletions;
            let mut k: usize = 0;
            let ghost earlier = seen@;
            while k < commit.pr_numbers.len()
                invariant
                    k <= commit.pr_numbers.len(),
                    seen@ == earlier.union(commit.pr_numbers@.take(k as int).to_set()),
                    seen@.finite(),
                decreases commit.pr_numbers.len() - k,
            {
                seen.insert(commit.pr_numbers[k]);
                proof {
                    lemma_take_to_set(commit.pr_numbers@, k as int);
                }
                k += 1;
            }
            proof {
                assert(commit.pr_numbers@.take(k as int) =~= commit.pr_numbers@);
            }
            i += 1;
        }
        proof {
            assert(commits@.take(i as int) =~= commits@);
        }
        RepoStats {
            total_commits: commits.len() as u32,
            total_files_changed: files,
            total_insertions: added,
            total_deletions: removed,
            pr_count: seen.len() as u32,
            commit_frequency: days,
        }
    }

    /// Lines added less lines removed.
    pub fn net_lines_changed(&self) -> (net: i64)
        ensures
            net == self.total_insertions - self.total_deletions,
    {
        self.total_insertions as i64 - self.total_deletions as i64
    }
}

/// What one more commit adds to each sum, and that the sums so far are no
/// more than the sums over all commits.
proof fn step_facts(commits: Seq<CommitRecord>, i: int)
    requires
        0 <= i < commits.len(),
    ensures
        commits.take(i + 1).drop_last() == commits.take(i),
        commits.take(i + 1).last() == commits[i],
        sum_of(file_counts(commits.take(i + 1))) == sum_of(file_counts(commits.take(i)))
            + commits[i].files_changed@.len(),
        sum_of(insertion_counts(commits.take(i + 1))) == sum_of(
            insertion_counts(commits.take(i)),
        ) + commits[i].insertions,
        sum_of(deletion_counts(commits.take(i + 1))) == sum_of(deletion_counts(commits.take(i)))
            + commits[i].deletions,
        sum_of(file_counts(commits.take(i + 1))) <= sum_of(file_counts(commits)),
        sum_of(insertion_counts(commits.take(i + 1))) <= sum_of(insertion_counts(commits)),
        sum_of(deletion_counts(commits.take(i + 1))) <= sum_of(deletion_counts(commits)),
{
    let now = commits.take(i + 1);
    assert(now.drop_last() =~= commits.take(i));
    assert(file_counts(now).drop_last() =~= file_counts(commits.take(i)));
    assert(insertion_counts(now).drop_last() =~= insertion_counts(commits.take(i)));
    assert(deletion_counts(now).drop_last() =~= deletion_counts(commits.take(i)));
    assert(file_counts(commits).take(i + 1) =~= file_counts(now));
    assert(insertion_counts(commits).take(i + 1) =~= insertion_counts(now));
    assert(deletion_counts(commits).take(i + 1) =~= deletion_counts(now));
    lemma_sum_grows(file_counts(commits), i + 1);
    lemma_sum_grows(insertion_counts(commits), i + 1);
    lemma_sum_grows(deletion_counts(commits), i + 1);
}

/// The set of the first `k + 1` numbers is that of the first `k` with one more.
proof fn lemma_take_to_set(numbers: Seq<u32>, k: int)
    requires
        0 <= k < numbers.len(),
    ensures
        numbers.take(k + 1).to_set() == numbers.take(k).to_set().insert(numbers[k]),
{
    let a = numbers.take(k + 1);
    let b = numbers.take(k);
    assert forall|x: u32| a.to_set().contains(x) <==> b.to_set().insert(numbers[k]).contains(
        x,
    ) by {
        if a.contains(x) {
            let j = choose|j: int| 0 <= j < a.len() && a[j] == x;
            if j < k {
                assert(b[j] == x);
            }
        }
        if b.contains(x) {
            let j = choose|j: int| 0 <= j < b.len() && b[j] == x;
            assert(a[j] == x);
        }
        if x == numbers[k] {
            assert(a[k] == x);
        }
    }
    assert(a.to_set() =~= b.to_set().insert(numbers[k]));
}

} // verus!
