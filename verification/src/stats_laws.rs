//! What holds of the counters of every commit list.

use crate::model::{day_of, CommitRecord, RepoStats};
use crate::file_stats::{by_count, place_of};
use crate::stats::{bump, commits_on, frequency_of, position_of, stats_of, table_of};
use vstd::prelude::*;

verus! {

/// Where `position_of` points: at the first entry of the key, before which
/// no entry holds the key; or behind the table, which then holds the key
/// nowhere.
pub proof fn lemma_position_facts<K>(table: Seq<(K, nat)>, day: K)
    ensures
        0 <= position_of(table, day) <= table.len(),
        position_of(table, day) < table.len() ==> table[position_of(table, day) as int].0 == day,
        forall|j: int| 0 <= j < position_of(table, day) ==> table[j].0 != day,
    decreases table.len(),
{
    if table.len() > 0 && table[0].0 != day {
        let rest = table.skip(1);
        lemma_position_facts(rest, day);
        assert forall|j: int| 0 <= j < position_of(table, day) implies table[j].0 != day by {
            if j > 0 {
                assert(rest[j - 1] == table[j]);
            }
        }
    }
}

/// Whether no two entries of a table hold the same day.
pub open spec fn days_distinct(table: Seq<(int, nat)>) -> bool {
    forall|j: int, k: int| 0 <= j < k < table.len() ==> table[j].0 != table[k].0
}

/// Whether a table holds an entry for `day`.
pub open spec fn has_day(table: Seq<(int, nat)>, day: int) -> bool {
    exists|k: int| 0 <= k < table.len() && #[trigger] table[k].0 == day
}

/// The frequency table of a commit list holds each day on which a commit was
/// made, and no other; it holds no day twice; and the count of a day is the
/// number of commits made on it.
pub proof fn law_frequency_counts_commits(commits: Seq<CommitRecord>)
    ensures
        days_distinct(frequency_of(commits)),
        forall|k: int|
            0 <= k < frequency_of(commits).len() ==> (#[trigger] frequency_of(commits)[k]).1
                == commits_on(commits, frequency_of(commits)[k].0) && frequency_of(commits)[k].1
                > 0,
        forall|day: int| #[trigger] commits_on(commits, day) > 0 ==> has_day(frequency_of(commits), day),
    decreases commits.len(),
{
    if commits.len() > 0 {
        let earlier = commits.drop_last();
        let before = frequency_of(earlier);
        let day = day_of(commits.last().timestamp);
        let after = frequency_of(commits);
        let at = position_of(before, day) as int;
        law_frequency_counts_commits(earlier);
        lemma_position_facts(before, day);
        assert(after == bump(before, day));
        if at < before.len() {
            assert forall|j: int, k: int| 0 <= j < k < after.len() implies after[j].0
                != after[k].0 by {
                assert(after[j].0 == before[j].0);
                assert(after[k].0 == before[k].0);
            }
            assert forall|k: int| 0 <= k < after.len() implies (#[trigger] after[k]).1
                == commits_on(commits, after[k].0) && after[k].1 > 0 by {
                assert(before[k].1 == commits_on(earlier, before[k].0));
                if k != at {
                    assert(before[k].0 != day) by {
                        if k < at {
                        } else {
                            assert(before[at].0 != before[k].0);
                        }
                    }
                }
            }
            assert forall|d: int| #[trigger] commits_on(commits, d) > 0 implies has_day(after, d) by {
                if d == day {
                    assert(after[at].0 == d);
                } else {
                    assert(commits_on(earlier, d) > 0);
                    assert(has_day(before, d));
                    let k = choose|k: int| 0 <= k < before.len() && #[trigger] before[k].0 == d;
                    assert(after[k].0 == d);
                }
            }
        } else {
            assert(commits_on(earlier, day) == 0) by {
                if commits_on(earlier, day) > 0 {
                    assert(has_day(before, day));
                    let k = choose|k: int| 0 <= k < before.len() && #[trigger] before[k].0 == day;
                    assert(false);
                }
            }
            assert forall|j: int, k: int| 0 <= j < k < after.len() implies after[j].0
                != after[k].0 by {
                if k < before.len() {
                    assert(after[j].0 == before[j].0);
                    assert(after[k].0 == before[k].0);
                }
            }
            assert forall|k: int| 0 <= k < after.len() implies (#[trigger] after[k]).1
                == commits_on(commits, after[k].0) && after[k].1 > 0 by {
                if k < before.len() {
                    assert(before[k].1 == commits_on(earlier, before[k].0));
                    assert(before[k].0 != day);
                }
            }
            assert forall|d: int| #[trigger] commits_on(commits, d) > 0 implies has_day(after, d) by {
                if d == day {
                    assert(after[before.len() as int].0 == d);
                } else {
                    assert(commits_on(earlier, d) > 0);
                    assert(has_day(before, d));
                    let k = choose|k: int| 0 <= k < before.len() && #[trigger] before[k].0 == d;
                    assert(after[k].0 == d);
                }
            }
        }
    }
}

/// Counters that were made from the same commit list are the same, field by
/// field: making them again changes nothing.
pub proof fn law_same_commits_same_counters(
    first: RepoStats,
    second: RepoStats,
    commits: Seq<CommitRecord>,
)
    requires
        first@ == stats_of(commits),
        second@ == stats_of(commits),
    ensures
        first.total_commits == second.total_commits,
        first.total_files_changed == second.total_files_changed,
        first.total_insertions == second.total_insertions,
        first.total_deletions == second.total_deletions,
        first.pr_count == second.pr_count,
        first.commit_frequency@ == second.commit_frequency@,
{
    let a = first.commit_frequency@;
    let b = second.commit_frequency@;
    assert(table_of(a) == table_of(b));
    assert(a.len() == b.len()) by {
        assert(table_of(a).len() == a.len());
        assert(table_of(b).len() == b.len());
    }
    assert forall|k: int| 0 <= k < a.len() implies a[k] == b[k] by {
        assert(table_of(a)[k] == table_of(b)[k]);
    }
    assert(a =~= b);
}

/// Where `place_of` points in a table with falling counts: every entry
/// before it has a count at least as great, every entry from it on a smaller one.
pub proof fn lemma_place_facts(sorted: Seq<(Seq<char>, nat)>, count: nat)
    requires
        forall|j: int, k: int| 0 <= j < k < sorted.len() ==> sorted[j].1 >= sorted[k].1,
    ensures
        0 <= place_of(sorted, count) <= sorted.len(),
        forall|j: int| 0 <= j < place_of(sorted, count) ==> sorted[j].1 >= count,
        forall|j: int| place_of(sorted, count) <= j < sorted.len() ==> sorted[j].1 < count,
    decreases sorted.len(),
{
    if sorted.len() > 0 {
        let rest = sorted.skip(1);
        assert forall|j: int, k: int| 0 <= j < k < rest.len() implies rest[j].1 >= rest[k].1 by {
            assert(rest[j] == sorted[j + 1]);
            assert(rest[k] == sorted[k + 1]);
        }
        if sorted[0].1 < count {
            assert forall|j: int| 0 <= j < sorted.len() implies sorted[j].1 < count by {
                if j > 0 {
                    assert(sorted[0].1 >= sorted[j].1);
                }
            }
        } else {
            lemma_place_facts(rest, count);
            assert forall|j: int| 0 <= j < place_of(sorted, count) implies sorted[j].1
                >= count by {
                if j > 0 {
                    assert(rest[j - 1] == sorted[j]);
                }
            }
            assert forall|j: int| place_of(sorted, count) <= j < sorted.len() implies sorted[j].1
                < count by {
                assert(rest[j - 1] == sorted[j]);
            }
        }
    }
}

/// A table ordered by count holds the entries of the table it was made from,
/// each as often as that table holds it, and no count in it is followed by
/// a greater one.
pub proof fn law_by_count_orders(table: Seq<(Seq<char>, nat)>)
    ensures
        by_count(table).len() == table.len(),
        by_count(table).to_multiset() == table.to_multiset(),
        forall|j: int, k: int|
            0 <= j < k < by_count(table).len() ==> by_count(table)[j].1 >= by_count(table)[k].1,
    decreases table.len(),
{
    if table.len() == 0 {
        assert(by_count(table) =~= table);
    } else {
        let earlier = table.drop_last();
        let sorted = by_count(earlier);
        let entry = table.last();
        let at = place_of(sorted, entry.1) as int;
        law_by_count_orders(earlier);
        lemma_place_facts(sorted, entry.1);
        let after = sorted.insert(at, entry);
        assert(by_count(table) == after);
        vstd::seq_lib::to_multiset_insert(sorted, at, entry);
        vstd::seq_lib::to_multiset_build(earlier, entry);
        assert(earlier.push(entry) =~= table);
        assert forall|j: int, k: int| 0 <= j < k < after.len() implies after[j].1
            >= after[k].1 by {
            if k < at {
                assert(after[j] == sorted[j] && after[k] == sorted[k]);
            } else if k == at {
                assert(after[j] == sorted[j]);
            } else if j < at {
                assert(after[j] == sorted[j] && after[k] == sorted[k - 1]);
            } else if j == at {
                assert(after[k] == sorted[k - 1]);
            } else {
                assert(after[j] == sorted[j - 1] && after[k] == sorted[k - 1]);
            }
        }
    }
}

} // verus!
