//! How often each file was changed.

use crate::model::CommitRecord;
use crate::stats::{bump, file_counts, lemma_position_of, sum_of};
use vstd::prelude::*;

verus! {

/// How many commits changed one file.
#[derive(Debug, Clone)]
pub struct FileCount {
    /// The path of the file.
    pub path: String,
    /// How often it was changed.
    pub count: u32,
}

/// What a stored table of files says.
pub open spec fn file_table(entries: Seq<FileCount>) -> Seq<(Seq<char>, nat)> {
    Seq::new(entries.len(), |i: int| (entries[i].path@, entries[i].count as nat))
}

/// What a list of paths with counts says.
pub open spec fn pair_table(entries: Seq<(String, u32)>) -> Seq<(Seq<char>, nat)> {
    Seq::new(entries.len(), |i: int| (entries[i].0@, entries[i].1 as nat))
}

/// A table of files after the given paths were counted, one after another.
pub open spec fn tally(table: Seq<(Seq<char>, nat)>, paths: Seq<String>) -> Seq<(Seq<char>, nat)>
    decreases paths.len(),
{
    if paths.len() == 0 {
        table
    } else {
        bump(tally(table, paths.drop_last()), paths.last()@)
    }
}

/// How often each file was changed: one entry for each path that some commit
/// names, the paths in the order in which they first occur; a commit that
/// names a path twice counts twice.
pub open spec fn file_changes_of(commits: Seq<CommitRecord>) -> Seq<(Seq<char>, nat)>
    decreases commits.len(),
{
    if commits.len() == 0 {
        Seq::empty()
    } else {
        tally(file_changes_of(commits.drop_last()), commits.last().files_changed@)
    }
}

/// Where an entry goes in a table that is ordered by falling counts: behind
/// every entry whose count is at least as great.
pub open spec fn place_of(sorted: Seq<(Seq<char>, nat)>, count: nat) -> nat
    decreases sorted.len(),
{
    if sorted.len() == 0 || sorted[0].1 < count {
        0
    } else {
        1 + place_of(sorted.skip(1), count)
    }
}

/// A table ordered by falling counts; entries with the same count keep the
/// order in which they stood.
pub open spec fn by_count(table: Seq<(Seq<char>, nat)>) -> Seq<(Seq<char>, nat)>
    decreases table.len(),
{
    if table.len() == 0 {
        Seq::empty()
    } else {
        let sorted = by_count(table.drop_last());
        sorted.insert(place_of(sorted, table.last().1) as int, table.last())
    }
}

/// The first `limit` entries of a table, or all where it has fewer.
pub open spec fn first_entries(table: Seq<(Seq<char>, nat)>, limit: int) -> Seq<(Seq<char>, nat)> {
    if limit < table.len() {
        table.take(limit)
    } else {
        table
    }
}

/// Where `place_of` points: behind the entries with a count at least as
/// great, at the first with a smaller one.
pub proof fn lemma_place_of(sorted: Seq<(Seq<char>, nat)>, count: nat, k: int)
    requires
        0 <= k <= sorted.len(),
        forall|j: int| 0 <= j < k ==> sorted[j].1 >= count,
        k == sorted.len() || sorted[k].1 < count,
    ensures
        place_of(sorted, count) == k,
    decreases k,
{
    if k > 0 {
        let rest = sorted.skip(1);
        assert forall|j: int| 0 <= j < k - 1 implies rest[j].1 >= count by {
            assert(rest[j] == sorted[j + 1]);
        }
        lemma_place_of(rest, count, k - 1);
    }
}

/// Counts one more change of the file at `path`.
fn record_file(entries: &mut Vec<FileCount>, path: &String, Ghost(bound): Ghost<nat>)
    requires
        bound < u32::MAX,
        forall|k: int| 0 <= k < old(entries).len() ==> old(entries)[k].count <= bound,
    ensures
        file_table(final(entries)@) == bump(file_table(old(entries)@), path@),
        forall|k: int| 0 <= k < final(entries).len() ==> final(entries)[k].count <= bound + 1,
{
    let mut k: usize = 0;
    while k < entries.len() && entries[k].path != *path
        invariant
            k <= entries.len(),
            entries@ == old(entries)@,
            forall|j: int| 0 <= j < k ==> entries@[j].path@ != path@,
        decreases entries.len() - k,
    {
        k += 1;
    }
    let ghost before = file_table(entries@);
    proof {
        lemma_position_of(before, path@, k as int);
    }
    if k < entries.len() {
        let count: u32 = entries[k].count + 1;
        entries.set(k, FileCount { path: path.clone(), count });
        proof {
            assert(file_table(entries@) =~= before.update(k as int, (path@, count as nat)));
        }
    } else {
        entries.push(FileCount { path: path.clone(), count: 1 });
        proof {
            assert(file_table(entries@) =~= before.push((path@, 1nat)));
        }
    }
}

/// How often each file was changed.
pub fn summarize_file_changes(commits: &Vec<CommitRecord>) -> (changes: Vec<FileCount>)
    requires
        sum_of(file_counts(commits@)) <= u32::MAX,
    ensures
        file_table(changes@) == file_changes_of(commits@),
{
    let mut changes: Vec<FileCount> = Vec::new();
    let ghost mut counted: nat = 0;
    let mut i: usize = 0;
    proof {
        assert(file_table(changes@) =~= file_changes_of(commits@.take(0)));
        assert(file_counts(commits@.take(0)) =~= Seq::<nat>::empty());
    }
    while i < commits.len()
        invariant
            i <= commits.len(),
            sum_of(file_counts(commits@)) <= u32::MAX,
            counted == sum_of(file_counts(commits@.take(i as int))),
            file_table(changes@) == file_changes_of(commits@.take(i as int)),
            forall|k: int| 0 <= k < changes.len() ==> changes[k].count <= counted,
        decreases commits.len() - i,
    {
        let files = &commits[i].files_changed;
        let ghost start = file_table(changes@);
        proof {
            assert(commits@.take(i + 1).drop_last() =~= commits@.take(i as int));
            assert(file_counts(commits@.take(i + 1)).drop_last() =~= file_counts(
                commits@.take(i as int),
            ));
            assert(file_counts(commits@).take(i + 1) =~= file_counts(commits@.take(i + 1)));
            crate::stats::lemma_sum_grows(file_counts(commits@), i + 1);
            assert(files@.take(0) =~= Seq::<String>::empty());
        }
        let mut k: usize = 0;
        while k < files.len()
            invariant
                k <= files.len(),
                counted + files.len() <= u32::MAX,
                file_table(changes@) == tally(start, files@.take(k as int)),
                forall|j: int| 0 <= j < changes.len() ==> changes[j].count <= counted + k,
            decreases files.len() - k,
        {
            proof {
                assert(files@.take(k + 1).drop_last() =~= files@.take(k as int));
            }
            record_file(&mut changes, &files[k], Ghost(counted + k as nat));
            k += 1;
        }
        proof {
            assert(files@.take(k as int) =~= files@);
            counted = counted + files@.len();
        }
        i += 1;
    }
    proof {
        assert(commits@.take(i as int) =~= commits@);
    }
    changes
}

/// Orders a table of files by falling counts; entries with the same count
/// keep their order.
pub fn sort_by_count(changes: Vec<FileCount>) -> (sorted: Vec<FileCount>)
    ensures
        file_table(sorted@) == by_count(file_table(changes@)),
{
    let mut sorted: Vec<FileCount> = Vec::new();
    let mut changes = changes;
    let ghost all = file_table(changes@);
    let ghost total = changes.len();
    let mut taken: Vec<FileCount> = Vec::new();
    // Entries leave `changes` from the back, so they are turned round first.
    while changes.len() > 0
        invariant
            changes.len() + taken.len() == total,
            all.len() == total,
            forall|j: int|
                0 <= j < changes.len() ==> (changes@[j].path@, changes@[j].count as nat) == all[j],
            forall|j: int|
                0 <= j < taken.len() ==> (taken@[j].path@, taken@[j].count as nat) == all[total
                    - 1 - j],
        decreases changes.len(),
    {
        let entry = changes.pop().unwrap();
        taken.push(entry);
    }
    proof {
        assert(all.take(0) =~= Seq::<(Seq<char>, nat)>::empty());
        assert(file_table(sorted@) =~= by_count(all.take(0)));
    }
    let mut done: usize = 0;
    while taken.len() > 0
        invariant
            done + taken.len() == total,
            all.len() == total,
            forall|j: int|
                0 <= j < taken.len() ==> (taken@[j].path@, taken@[j].count as nat) == all[total
                    - 1 - j],
            file_table(sorted@) == by_count(all.take(done as int)),
        decreases taken.len(),
    {
        let entry = taken.pop().unwrap();
        let ghost before = file_table(sorted@);
        let ghost pair = (entry.path@, entry.count as nat);
        proof {
            assert(pair == all[done as int]);
            assert(all.take(done + 1).drop_last() =~= all.take(done as int));
            assert(all.take(done + 1).last() == pair);
        }
        let mut k: usize = 0;
        while k < sorted.len() && sorted[k].count >= entry.count
            invariant
                k <= sorted.len(),
                forall|j: int| 0 <= j < k ==> sorted@[j].count >= entry.count,
            decreases sorted.len() - k,
        {
            k += 1;
        }
        proof {
            lemma_place_of(before, pair.1, k as int);
        }
        sorted.insert(k, entry);
        proof {
            assert(file_table(sorted@) =~= before.insert(k as int, pair));
        }
        done += 1;
    }
    proof {
        assert(all.take(done as int) =~= all);
    }
    sorted
}

/// The files that were changed most often, the most changed first, no more
/// than `limit` of them.
pub fn most_changed_files(commits: &Vec<CommitRecord>, limit: usize) -> (top: Vec<(String, u32)>)
    requires
        sum_of(file_counts(commits@)) <= u32::MAX,
    ensures
        pair_table(top@) == first_entries(by_count(file_changes_of(commits@)), limit as int),
{
    let sorted = sort_by_count(summarize_file_changes(commits));
    let keep: usize = if limit < sorted.len() {
        limit
    } else {
        sorted.len()
    };
    let mut top: Vec<(String, u32)> = Vec::new();
    let mut i: usize = 0;
    while i < keep
        invariant
            i <= keep <= sorted.len(),
            pair_table(top@) == file_table(sorted@).take(i as int),
        decreases keep - i,
    {
        let ghost before = pair_table(top@);
        top.push((sorted[i].path.clone(), sorted[i].count));
        proof {
            assert(pair_table(top@) =~= before.push(
                (sorted@[i as int].path@, sorted@[i as int].count as nat),
            ));
            assert(file_table(sorted@).take(i + 1) =~= file_table(sorted@).take(i as int).push(
                file_table(sorted@)[i as int],
            ));
        }
        i += 1;
    }
    proof {
        if limit >= sorted.len() {
            assert(file_table(sorted@).take(keep as int) =~= file_table(sorted@));
        }
    }
    top
}

} // verus!
