//! What holds of every scan.

use crate::scanner::{
    below, excluded, hidden, paths_among, paths_differ, paths_of, DirTree, Scanner,
};
use vstd::prelude::*;

verus! {

broadcast use {
    vstd::seq::group_seq_axioms,
    vstd::std_specs::vec::group_vec_axioms,
};

/// The directory at which a chain of child numbers arrives.
pub open spec fn node_at(tree: DirTree, chain: Seq<int>) -> DirTree
    decreases chain.len(),
{
    if chain.len() == 0 {
        tree
    } else if 0 <= chain[0] < tree.children@.len() {
        node_at(tree.children@[chain[0]], chain.skip(1))
    } else {
        tree
    }
}

/// A text is in one of two lists joined exactly if it is in one of them.
pub proof fn lemma_contains_joined(a: Seq<Seq<char>>, b: Seq<Seq<char>>, x: Seq<char>)
    ensures
        (a + b).contains(x) <==> (a.contains(x) || b.contains(x)),
{
    if a.contains(x) {
        let i = choose|i: int| 0 <= i < a.len() && a[i] == x;
        assert((a + b)[i] == x);
    }
    if b.contains(x) {
        let i = choose|i: int| 0 <= i < b.len() && b[i] == x;
        assert((a + b)[a.len() + i] == x);
    }
    if (a + b).contains(x) {
        let i = choose|i: int| 0 <= i < (a + b).len() && (a + b)[i] == x;
        if i < a.len() {
            assert(a[i] == x);
        } else {
            assert(b[i - a.len()] == x);
        }
    }
}

/// A path that the scan finds in `tree` belongs to a repository at which the
/// scan arrives by some chain of directories; the chain is handed back.
pub proof fn lemma_found_is_reached(
    scanner: Scanner,
    tree: DirTree,
    depth: u32,
    path: Seq<char>,
) -> (chain: Seq<int>)
    requires
        scanner.found_in(tree, depth).contains(path),
    ensures
        scanner.reaches(tree, chain, depth, path),
    decreases tree, 1int,
{
    let here = if scanner.examines(depth) && tree.is_repository {
        seq![tree.path@]
    } else {
        Seq::<Seq<char>>::empty()
    };
    if here.contains(path) {
        assert(here[0] == path);
        Seq::empty()
    } else {
        let rest = scanner.found_among(tree.children@, below(depth));
        lemma_contains_joined(here, rest, path);
        let (i, tail) = lemma_found_among_is_reached(scanner, tree.children@, below(depth), path);
        let chain = seq![i] + tail;
        assert(chain[0] == i);
        assert(chain.skip(1) =~= tail);
        chain
    }
}

/// A path that the scan finds among directories side by side is found in one
/// of them, into which the scan goes.
pub proof fn lemma_found_among_is_reached(
    scanner: Scanner,
    trees: Seq<DirTree>,
    depth: u32,
    path: Seq<char>,
) -> (r: (int, Seq<int>))
    requires
        scanner.found_among(trees, depth).contains(path),
    ensures
        0 <= r.0 < trees.len(),
        scanner.descends(trees[r.0].name@),
        scanner.reaches(trees[r.0], r.1, depth, path),
    decreases trees, 0int,
{
    assert(trees.len() > 0);
    let before = scanner.found_among(trees.drop_last(), depth);
    if scanner.descends(trees.last().name@) {
        let last = scanner.found_in(trees.last(), depth);
        lemma_contains_joined(before, last, path);
        if last.contains(path) {
            let chain = lemma_found_is_reached(scanner, trees.last(), depth, path);
            (trees.len() - 1, chain)
        } else {
            lemma_found_among_is_reached(scanner, trees.drop_last(), depth, path)
        }
    } else {
        lemma_found_among_is_reached(scanner, trees.drop_last(), depth, path)
    }
}

/// What the scan finds in one of several directories side by side, into
/// which it goes, it finds among them.
pub proof fn lemma_found_among_holds(
    scanner: Scanner,
    trees: Seq<DirTree>,
    depth: u32,
    i: int,
    path: Seq<char>,
)
    requires
        0 <= i < trees.len(),
        scanner.descends(trees[i].name@),
        scanner.found_in(trees[i], depth).contains(path),
    ensures
        scanner.found_among(trees, depth).contains(path),
    decreases trees.len(),
{
    let before = scanner.found_among(trees.drop_last(), depth);
    if i == trees.len() - 1 {
        lemma_contains_joined(before, scanner.found_in(trees.last(), depth), path);
    } else {
        lemma_found_among_holds(scanner, trees.drop_last(), depth, i, path);
        if scanner.descends(trees.last().name@) {
            lemma_contains_joined(before, scanner.found_in(trees.last(), depth), path);
        }
    }
}

/// The scan finds every repository at which it arrives: nested repositories
/// too, since it goes on below a repository that it has found.
pub proof fn law_scan_finds_what_it_reaches(
    scanner: Scanner,
    tree: DirTree,
    chain: Seq<int>,
    depth: u32,
    path: Seq<char>,
)
    requires
        scanner.reaches(tree, chain, depth, path),
    ensures
        scanner.found_in(tree, depth).contains(path),
    decreases chain.len(),
{
    let here = if scanner.examines(depth) && tree.is_repository {
        seq![tree.path@]
    } else {
        Seq::<Seq<char>>::empty()
    };
    if chain.len() == 0 {
        assert(here[0] == path);
        if scanner.enters(depth) {
            lemma_contains_joined(
                here,
                scanner.found_among(tree.children@, below(depth)),
                path,
            );
        }
    } else {
        let i = chain[0];
        law_scan_finds_what_it_reaches(scanner, tree.children@[i], chain.skip(1), below(depth), path);
        lemma_found_among_holds(scanner, tree.children@, below(depth), i, path);
        lemma_contains_joined(here, scanner.found_among(tree.children@, below(depth)), path);
    }
}

/// A chain by which the scan arrives somewhere is no longer than the
/// greatest depth allows.
pub proof fn lemma_reached_depth(
    scanner: Scanner,
    tree: DirTree,
    chain: Seq<int>,
    depth: u32,
    path: Seq<char>,
)
    requires
        scanner.reaches(tree, chain, depth, path),
        scanner.limit() is Some,
        depth <= scanner.limit()->0,
    ensures
        depth + chain.len() <= scanner.limit()->0,
    decreases chain.len(),
{
    if chain.len() > 0 {
        lemma_reached_depth(scanner, tree.children@[chain[0]], chain.skip(1), below(depth), path);
    }
}

/// No directory on a chain by which the scan arrives somewhere is excluded
/// or hidden: this holds of every directory below the one from which the
/// chain starts.
pub proof fn lemma_reached_names(
    scanner: Scanner,
    tree: DirTree,
    chain: Seq<int>,
    depth: u32,
    path: Seq<char>,
    k: int,
)
    requires
        scanner.reaches(tree, chain, depth, path),
        1 <= k <= chain.len(),
    ensures
        !excluded(scanner.patterns(), node_at(tree, chain.take(k)).name@),
        !hidden(node_at(tree, chain.take(k)).name@),
    decreases chain.len(),
{
    let first = tree.children@[chain[0]];
    let head = chain.take(k);
    assert(head[0] == chain[0]);
    if k == 1 {
        assert(head.skip(1) =~= Seq::<int>::empty());
        assert(node_at(first, head.skip(1)) == first);
    } else {
        assert(head.skip(1) =~= chain.skip(1).take(k - 1));
        lemma_reached_names(scanner, first, chain.skip(1), below(depth), path, k - 1);
    }
}

/// The scan returns exactly the repositories at which it arrives. Such a
/// repository lies no deeper than the greatest depth, where there is one,
/// and no directory on the way to it from the root is excluded or hidden.
pub proof fn law_scan_stays_within_limits(scanner: Scanner, tree: DirTree, path: Seq<char>) -> (chain:
    Seq<int>)
    requires
        scanner.found_in(tree, 0).contains(path),
    ensures
        scanner.reaches(tree, chain, 0, path),
        node_at(tree, chain).path@ == path,
        node_at(tree, chain).is_repository,
        scanner.limit() matches Some(limit) ==> chain.len() <= limit,
        forall|k: int|
            1 <= k <= chain.len() ==> !excluded(
                scanner.patterns(),
                #[trigger] node_at(tree, chain.take(k)).name@,
            ) && !hidden(node_at(tree, chain.take(k)).name@),
{
    let chain = lemma_found_is_reached(scanner, tree, 0, path);
    if scanner.limit() is Some {
        lemma_reached_depth(scanner, tree, chain, 0, path);
    }
    assert forall|k: int| 1 <= k <= chain.len() implies !excluded(
        scanner.patterns(),
        #[trigger] node_at(tree, chain.take(k)).name@,
    ) && !hidden(node_at(tree, chain.take(k)).name@) by {
        lemma_reached_names(scanner, tree, chain, 0, path, k);
    }
    lemma_reached_node(scanner, tree, chain, 0, path);
    chain
}

/// The directory at the end of a chain by which the scan arrives at a
/// repository is that repository.
pub proof fn lemma_reached_node(
    scanner: Scanner,
    tree: DirTree,
    chain: Seq<int>,
    depth: u32,
    path: Seq<char>,
)
    requires
        scanner.reaches(tree, chain, depth, path),
    ensures
        node_at(tree, chain).path@ == path,
        node_at(tree, chain).is_repository,
    decreases chain.len(),
{
    if chain.len() > 0 {
        lemma_reached_node(scanner, tree.children@[chain[0]], chain.skip(1), below(depth), path);
    }
}

/// Two lists that hold nothing twice when joined hold nothing twice each,
/// and nothing in common.
pub proof fn lemma_split_distinct(a: Seq<Seq<char>>, b: Seq<Seq<char>>)
    requires
        (a + b).no_duplicates(),
    ensures
        a.no_duplicates(),
        b.no_duplicates(),
        forall|i: int, j: int| 0 <= i < a.len() && 0 <= j < b.len() ==> a[i] != b[j],
{
    let all = a + b;
    assert forall|i: int, j: int| 0 <= i < a.len() && 0 <= j < a.len() && i != j implies a[i]
        != a[j] by {
        assert(all[i] == a[i] && all[j] == a[j]);
    }
    assert forall|i: int, j: int| 0 <= i < b.len() && 0 <= j < b.len() && i != j implies b[i]
        != b[j] by {
        assert(all[a.len() + i] == b[i] && all[a.len() + j] == b[j]);
    }
    assert forall|i: int, j: int| 0 <= i < a.len() && 0 <= j < b.len() implies a[i] != b[j] by {
        assert(all[i] == a[i] && all[a.len() + j] == b[j]);
    }
}

/// Two lists that hold nothing twice each, and nothing in common, hold
/// nothing twice when joined.
pub proof fn lemma_join_distinct(a: Seq<Seq<char>>, b: Seq<Seq<char>>)
    requires
        a.no_duplicates(),
        b.no_duplicates(),
        forall|i: int, j: int| 0 <= i < a.len() && 0 <= j < b.len() ==> a[i] != b[j],
    ensures
        (a + b).no_duplicates(),
{
    let all = a + b;
    assert forall|i: int, j: int| 0 <= i < all.len() && 0 <= j < all.len() && i != j implies all[i]
        != all[j] by {
        if i < a.len() && j < a.len() {
            assert(all[i] == a[i] && all[j] == a[j]);
        } else if i >= a.len() && j >= a.len() {
            assert(all[i] == b[i - a.len()] && all[j] == b[j - a.len()]);
        } else if i < a.len() {
            assert(all[i] == a[i] && all[j] == b[j - a.len()]);
        } else {
            assert(all[j] == a[j] && all[i] == b[i - a.len()]);
        }
    }
}

/// A path that the scan finds in a tree is the path of a directory of the tree.
pub proof fn lemma_found_is_a_path(scanner: Scanner, tree: DirTree, depth: u32, path: Seq<char>)
    requires
        scanner.found_in(tree, depth).contains(path),
    ensures
        paths_of(tree).contains(path),
    decreases tree, 1int,
{
    let here = if scanner.examines(depth) && tree.is_repository {
        seq![tree.path@]
    } else {
        Seq::<Seq<char>>::empty()
    };
    let below_here = paths_among(tree.children@);
    lemma_contains_joined(seq![tree.path@], below_here, path);
    if here.contains(path) {
        assert(here[0] == path);
        assert(seq![tree.path@][0] == path);
    } else {
        let rest = scanner.found_among(tree.children@, below(depth));
        lemma_contains_joined(here, rest, path);
        lemma_found_among_is_a_path(scanner, tree.children@, below(depth), path);
    }
}

/// A path that the scan finds among directories side by side is the path of
/// a directory in one of them.
pub proof fn lemma_found_among_is_a_path(
    scanner: Scanner,
    trees: Seq<DirTree>,
    depth: u32,
    path: Seq<char>,
)
    requires
        scanner.found_among(trees, depth).contains(path),
    ensures
        paths_among(trees).contains(path),
    decreases trees, 0int,
{
    assert(trees.len() > 0);
    let before = scanner.found_among(trees.drop_last(), depth);
    let last = scanner.found_in(trees.last(), depth);
    lemma_contains_joined(paths_among(trees.drop_last()), paths_of(trees.last()), path);
    if scanner.descends(trees.last().name@) {
        lemma_contains_joined(before, last, path);
        if last.contains(path) {
            lemma_found_is_a_path(scanner, trees.last(), depth, path);
        } else {
            lemma_found_among_is_a_path(scanner, trees.drop_last(), depth, path);
        }
    } else {
        lemma_found_among_is_a_path(scanner, trees.drop_last(), depth, path);
    }
}

/// In a tree whose directories have different paths the scan finds no path twice.
pub proof fn lemma_found_differs(scanner: Scanner, tree: DirTree, depth: u32)
    requires
        paths_of(tree).no_duplicates(),
    ensures
        scanner.found_in(tree, depth).no_duplicates(),
    decreases tree, 1int,
{
    let here = if scanner.examines(depth) && tree.is_repository {
        seq![tree.path@]
    } else {
        Seq::<Seq<char>>::empty()
    };
    let own = seq![tree.path@];
    let all_below = paths_among(tree.children@);
    lemma_split_distinct(own, all_below);
    if scanner.enters(depth) {
        let rest = scanner.found_among(tree.children@, below(depth));
        lemma_found_among_differs(scanner, tree.children@, below(depth));
        assert forall|i: int, j: int| 0 <= i < here.len() && 0 <= j < rest.len() implies here[i]
            != rest[j] by {
            assert(rest.contains(rest[j]));
            lemma_found_among_is_a_path(scanner, tree.children@, below(depth), rest[j]);
            let k = choose|k: int| 0 <= k < all_below.len() && all_below[k] == rest[j];
            assert(own[0] != all_below[k]);
        }
        lemma_join_distinct(here, rest);
    }
}

/// Among directories side by side whose directories have different paths the
/// scan finds no path twice.
pub proof fn lemma_found_among_differs(scanner: Scanner, trees: Seq<DirTree>, depth: u32)
    requires
        paths_among(trees).no_duplicates(),
    ensures
        scanner.found_among(trees, depth).no_duplicates(),
    decreases trees, 0int,
{
    if trees.len() > 0 {
        let earlier = paths_among(trees.drop_last());
        let latest = paths_of(trees.last());
        lemma_split_distinct(earlier, latest);
        let before = scanner.found_among(trees.drop_last(), depth);
        let last = scanner.found_in(trees.last(), depth);
        lemma_found_among_differs(scanner, trees.drop_last(), depth);
        if scanner.descends(trees.last().name@) {
            lemma_found_differs(scanner, trees.last(), depth);
            assert forall|i: int, j: int|
                0 <= i < before.len() && 0 <= j < last.len() implies before[i] != last[j] by {
                assert(before.contains(before[i]));
                assert(last.contains(last[j]));
                lemma_found_among_is_a_path(scanner, trees.drop_last(), depth, before[i]);
                lemma_found_is_a_path(scanner, trees.last(), depth, last[j]);
                let a = choose|a: int| 0 <= a < earlier.len() && earlier[a] == before[i];
                let b = choose|b: int| 0 <= b < latest.len() && latest[b] == last[j];
                assert(earlier[a] != latest[b]);
            }
            lemma_join_distinct(before, last);
        }
    }
}

/// A scan of a tree whose directories have different paths returns no path
/// twice.
pub proof fn law_scan_returns_no_path_twice(scanner: Scanner, tree: DirTree)
    requires
        paths_differ(tree),
    ensures
        scanner.found_in(tree, 0).no_duplicates(),
{
    lemma_found_differs(scanner, tree, 0);
}

} // verus!
