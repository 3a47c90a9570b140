//! Finding the repositories below a directory.
//!
//! The scan works on a picture of the directory tree: for each directory its
//! path, its name, whether it is the root of a repository, and the
//! directories in it that could be read.

use crate::git::{config_text, open_repository, remote_names};
use crate::text::{chars_of, contains, contains_text, string_of, texts_of};
use vstd::prelude::*;

verus! {

broadcast use {
    vstd::seq::group_seq_axioms,
    vstd::std_specs::vec::group_vec_axioms,
};

/// One directory and what lies below it.
#[derive(Debug)]
pub struct DirTree {
    /// The path of the directory.
    pub path: String,
    /// The last segment of the path.
    pub name: String,
    /// Whether the directory is the root of a repository.
    pub is_repository: bool,
    /// The directories in it, in the order in which they were read; none
    /// where the directory could not be read.
    pub children: Vec<DirTree>,
}

/// The paths of a directory and of every directory below it, a directory
/// before what lies in it.
pub open spec fn paths_of(tree: DirTree) -> Seq<Seq<char>>
    decreases tree,
{
    seq![tree.path@] + paths_among(tree.children@)
}

/// The paths of directories that lie side by side, and of every directory
/// below them.
pub open spec fn paths_among(trees: Seq<DirTree>) -> Seq<Seq<char>>
    decreases trees,
{
    if trees.len() == 0 {
        Seq::empty()
    } else {
        paths_among(trees.drop_last()) + paths_of(trees.last())
    }
}

/// Whether no two directories of a tree have the same path, as it is of the
/// directories on a disk.
pub open spec fn paths_differ(tree: DirTree) -> bool {
    paths_of(tree).no_duplicates()
}

/// Looks for repositories below a directory.
pub struct Scanner {
    exclude_patterns: Vec<String>,
    max_depth: Option<u32>,
}

/// Whether a directory name is excluded: it is one of the patterns, or one
/// of them stands somewhere in it.
pub open spec fn excluded(patterns: Seq<Seq<char>>, name: Seq<char>) -> bool {
    exists|i: int|
        0 <= i < patterns.len() && (name == #[trigger] patterns[i] || contains_text(
            name,
            patterns[i],
        ))
}

/// Whether a directory name is hidden: it begins with a dot. The directory
/// that holds a repository's own data is hidden too: it is looked at when
/// its parent is tested for a repository, and the scan does not go into it.
pub open spec fn hidden(name: Seq<char>) -> bool {
    name.len() > 0 && name[0] == '.'
}

/// The depth one level down; depths stop counting at the largest number.
pub open spec fn below(depth: u32) -> u32 {
    if depth < u32::MAX {
        (depth + 1) as u32
    } else {
        depth
    }
}

impl Scanner {
    /// The patterns that exclude a directory.
    pub closed spec fn patterns(self) -> Seq<Seq<char>> {
        texts_of(self.exclude_patterns@)
    }

    /// The greatest depth, where there is one.
    pub closed spec fn limit(self) -> Option<u32> {
        self.max_depth
    }

    /// Whether the scan goes into the directories of a directory at `depth`.
    pub open spec fn enters(self, depth: u32) -> bool {
        match self.limit() {
            Some(limit) => depth < limit,
            None => true,
        }
    }

    /// Whether the scan tests a directory at `depth` for a repository: the
    /// root always, any other above the greatest depth.
    pub open spec fn examines(self, depth: u32) -> bool {
        depth == 0 || self.enters(depth)
    }

    /// Whether the scan goes into a directory of that name.
    pub open spec fn descends(self, name: Seq<char>) -> bool {
        !excluded(self.patterns(), name) && !hidden(name)
    }

    /// The repositories that the scan finds in `tree`, which lies at `depth`.
    pub open spec fn found_in(self, tree: DirTree, depth: u32) -> Seq<Seq<char>>
        decreases tree,
    {
        let here = if self.examines(depth) && tree.is_repository {
            seq![tree.path@]
        } else {
            Seq::empty()
        };
        if self.enters(depth) {
            here + self.found_among(tree.children@, below(depth))
        } else {
            here
        }
    }

    /// The repositories that the scan finds in directories that lie side by
    /// side at `depth`.
    pub open spec fn found_among(self, trees: Seq<DirTree>, depth: u32) -> Seq<Seq<char>>
        decreases trees,
    {
        if trees.len() == 0 {
            Seq::empty()
        } else {
            let before = self.found_among(trees.drop_last(), depth);
            if self.descends(trees.last().name@) {
                before + self.found_in(trees.last(), depth)
            } else {
                before
            }
        }
    }

    /// Whether the scan, going down from `tree` at `depth` by the children
    /// that `chain` numbers, arrives at a repository with the path `path`.
    pub open spec fn reaches(
        self,
        tree: DirTree,
        chain: Seq<int>,
        depth: u32,
        path: Seq<char>,
    ) -> bool
        decreases chain.len(),
    {
        if chain.len() == 0 {
            self.examines(depth) && tree.is_repository && tree.path@ == path
        } else {
            let i = chain[0];
            &&& 0 <= i < tree.children@.len()
            &&& self.enters(depth)
            &&& self.descends(tree.children@[i].name@)
            &&& self.reaches(tree.children@[i], chain.skip(1), below(depth), path)
        }
    }

    /// A scanner with its patterns and its greatest depth.
    pub fn new(exclude_patterns: Vec<String>, max_depth: Option<u32>) -> (scanner: Scanner)
        ensures
            scanner.patterns() == texts_of(exclude_patterns@),
            scanner.limit() == max_depth,
    {
        Scanner { exclude_patterns, max_depth }
    }

    /// Tests whether a directory name is excluded.
    pub fn should_exclude(&self, name: &str) -> (r: bool)
        ensures
            r == excluded(self.patterns(), name@),
    {
        let letters = chars_of(name);
        let mut i: usize = 0;
        while i < self.exclude_patterns.len()
            invariant
                i <= self.exclude_patterns.len(),
                letters@ == name@,
                forall|k: int|
                    0 <= k < i ==> !(name@ == #[trigger] self.patterns()[k] || contains_text(
                        name@,
                        self.patterns()[k],
                    )),
            decreases self.exclude_patterns.len() - i,
        {
            let pattern = chars_of(self.exclude_patterns[i].as_str());
            assert(self.patterns()[i as int] == pattern@);
            if contains(&letters, &pattern) {
                return true;
            }
            proof {
                if name@ == pattern@ {
                    assert(name@.subrange(0, name@.len() as int) =~= pattern@);
                    assert(crate::text::occurs_at(name@, pattern@, 0));
                }
            }
            i += 1;
        }
        false
    }

    /// Tests whether the scan goes into a directory of that name.
    pub fn descends_into(&self, name: &str) -> (r: bool)
        ensures
            r == self.descends(name@),
    {
        if self.should_exclude(name) {
            return false;
        }
        let letters = chars_of(name);
        let is_hidden = letters.len() > 0 && letters[0] == '.';
        !is_hidden
    }

    /// Tests whether the scan goes into the directories of a directory at `depth`.
    pub fn enters_at(&self, depth: u32) -> (r: bool)
        ensures
            r == self.enters(depth),
    {
        match self.max_depth {
            Some(limit) => depth < limit,
            None => true,
        }
    }

    /// Tests whether the scan tests a directory at `depth` for a repository.
    pub fn examines_at(&self, depth: u32) -> (r: bool)
        ensures
            r == self.examines(depth),
    {
        depth == 0 || self.enters_at(depth)
    }

    /// The repositories in `tree`: the path of each directory that is the
    /// root of a repository and that the scan arrives at, a directory before
    /// what lies in it, directories side by side in their order. Where the
    /// directories of the tree have different paths, no path comes twice.
    pub fn scan(&self, tree: &DirTree) -> (repos: Vec<String>)
        ensures
            texts_of(repos@) == self.found_in(*tree, 0),
            paths_differ(*tree) ==> texts_of(repos@).no_duplicates(),
    {
        let mut repos: Vec<String> = Vec::new();
        self.scan_recursive(tree, 0, &mut repos);
        proof {
            if paths_differ(*tree) {
                crate::scan_laws::lemma_found_differs(*self, *tree, 0);
            }
            assert(Seq::<Seq<char>>::empty() + self.found_in(*tree, 0) =~= self.found_in(
                *tree,
                0,
            ));
            assert(texts_of(Seq::<String>::empty()) =~= Seq::<Seq<char>>::empty());
        }
        repos
    }

    /// Adds the repositories in `tree`, which lies at `depth`, to `repos`.
    fn scan_recursive(&self, tree: &DirTree, depth: u32, repos: &mut Vec<String>)
        ensures
            texts_of(final(repos)@) == texts_of(old(repos)@) + self.found_in(
                *tree,
                depth,
            ),
        decreases tree,
    {
        let ghost start = texts_of(repos@);
        if self.examines_at(depth) && tree.is_repository {
            repos.push(tree.path.clone());
            proof {
                assert(texts_of(repos@) =~= start + seq![tree.path@]);
            }
        }
        let ghost here = texts_of(repos@);
        if !self.enters_at(depth) {
            proof {
                assert(start + Seq::<Seq<char>>::empty() =~= start);
            }
            return ;
        }
        let next: u32 = if depth < u32::MAX {
            depth + 1
        } else {
            depth
        };
        let mut i: usize = 0;
        proof {
            assert(tree.children@.take(0) =~= Seq::<DirTree>::empty());
            assert(here + Seq::<Seq<char>>::empty() =~= here);
        }
        while i < tree.children.len()
            invariant
                i <= tree.children.len(),
                next == below(depth),
                texts_of(repos@) == here + self.found_among(
                    tree.children@.take(i as int),
                    next,
                ),
            decreases tree.children.len() - i,
        {
            let child = &tree.children[i];
            let ghost so_far = self.found_among(tree.children@.take(i as int), next);
            proof {
                assert(tree.children@.take(i + 1).drop_last() =~= tree.children@.take(i as int));
                assert(tree.children@.take(i + 1).last() == *child);
            }
            if self.descends_into(child.name.as_str()) {
                self.scan_recursive(child, next, repos);
                proof {
                    assert((here + so_far) + self.found_in(*child, next) =~= here + (so_far
                        + self.found_in(*child, next)));
                }
            }
            i += 1;
        }
        proof {
            assert(tree.children@.take(i as int) =~= tree.children@);
            let below_here = self.found_among(tree.children@, next);
            assert((start + (here.skip(start.len() as int))) =~= here);
            if self.examines(depth) && tree.is_repository {
                assert((start + seq![tree.path@]) + below_here =~= start + (seq![tree.path@]
                    + below_here));
            } else {
                assert(start + below_here =~= start + (Seq::<Seq<char>>::empty() + below_here));
            }
        }
    }

    /// The name of a repository: the final component of its path, or
    /// `unknown` where the path has none.
    pub fn get_repo_name(path: &str) -> (name: String)
        ensures
            name@ == repo_name_of(path@),
    {
        name_or_unknown(last_segment(path))
    }

    /// The address of the first remote of the repository at `path`: the
    /// value of the setting `remote.<name>.url` for the first name in the
    /// repository's list of remotes. `None` where the path holds no
    /// repository, the repository has no remote, or the first remote has no
    /// address. An address that is returned is never empty.
    pub fn get_remote_url(path: &str) -> (url: Option<String>)
        ensures
            url matches Some(address) ==> address@.len() > 0,
    {
        let repo = match open_repository(path) {
            Ok(repo) => repo,
            Err(_) => {
                return None;
            },
        };
        let names = match remote_names(&repo) {
            Ok(names) => names,
            Err(_) => {
                return None;
            },
        };
        let name = match first_remote(&names) {
            Some(name) => name,
            None => {
                return None;
            },
        };
        let key = url_setting(name.as_str());
        match config_text(&repo, key.as_str()) {
            Ok(value) => configured_url(Some(value)),
            Err(_) => configured_url(None),
        }
    }
}

/// The remote whose address describes a repository: the first in the list
/// of its remotes. `None` for an empty list and for a first name that
/// cannot be read.
pub open spec fn first_of(names: Seq<Option<String>>) -> Option<Seq<char>> {
    if names.len() > 0 {
        names[0].deep_view()
    } else {
        None
    }
}

/// Picks the remote whose address describes a repository.
pub fn first_remote(names: &Vec<Option<String>>) -> (name: Option<String>)
    ensures
        name.deep_view() == first_of(names@),
{
    if names.len() == 0 {
        return None;
    }
    match &names[0] {
        Some(name) => Some(name.clone()),
        None => None,
    }
}

/// The key of the setting that holds the address of the remote `name`.
pub fn url_setting(name: &str) -> (key: String)
    ensures
        key@ == "remote."@ + name@ + ".url"@,
{
    let mut out: Vec<char> = chars_of("remote.");
    crate::text::append(&mut out, &chars_of(name));
    crate::text::append(&mut out, &chars_of(".url"));
    string_of(&out)
}

/// The address that a setting gives: its value, unless the setting is not
/// there or its value is empty.
pub fn configured_url(value: Option<String>) -> (url: Option<String>)
    ensures
        url.deep_view() == (match value {
            Some(text) => if text@.len() > 0 {
                Some(text@)
            } else {
                None
            },
            None => None,
        }),
{
    match value {
        Some(text) => {
            if text.as_str().unicode_len() > 0 {
                Some(text)
            } else {
                None
            }
        },
        None => None,
    }
}

/// The final component of a path, as the platform that the library is built
/// for takes paths apart; `None` for a path that has none, such as the root
/// or a path that ends in `..`.
pub uninterp spec fn file_name_of(path: Seq<char>) -> Option<Seq<char>>;

/// The name of the repository at `path`: the final component of the path, or
/// `unknown` where it has none.
pub open spec fn repo_name_of(path: Seq<char>) -> Seq<char> {
    match file_name_of(path) {
        Some(name) => name,
        None => "unknown"@,
    }
}

/// Calls `std::path::Path::file_name` on the path: its final component,
/// where it has one. The contract gives the result its name, and says that a
/// component is not empty and is a part of the path.
#[verifier::external_body]
pub(crate) fn last_segment(path: &str) -> (r: Option<String>)
    ensures
        r.deep_view() == file_name_of(path@),
        r matches Some(name) ==> name@.len() > 0 && contains_text(path@, name@),
{
    std::path::Path::new(path).file_name().and_then(|n| n.to_str()).map(String::from)
}

/// The name of a repository from the last segment of its path: the segment,
/// or `unknown` where there is none.
pub fn name_or_unknown(segment: Option<String>) -> (name: String)
    ensures
        name@ == (match segment {
            Some(text) => text@,
            None => "unknown"@,
        }),
{
    match segment {
        Some(text) => text,
        None => string_of(&chars_of("unknown")),
    }
}

} // verus!
