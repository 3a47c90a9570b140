//! Issue and pull-request references in commit messages, and the owner and
//! name of a repository as its remote address gives them.

use crate::decimal::{decimal_of, parse_u32, parsed_u32, push_decimal};
use crate::model::GitHubRepo;
use crate::text::{append, chars_of, occurs_at, slice, string_of, trim, trimmed};
use vstd::prelude::*;

verus! {

/// Every match of a pattern in a text, in the order in which they stand,
/// each with the text of its groups, the whole match first and `None` for a
/// group that took no part. `None` where the pattern is no valid expression.
pub uninterp spec fn regex_matches(pattern: Seq<char>, text: Seq<char>) -> Option<
    Seq<Seq<Option<Seq<char>>>>,
>;

/// The first match of a pattern in a text with the text of its groups, the
/// whole match first. The inner `None` says that the pattern matches nowhere,
/// the outer one that the pattern is no valid expression.
pub uninterp spec fn regex_first_match(pattern: Seq<char>, text: Seq<char>) -> Option<
    Option<Seq<Option<Seq<char>>>>,
>;

/// Compiles the pattern with `regex::Regex::new` and collects what
/// `Regex::captures_iter` yields on the text: for each match the text of
/// each group. The contract only gives the result its name: it depends on
/// nothing but the pattern and the text.
#[verifier::external_body]
pub(crate) fn all_matches(pattern: &str, text: &str) -> (r: Option<Vec<Vec<Option<String>>>>)
    ensures
        r.deep_view() == regex_matches(pattern@, text@),
{
    match regex::Regex::new(pattern) {
        Ok(re) => Some(
            re.captures_iter(text).map(
                |c| c.iter().map(|g| g.map(|m| m.as_str().to_string())).collect(),
            ).collect(),
        ),
        Err(_) => None,
    }
}

/// Compiles the pattern with `regex::Regex::new` and asks `Regex::captures`
/// for the first match in the text. The contract only gives the result its
/// name: it depends on nothing but the pattern and the text.
#[verifier::external_body]
pub(crate) fn first_match(pattern: &str, text: &str) -> (r: Option<Option<Vec<Option<String>>>>)
    ensures
        r.deep_view() == regex_first_match(pattern@, text@),
{
    match regex::Regex::new(pattern) {
        Ok(re) => Some(
            re.captures(text).map(
                |c| c.iter().map(|g| g.map(|m| m.as_str().to_string())).collect(),
            ),
        ),
        Err(_) => None,
    }
}

/// Whether each number is less than the next.
pub open spec fn ascending(s: Seq<u32>) -> bool {
    forall|i: int, j: int| 0 <= i < j < s.len() ==> s[i] < s[j]
}

/// The number that one match refers to: what its first group writes.
pub open spec fn number_in(groups: Seq<Option<Seq<char>>>) -> Option<u32> {
    if groups.len() > 1 && groups[1] is Some {
        parsed_u32(groups[1]->0)
    } else {
        None
    }
}

/// Whether the `m`-th match of the `p`-th pattern refers to `n`.
pub open spec fn refers_to(
    found: Seq<Option<Seq<Seq<Option<Seq<char>>>>>>,
    p: int,
    m: int,
    n: u32,
) -> bool {
    &&& 0 <= p < found.len()
    &&& found[p] is Some
    &&& 0 <= m < found[p]->0.len()
    &&& number_in(found[p]->0[m]) == Some(n)
}

/// The numbers that the matches of several patterns refer to.
pub open spec fn numbers_found(found: Seq<Option<Seq<Seq<Option<Seq<char>>>>>>) -> Set<u32> {
    Set::new(|n: u32| exists|p: int, m: int| refers_to(found, p, m, n))
}

/// Puts `n` in its place in an ascending list, unless the list holds it.
pub fn insert_sorted(v: &mut Vec<u32>, n: u32)
    requires
        ascending(old(v)@),
    ensures
        ascending(final(v)@),
        forall|x: u32| final(v)@.contains(x) <==> (old(v)@.contains(x) || x == n),
{
    let mut k: usize = 0;
    while k < v.len() && v[k] < n
        invariant
            k <= v.len(),
            v@ == old(v)@,
            forall|j: int| 0 <= j < k ==> v@[j] < n,
        decreases v.len() - k,
    {
        k += 1;
    }
    if k < v.len() && v[k] == n {
        assert(v@.contains(n));
        return ;
    }
    let ghost before = v@;
    v.insert(k, n);
    proof {
        assert(v@.len() == before.len() + 1);
        assert(forall|j: int| 0 <= j < k ==> v@[j] == before[j]);
        assert(v@[k as int] == n);
        assert(forall|j: int| k < j < v@.len() ==> v@[j] == before[j - 1]);
        assert forall|x: u32| v@.contains(x) <==> (before.contains(x) || x == n) by {
            if before.contains(x) {
                let j = choose|j: int| 0 <= j < before.len() && before[j] == x;
                if j < k {
                    assert(v@[j] == x);
                } else {
                    assert(v@[j + 1] == x);
                }
            }
            if v@.contains(x) {
                let j = choose|j: int| 0 <= j < v@.len() && v@[j] == x;
                if j < k {
                    assert(before[j] == x);
                } else if j > k {
                    assert(before[j - 1] == x);
                }
            }
        }
    }
}

/// The numbers that the matches of several patterns refer to, each once, in
/// ascending order. An entry of `found` holds the matches of one pattern, or
/// `None` where the pattern was no valid expression.
pub fn collect_numbers(found: &Vec<Option<Vec<Vec<Option<String>>>>>) -> (r: Vec<u32>)
    ensures
        ascending(r@),
        forall|n: u32| r@.contains(n) <==> numbers_found(found.deep_view()).contains(n),
{
    let mut out: Vec<u32> = Vec::new();
    let ghost all = found.deep_view();
    let mut p: usize = 0;
    while p < found.len()
        invariant
            p <= found.len(),
            all == found.deep_view(),
            ascending(out@),
            forall|n: u32|
                out@.contains(n) <==> exists|q: int, m: int| q < p && refers_to(all, q, m, n),
        decreases found.len() - p,
    {
        match &found[p] {
            None => {
                assert(all[p as int] is None);
            },
            Some(matches) => {
                assert(all[p as int] == Some(matches.deep_view()));
                let mut m: usize = 0;
                while m < matches.len()
                    invariant
                        m <= matches.len(),
                        p < found.len(),
                        all == found.deep_view(),
                        all[p as int] == Some(matches.deep_view()),
                        ascending(out@),
                        forall|n: u32|
                            out@.contains(n) <==> exists|q: int, k: int|
                                (q < p || (q == p && k < m)) && refers_to(all, q, k, n),
                    decreases matches.len() - m,
                {
                    let groups = &matches[m];
                    let ghost texts = groups.deep_view();
                    assert(matches.deep_view()[m as int] == texts);
                    let number: Option<u32> = if groups.len() > 1 {
                        match &groups[1] {
                            Some(text) => {
                                assert(texts[1] == Some(text@));
                                let digits = chars_of(text.as_str());
                                parse_u32(&digits)
                            },
                            None => {
                                assert(texts[1] is None);
                                None
                            },
                        }
                    } else {
                        None
                    };
                    assert(number == number_in(texts));
                    let ghost earlier = out@;
                    if let Some(n) = number {
                        insert_sorted(&mut out, n);
                        assert(refers_to(all, p as int, m as int, n));
                    }
                    proof {
                        assert forall|n: u32|
                            out@.contains(n) <==> exists|q: int, k: int|
                                (q < p || (q == p && k < m + 1)) && refers_to(
                                    all,
                                    q,
                                    k,
                                    n,
                                ) by {
                            if out@.contains(n) {
                                if earlier.contains(n) {
                                    let (q, k) = choose|q: int, k: int|
                                        (q < p || (q == p && k < m)) && refers_to(all, q, k, n);
                                    assert((q < p || (q == p && k < m + 1)) && refers_to(
                                        all,
                                        q,
                                        k,
                                        n,
                                    ));
                                } else {
                                    assert(refers_to(all, p as int, m as int, n));
                                }
                            }
                            if exists|q: int, k: int|
                                (q < p || (q == p && k < m + 1)) && refers_to(all, q, k, n) {
                                let (q, k) = choose|q: int, k: int|
                                    (q < p || (q == p && k < m + 1)) && refers_to(all, q, k, n);
                                if q == p && k == m {
                                    assert(number == Some(n));
                                } else {
                                    assert((q < p || (q == p && k < m)) && refers_to(
                                        all,
                                        q,
                                        k,
                                        n,
                                    ));
                                }
                            }
                        }
                    }
                    m += 1;
                }
            },
        }
        proof {
            assert forall|n: u32|
                out@.contains(n) <==> exists|q: int, m: int| q < p + 1 && refers_to(
                    all,
                    q,
                    m,
                    n,
                ) by {
                if out@.contains(n) {
                    if all[p as int] is Some {
                        let (q, k) = choose|q: int, k: int|
                            (q < p || (q == p && k < all[p as int]->0.len())) && refers_to(
                                all,
                                q,
                                k,
                                n,
                            );
                        assert(q < p + 1 && refers_to(all, q, k, n));
                    } else {
                        let (q, k) = choose|q: int, k: int| q < p && refers_to(all, q, k, n);
                        assert(q < p + 1 && refers_to(all, q, k, n));
                    }
                }
                if exists|q: int, m: int| q < p + 1 && refers_to(all, q, m, n) {
                    let (q, k) = choose|q: int, k: int| q < p + 1 && refers_to(all, q, k, n);
                    if all[p as int] is Some {
                        assert((q < p || (q == p && k < all[p as int]->0.len())) && refers_to(
                            all,
                            q,
                            k,
                            n,
                        ));
                    } else {
                        assert(q < p && refers_to(all, q, k, n));
                    }
                }
            }
        }
        p += 1;
    }
    proof {
        assert forall|n: u32| out@.contains(n) <==> numbers_found(all).contains(n) by {
            if out@.contains(n) {
                let (q, k) = choose|q: int, k: int| q < p && refers_to(all, q, k, n);
                assert(refers_to(all, q, k, n));
            }
            if numbers_found(all).contains(n) {
                let (q, k) = choose|q: int, k: int| refers_to(all, q, k, n);
                assert(q < p && refers_to(all, q, k, n));
            }
        }
    }
    out
}

/// What the four reference patterns find in a message: a number after `#`,
/// after `GH-`, after `PR#` and after `pull request #`.
pub open spec fn reference_matches(message: Seq<char>) -> Seq<
    Option<Seq<Seq<Option<Seq<char>>>>>,
> {
    seq![
        regex_matches("#(\\d+)"@, message),
        regex_matches("GH-(\\d+)"@, message),
        regex_matches("PR#(\\d+)"@, message),
        regex_matches("pull request #(\\d+)"@, message),
    ]
}

/// The issue and pull-request numbers that a commit message mentions, each
/// once, in ascending order.
pub fn extract_pr_numbers(message: &str) -> (r: Vec<u32>)
    ensures
        ascending(r@),
        forall|n: u32|
            r@.contains(n) <==> numbers_found(reference_matches(message@)).contains(n),
{
    let mut found: Vec<Option<Vec<Vec<Option<String>>>>> = Vec::new();
    found.push(all_matches("#(\\d+)", message));
    found.push(all_matches("GH-(\\d+)", message));
    found.push(all_matches("PR#(\\d+)", message));
    found.push(all_matches("pull request #(\\d+)", message));
    proof {
        assert(found.deep_view() =~= reference_matches(message@));
    }
    collect_numbers(&found)
}

impl View for GitHubRepo {
    type V = (Seq<char>, Seq<char>);

    open spec fn view(&self) -> (Seq<char>, Seq<char>) {
        (self.owner@, self.repo@)
    }
}

/// `s` without any run of `suffix` at its end.
pub open spec fn strip_suffixes(s: Seq<char>, suffix: Seq<char>) -> Seq<char>
    decreases s.len(),
{
    if suffix.len() > 0 && occurs_at(s, suffix, s.len() - suffix.len()) {
        strip_suffixes(s.take(s.len() - suffix.len()), suffix)
    } else {
        s
    }
}

/// Removes every run of `suffix` from the end of `v`.
pub fn trim_end_matches(v: &Vec<char>, suffix: &Vec<char>) -> (r: Vec<char>)
    ensures
        r@ == strip_suffixes(v@, suffix@),
{
    let mut end: usize = v.len();
    proof {
        assert(v@.take(end as int) =~= v@);
    }
    if suffix.len() == 0 {
        return slice(v, 0, end);
    }
    loop
        invariant
            end <= v.len(),
            suffix.len() > 0,
            strip_suffixes(v@, suffix@) == strip_suffixes(v@.take(end as int), suffix@),
        ensures
            end <= v.len(),
            strip_suffixes(v@, suffix@) == v@.take(end as int),
        decreases end,
    {
        let ghost now = v@.take(end as int);
        if end < suffix.len() {
            assert(strip_suffixes(now, suffix@) == now);
            break ;
        }
        let at: usize = end - suffix.len();
        let mut same: bool = true;
        let mut k: usize = 0;
        while k < suffix.len()
            invariant
                k <= suffix.len(),
                at + suffix.len() == end,
                end <= v.len(),
                same == (forall|j: int| 0 <= j < k ==> v@[at + j] == suffix@[j]),
            decreases suffix.len() - k,
        {
            if v[at + k] != suffix[k] {
                same = false;
            }
            k += 1;
        }
        proof {
            let part = now.subrange(at as int, end as int);
            if same {
                assert(part =~= suffix@);
            } else {
                let j = choose|j: int| 0 <= j < suffix.len() && v@[at + j] != suffix@[j];
                assert(part[j] == v@[at + j]);
            }
            assert(same == occurs_at(now, suffix@, at as int));
        }
        if !same {
            assert(strip_suffixes(now, suffix@) == now);
            break ;
        }
        proof {
            assert(now.take(at as int) =~= v@.take(at as int));
        }
        end = at;
    }
    proof {
        assert(v@.take(end as int) =~= v@.subrange(0, end as int));
    }
    slice(v, 0, end)
}

/// The owner and name that the groups of a match give: the first group is
/// the owner, the second, without `.git` at its end, the name. Dots in the
/// name stay. A name of which nothing is left gives no identifier.
pub open spec fn identifier_in(groups: Seq<Option<Seq<char>>>) -> Option<(Seq<char>, Seq<char>)> {
    if groups.len() > 2 && groups[1] is Some && groups[2] is Some && strip_suffixes(
        groups[2]->0,
        ".git"@,
    ).len() > 0 {
        Some((groups[1]->0, strip_suffixes(groups[2]->0, ".git"@)))
    } else {
        None
    }
}

/// The owner and name of a repository from the groups of a match.
pub fn identifier_of(groups: &Vec<Option<String>>) -> (r: Option<GitHubRepo>)
    ensures
        match r {
            Some(repo) => identifier_in(groups.deep_view()) == Some(repo@),
            None => identifier_in(groups.deep_view()) is None,
        },
{
    if groups.len() <= 2 {
        return None;
    }
    let ghost texts = groups.deep_view();
    match (&groups[1], &groups[2]) {
        (Some(owner), Some(name)) => {
            assert(texts[1] == Some(owner@));
            assert(texts[2] == Some(name@));
            let bare = trim_end_matches(&chars_of(name.as_str()), &chars_of(".git"));
            if bare.len() == 0 {
                return None;
            }
            Some(GitHubRepo { owner: owner.clone(), repo: string_of(&bare) })
        },
        _ => {
            assert(texts[1] is None || texts[2] is None);
            None
        },
    }
}

/// The owner and name that a remote address gives. The address, without the
/// white space around it, is tried as an HTTPS address, then as an SSH
/// address, then as an address of the git protocol; the first form that
/// matches decides. In each form the owner runs to the first slash after
/// the host and the name from there to the next slash or the end.
pub open spec fn github_repo_of(url: Seq<char>) -> Option<(Seq<char>, Seq<char>)> {
    let address = trimmed(url);
    match regex_first_match("https://github\\.com/([^/]+)/([^/]+)"@, address) {
        None => None,
        Some(Some(groups)) => identifier_in(groups),
        Some(None) => match regex_first_match("git@github\\.com:([^/]+)/([^/]+)"@, address) {
            None => None,
            Some(Some(groups)) => identifier_in(groups),
            Some(None) => match regex_first_match(
                "git://github\\.com/([^/]+)/([^/]+)"@,
                address,
            ) {
                None => None,
                Some(Some(groups)) => identifier_in(groups),
                Some(None) => None,
            },
        },
    }
}

/// The owner and name of a repository from the address of its remote, or
/// `None` where the address has none of the known forms.
pub fn parse_github_url(url: &str) -> (r: Option<GitHubRepo>)
    ensures
        match r {
            Some(repo) => github_repo_of(url@) == Some(repo@),
            None => github_repo_of(url@) is None,
        },
{
    let address = string_of(&trim(&chars_of(url)));
    match first_match("https://github\\.com/([^/]+)/([^/]+)", address.as_str()) {
        None => {
            return None;
        },
        Some(Some(groups)) => {
            return identifier_of(&groups);
        },
        Some(None) => {},
    }
    match first_match("git@github\\.com:([^/]+)/([^/]+)", address.as_str()) {
        None => {
            return None;
        },
        Some(Some(groups)) => {
            return identifier_of(&groups);
        },
        Some(None) => {},
    }
    match first_match("git://github\\.com/([^/]+)/([^/]+)", address.as_str()) {
        None => None,
        Some(Some(groups)) => identifier_of(&groups),
        Some(None) => None,
    }
}

impl GitHubRepo {
    /// The web address of a pull request of the repository.
    pub fn pr_url(&self, pr_number: u32) -> (url: String)
        ensures
            url@ == "https://github.com/"@ + self.owner@ + "/"@ + self.repo@ + "/pull/"@
                + decimal_of(pr_number as nat),
    {
        let mut out: Vec<char> = chars_of("https://github.com/");
        append(&mut out, &chars_of(self.owner.as_str()));
        append(&mut out, &chars_of("/"));
        append(&mut out, &chars_of(self.repo.as_str()));
        append(&mut out, &chars_of("/pull/"));
        push_decimal(&mut out, pr_number as u64);
        string_of(&out)
    }

    /// The web address of a commit of the repository.
    pub fn commit_url(&self, hash: &str) -> (url: String)
        ensures
            url@ == "https://github.com/"@ + self.owner@ + "/"@ + self.repo@ + "/commit/"@
                + hash@,
    {
        let mut out: Vec<char> = chars_of("https://github.com/");
        append(&mut out, &chars_of(self.owner.as_str()));
        append(&mut out, &chars_of("/"));
        append(&mut out, &chars_of(self.repo.as_str()));
        append(&mut out, &chars_of("/commit/"));
        append(&mut out, &chars_of(hash));
        string_of(&out)
    }
}

} // verus!
