use dev_recap::analysis::{analyze_repository, assemble_repository, failed_repository};
use dev_recap::clock::convert_timestamp;
use dev_recap::stats::label_of_day;
use dev_recap::error::DevRecapError;
use dev_recap::model::{Author, CommitRecord, Timespan};
use dev_recap::parser::{
    diff_base, diff_summary, extract_author, saturate, Candidate, DeltaPaths, DiffBase, Parser,
};
use dev_recap::scanner::{configured_url, first_remote, url_setting};
use dev_recap::scanner::Scanner;
use std::path::Path;
use tempfile::TempDir;

fn commit_file(repo: &git2::Repository, name: &str, content: &str, message: &str, when: i64) {
    let parents: Vec<git2::Commit> = match repo.head() {
        Ok(head) => vec![head.peel_to_commit().unwrap()],
        Err(_) => vec![],
    };
    let base = parents.first().map(|p| p.tree().unwrap());
    let blob = repo.blob(content.as_bytes()).unwrap();
    let mut builder = repo.treebuilder(base.as_ref()).unwrap();
    builder.insert(name, blob, 0o100644).unwrap();
    let tree_id = builder.write().unwrap();
    let tree = repo.find_tree(tree_id).unwrap();
    let signature =
        git2::Signature::new("Test User", "test@example.com", &git2::Time::new(when, 0)).unwrap();
    let refs: Vec<&git2::Commit> = parents.iter().collect();
    repo.commit(Some("HEAD"), &signature, &signature, message, &tree, &refs)
        .unwrap();
}

fn create_test_repo_with_commits(temp_dir: &Path) {
    let repo = git2::Repository::init(temp_dir).unwrap();
    let now = chrono::Utc::now().timestamp();
    commit_file(&repo, "test.txt", "Hello, world!\n", "Initial commit #123", now - 60);
}

fn days_back(days: u32) -> Timespan {
    Timespan::days_back(days)
}

fn path_text(dir: &TempDir) -> String {
    dir.path().to_str().unwrap().to_string()
}

#[test]
fn test_parse_commits() {
    let temp_dir = TempDir::new().unwrap();
    create_test_repo_with_commits(temp_dir.path());

    let timespan = days_back(1);
    let parser = Parser::new(None, timespan);

    let commits = parser.parse_commits(&path_text(&temp_dir)).unwrap();
    assert_eq!(commits.len(), 1);
    assert_eq!(commits[0].summary, "Initial commit #123");
    assert_eq!(commits[0].author.email, "test@example.com");
}

#[test]
fn test_parse_commits_fields() {
    let temp_dir = TempDir::new().unwrap();
    create_test_repo_with_commits(temp_dir.path());
    let parser = Parser::new(None, days_back(1));
    let commits = parser.parse_commits(&path_text(&temp_dir)).unwrap();
    let commit = &commits[0];
    assert_eq!(commit.hash.len(), 40);
    assert_eq!(commit.short_hash, &commit.hash[..7]);
    assert_eq!(commit.author.name, "Test User");
    assert_eq!(commit.message, "Initial commit #123");
    assert!(commit.body.is_none());
    assert_eq!(commit.files_changed, vec!["test.txt"]);
    assert_eq!(commit.pr_numbers, vec![123]);
    let repo = git2::Repository::open(temp_dir.path()).unwrap();
    let head = repo.head().unwrap().peel_to_commit().unwrap();
    assert_eq!(commit.hash, head.id().to_string());
    assert_eq!(commit.timestamp, head.time().seconds());
    assert!(chrono::DateTime::from_timestamp(commit.timestamp, 0).is_some());
}

#[test]
fn test_root_commit_counts_as_insertions() {
    let temp_dir = TempDir::new().unwrap();
    let repo = git2::Repository::init(temp_dir.path()).unwrap();
    let now = chrono::Utc::now().timestamp();
    commit_file(&repo, "a.txt", "one\ntwo\nthree\n", "root", now - 300);
    let parser = Parser::new(None, days_back(1));
    let commits = parser.parse_commits(&path_text(&temp_dir)).unwrap();
    assert_eq!(commits.len(), 1);
    assert_eq!(commits[0].insertions, 3);
    assert_eq!(commits[0].deletions, 0);
    assert_eq!(commits[0].files_changed, vec!["a.txt"]);
}

#[test]
fn test_diff_is_against_first_parent() {
    let temp_dir = TempDir::new().unwrap();
    let repo = git2::Repository::init(temp_dir.path()).unwrap();
    let now = chrono::Utc::now().timestamp();
    commit_file(&repo, "a.txt", "one\ntwo\nthree\n", "root", now - 300);
    commit_file(&repo, "a.txt", "one\n2\nthree\nfour\n", "second\n\nbody #4", now - 200);
    let parser = Parser::new(None, days_back(1));
    let commits = parser.parse_commits(&path_text(&temp_dir)).unwrap();
    assert_eq!(commits.len(), 2);
    assert_eq!(commits[0].summary, "second");
    assert_eq!(commits[0].body, Some("body #4".to_string()));
    assert_eq!(commits[0].insertions, 2);
    assert_eq!(commits[0].deletions, 1);
    assert_eq!(commits[0].pr_numbers, vec![4]);
    assert_eq!(commits[1].summary, "root");
    assert_eq!(commits[1].insertions, 3);
    assert_eq!(commits[1].deletions, 0);
}

#[test]
fn test_author_filter() {
    let temp_dir = TempDir::new().unwrap();
    create_test_repo_with_commits(temp_dir.path());

    let timespan = days_back(1);
    let parser = Parser::new(Some("test@example.com".to_string()), timespan);

    let commits = parser.parse_commits(&path_text(&temp_dir)).unwrap();
    assert_eq!(commits.len(), 1);

    let timespan = days_back(1);
    let parser = Parser::new(Some("wrong@example.com".to_string()), timespan);
    let commits = parser.parse_commits(&path_text(&temp_dir)).unwrap();
    assert_eq!(commits.len(), 0);
}

#[test]
fn test_author_filter_ignores_case_and_takes_parts() {
    let span = Timespan::from_dates(0, 10);
    let upper = Parser::new(Some("Test@Example.com".to_string()), span);
    assert!(upper.accepts(5, "test@example.com"));
    let part = Parser::new(Some("EXAMPLE".to_string()), span);
    assert!(part.accepts(5, "test@example.com"));
    let wrong = Parser::new(Some("wrong@example.com".to_string()), span);
    assert!(!wrong.accepts(5, "test@example.com"));
    let any = Parser::new(None, span);
    assert!(any.accepts(5, "whoever"));
}

#[test]
fn test_time_window_is_inclusive() {
    let parser = Parser::new(None, Timespan::from_dates(100, 200));
    assert!(parser.accepts(100, "a"));
    assert!(parser.accepts(200, "a"));
    assert!(!parser.accepts(99, "a"));
    assert!(!parser.accepts(201, "a"));
}

#[test]
fn test_commit_exactly_at_start_is_included() {
    let temp_dir = TempDir::new().unwrap();
    let repo = git2::Repository::init(temp_dir.path()).unwrap();
    commit_file(&repo, "a.txt", "x\n", "at start", 1_700_000_000);
    commit_file(&repo, "a.txt", "y\n", "at end", 1_700_000_500);
    commit_file(&repo, "a.txt", "z\n", "after", 1_700_000_501);
    let parser = Parser::new(None, Timespan::from_dates(1_700_000_000, 1_700_000_500));
    let commits = parser.parse_commits(&path_text(&temp_dir)).unwrap();
    let summaries: Vec<&str> = commits.iter().map(|c| c.summary.as_str()).collect();
    assert_eq!(summaries, vec!["at end", "at start"]);
    for commit in &commits {
        assert!(1_700_000_000 <= commit.timestamp && commit.timestamp <= 1_700_000_500);
    }
}

#[test]
fn test_split_message() {
    let message = "Summary line\n\nBody paragraph 1\n\nBody paragraph 2";
    let (summary, body) = Parser::split_message(message);
    assert_eq!(summary, "Summary line");
    assert!(body.is_some());
    assert!(body.unwrap().contains("Body paragraph"));

    let message = "Just summary";
    let (summary, body) = Parser::split_message(message);
    assert_eq!(summary, "Just summary");
    assert!(body.is_none());
}

#[test]
fn test_split_message_exact() {
    let (summary, body) = Parser::split_message("  Summary \r\n \n\t\nfirst\r\n\nsecond\n");
    assert_eq!(summary, "Summary");
    assert_eq!(body, Some("first\n\nsecond".to_string()));
    assert_eq!(Parser::split_message(""), (String::new(), None));
    assert_eq!(Parser::split_message("one\n\n  \n"), ("one".to_string(), None));
    assert_eq!(
        Parser::split_message("\nbody only"),
        (String::new(), Some("body only".to_string()))
    );
}

#[test]
fn test_parse_commits_not_a_repository() {
    let temp_dir = TempDir::new().unwrap();
    let parser = Parser::new(None, days_back(1));
    match parser.parse_commits(&path_text(&temp_dir)) {
        Err(DevRecapError::Git(text)) => assert!(!text.is_empty()),
        other => panic!("unexpected: {:?}", other.map(|c| c.len())),
    }
}

#[test]
fn test_analyze_repository() {
    let temp_dir = TempDir::new().unwrap();
    create_test_repo_with_commits(temp_dir.path());

    let timespan = days_back(1);
    let repo = analyze_repository(&path_text(&temp_dir), Some("test@example.com"), &timespan).unwrap();

    assert_eq!(repo.commits.len(), 1);
    assert_eq!(repo.stats.total_commits, 1);
    assert_eq!(repo.stats.total_files_changed, 1);
    assert_eq!(repo.stats.total_insertions, 1);
    assert_eq!(repo.stats.pr_count, 1);
    assert_eq!(repo.path, path_text(&temp_dir));
    assert_eq!(repo.name, Scanner::get_repo_name(&path_text(&temp_dir)));
    assert!(repo.remote_url.is_none());
    assert!(repo.github_info.is_none());
}

#[test]
fn test_analyze_repository_no_commits() {
    let temp_dir = TempDir::new().unwrap();
    create_test_repo_with_commits(temp_dir.path());

    let timespan = days_back(1);
    let result = analyze_repository(&path_text(&temp_dir), Some("wrong@example.com"), &timespan);

    assert!(result.is_err());
}

#[test]
fn test_outside_window_is_no_commits_not_open_failure() {
    let temp_dir = TempDir::new().unwrap();
    let repo = git2::Repository::init(temp_dir.path()).unwrap();
    commit_file(&repo, "a.txt", "x\n", "old", 1_000_000);
    let window = Timespan::from_dates(2_000_000, 3_000_000);
    match analyze_repository(&path_text(&temp_dir), None, &window) {
        Err(DevRecapError::NoCommitsFound { author }) => assert_eq!(author, "any"),
        other => panic!("unexpected: {:?}", other.map(|r| r.name)),
    }
    match analyze_repository(&path_text(&temp_dir), Some("me@x.y"), &window) {
        Err(DevRecapError::NoCommitsFound { author }) => assert_eq!(author, "me@x.y"),
        other => panic!("unexpected: {:?}", other.map(|r| r.name)),
    }
    let empty = TempDir::new().unwrap();
    match analyze_repository(&path_text(&empty), None, &window) {
        Err(DevRecapError::Git(_)) => {}
        other => panic!("unexpected: {:?}", other.map(|r| r.name)),
    }
}

#[test]
fn test_remote_url_and_hosting_info() {
    let temp_dir = TempDir::new().unwrap();
    create_test_repo_with_commits(temp_dir.path());
    let repo = git2::Repository::open(temp_dir.path()).unwrap();
    repo.remote("origin", "git@github.com:rust-lang/rust.git").unwrap();
    assert_eq!(
        Scanner::get_remote_url(&path_text(&temp_dir)),
        Some("git@github.com:rust-lang/rust.git".to_string())
    );
    let record = analyze_repository(&path_text(&temp_dir), None, &days_back(1)).unwrap();
    let info = record.github_info.unwrap();
    assert_eq!(info.owner, "rust-lang");
    assert_eq!(info.repo, "rust");
    let none = TempDir::new().unwrap();
    assert!(Scanner::get_remote_url(&path_text(&none)).is_none());
}

#[test]
fn test_assemble_repository_outcomes() {
    let commit = CommitRecord::assemble(
        "0123456789abcdef".to_string(),
        Author { name: "n".to_string(), email: "e".to_string() },
        5,
        "Fix #2\n\nmore".to_string(),
        vec!["f".to_string()],
        u32::MAX,
        0,
    );
    assert_eq!(commit.short_hash, "0123456");
    assert_eq!(commit.short_desc(), "0123456 - Fix #2");
    assert_eq!(commit.pr_numbers, vec![2]);
    let again = commit.clone();
    let ok = assemble_repository("/p", "p".to_string(), Some("https://github.com/o/r".to_string()), None, vec![commit])
        .unwrap();
    assert_eq!(ok.github_info.unwrap().owner, "o");
    assert_eq!(ok.stats.total_insertions, u32::MAX);
    let mut more = again.clone();
    more.insertions = 1;
    match assemble_repository("/p", "p".to_string(), None, None, vec![again, more]) {
        Err(DevRecapError::Other(text)) => assert_eq!(text, "commit counters exceed 32 bits"),
        other => panic!("unexpected: {:?}", other.map(|r| r.name)),
    }
    match assemble_repository("/p", "p".to_string(), None, Some("a@b"), vec![]) {
        Err(DevRecapError::NoCommitsFound { author }) => assert_eq!(author, "a@b"),
        other => panic!("unexpected: {:?}", other.map(|r| r.name)),
    }
    let failed = failed_repository("/some/where");
    assert_eq!(failed.name, "where");
    assert!(failed.commits.is_empty());
    assert_eq!(failed.stats.total_commits, 0);
}

#[test]
fn test_short_hash_of_short_text() {
    let commit = CommitRecord::assemble(
        "abc".to_string(),
        Author { name: "n".to_string(), email: "e".to_string() },
        0,
        String::new(),
        vec![],
        0,
        0,
    );
    assert_eq!(commit.short_hash, "abc");
    assert_eq!(commit.summary, "");
    assert!(commit.body.is_none());
}

#[test]
fn test_extract_author_defaults() {
    let author = extract_author(None, None);
    assert_eq!(author.name, "Unknown");
    assert_eq!(author.email, "unknown@example.com");
    let author = extract_author(Some("A".to_string()), Some("a@b".to_string()));
    assert_eq!(author.name, "A");
    assert_eq!(author.email, "a@b");
}

#[test]
fn test_diff_summary() {
    let delta = |old: Option<&str>, new: Option<&str>| DeltaPaths {
        old: old.map(String::from),
        new: new.map(String::from),
    };
    let (files, added, removed) = diff_summary(
        vec![
            delta(Some("was"), Some("a")),
            delta(Some("gone"), None),
            delta(None, Some("b")),
            delta(Some("a"), Some("a")),
        ],
        7,
        usize::MAX,
    );
    assert_eq!(files, vec!["a", "b", "a"]);
    assert_eq!(added, 7);
    assert_eq!(removed, u32::MAX);
}

#[test]
fn test_timespan_days_back() {
    let now = chrono::Utc::now().timestamp();
    let timespan = Timespan::days_back(7);

    let recent_date = now - 3 * 86400;
    assert!(timespan.contains(recent_date));

    let old_date = now - 10 * 86400;
    assert!(!timespan.contains(old_date));
}

#[test]
fn test_convert_timestamp_and_dates() {
    assert_eq!(convert_timestamp(0), 0);
    assert_eq!(convert_timestamp(1_700_000_000), 1_700_000_000);
    let now = chrono::Utc::now().timestamp();
    let fallback = convert_timestamp(i64::MAX);
    assert!(fallback >= now && fallback <= now + 5);
    assert!(chrono::DateTime::from_timestamp(fallback, 0).is_some());
    let early = convert_timestamp(i64::MIN);
    assert!(early >= now && early <= now + 5);
    for seconds in [0, -1, 1_700_000_000, 8_210_266_876_799, -8_334_601_228_800] {
        let kept = convert_timestamp(seconds);
        assert_eq!(kept, seconds);
        assert!(chrono::DateTime::from_timestamp(kept, 0).is_some());
    }
    for seconds in [8_210_266_876_800, -8_334_601_228_801] {
        let replaced = convert_timestamp(seconds);
        assert!(replaced >= now && replaced <= now + 5);
    }
    assert_eq!(label_of_day(0), "1970-01-01");
    assert_eq!(label_of_day(1), "1970-01-02");
    assert_eq!(label_of_day(-1), "1969-12-31");
    assert_eq!(label_of_day(19675), "2023-11-14");
    assert_eq!(label_of_day(i64::MAX), "");
}

fn candidate(timestamp: i64, email: &str) -> Candidate {
    Candidate {
        timestamp,
        author: Author { name: "n".to_string(), email: email.to_string() },
    }
}

#[test]
fn test_select_keeps_every_passing_position_once_in_order() {
    let parser = Parser::new(Some("Me@Host".to_string()), Timespan::from_dates(10, 20));
    let candidates = vec![
        candidate(10, "me@host.org"),
        candidate(9, "me@host.org"),
        candidate(15, "you@host.org"),
        candidate(20, "x.ME@HOST"),
        candidate(21, "me@host"),
        candidate(12, "me@host"),
    ];
    assert_eq!(parser.select(&candidates), vec![0, 3, 5]);
    assert_eq!(parser.select(&vec![]), Vec::<usize>::new());
    let any = Parser::new(None, Timespan::from_dates(i64::MIN, i64::MAX));
    assert_eq!(any.select(&candidates), vec![0, 1, 2, 3, 4, 5]);
    let none = Parser::new(None, Timespan::from_dates(100, 50));
    assert_eq!(none.select(&candidates), Vec::<usize>::new());
}

#[test]
fn test_diff_base() {
    assert!(matches!(diff_base(0), DiffBase::EmptyTree));
    assert!(matches!(diff_base(1), DiffBase::Parent { index: 0 }));
    assert!(matches!(diff_base(2), DiffBase::Parent { index: 0 }));
    assert!(matches!(diff_base(usize::MAX), DiffBase::Parent { index: 0 }));
}

fn tree_of<'r>(repo: &'r git2::Repository, files: &[(&str, &str)]) -> git2::Tree<'r> {
    let mut builder = repo.treebuilder(None).unwrap();
    for (name, content) in files {
        let blob = repo.blob(content.as_bytes()).unwrap();
        builder.insert(*name, blob, 0o100644).unwrap();
    }
    repo.find_tree(builder.write().unwrap()).unwrap()
}

#[test]
fn test_merge_is_compared_with_its_first_parent_only() {
    let temp_dir = TempDir::new().unwrap();
    let repo = git2::Repository::init(temp_dir.path()).unwrap();
    let sig = |when: i64| {
        git2::Signature::new("Test User", "test@example.com", &git2::Time::new(when, 0)).unwrap()
    };
    let root_tree = tree_of(&repo, &[("a.txt", "1\n")]);
    let root = repo
        .commit(Some("HEAD"), &sig(1000), &sig(1000), "root", &root_tree, &[])
        .unwrap();
    let root = repo.find_commit(root).unwrap();
    let main_tree = tree_of(&repo, &[("a.txt", "1\n2\n")]);
    let main = repo
        .commit(Some("HEAD"), &sig(2000), &sig(2000), "main", &main_tree, &[&root])
        .unwrap();
    let main = repo.find_commit(main).unwrap();
    let side_tree = tree_of(&repo, &[("a.txt", "1\n"), ("b.txt", "x\ny\nz\n")]);
    let side = repo
        .commit(None, &sig(2500), &sig(2500), "side", &side_tree, &[&root])
        .unwrap();
    let side = repo.find_commit(side).unwrap();
    let merged_tree = tree_of(&repo, &[("a.txt", "1\n2\n"), ("b.txt", "x\ny\nz\n")]);
    repo.commit(Some("HEAD"), &sig(3000), &sig(3000), "merge", &merged_tree, &[&main, &side])
        .unwrap();

    let parser = Parser::new(None, Timespan::from_dates(3000, 3000));
    let commits = parser.parse_commits(&path_text(&temp_dir)).unwrap();
    assert_eq!(commits.len(), 1);
    assert_eq!(commits[0].summary, "merge");
    assert_eq!(commits[0].files_changed, vec!["b.txt"]);
    assert_eq!(commits[0].insertions, 3);
    assert_eq!(commits[0].deletions, 0);

    let all = Parser::new(None, Timespan::from_dates(0, 5000));
    let commits = all.parse_commits(&path_text(&temp_dir)).unwrap();
    let mut hashes: Vec<&str> = commits.iter().map(|c| c.hash.as_str()).collect();
    assert_eq!(hashes.len(), 4);
    hashes.sort();
    hashes.dedup();
    assert_eq!(hashes.len(), 4);
    let root_record = commits.iter().find(|c| c.summary == "root").unwrap();
    assert_eq!(root_record.insertions, 1);
    assert_eq!(root_record.deletions, 0);
    assert_eq!(root_record.files_changed, vec!["a.txt"]);
}

#[test]
fn test_root_commit_with_several_files() {
    let temp_dir = TempDir::new().unwrap();
    let repo = git2::Repository::init(temp_dir.path()).unwrap();
    let tree = tree_of(&repo, &[("a.txt", "1\n2\n"), ("b.txt", "x\n"), ("c.txt", "p\nq\nr\n")]);
    let sig = git2::Signature::new("T", "t@e.x", &git2::Time::new(500, 0)).unwrap();
    repo.commit(Some("HEAD"), &sig, &sig, "root", &tree, &[]).unwrap();
    let parser = Parser::new(None, Timespan::from_dates(0, 1000));
    let commits = parser.parse_commits(&path_text(&temp_dir)).unwrap();
    assert_eq!(commits.len(), 1);
    assert_eq!(commits[0].insertions, 6);
    assert_eq!(commits[0].deletions, 0);
    assert_eq!(commits[0].files_changed, vec!["a.txt", "b.txt", "c.txt"]);
}

#[test]
fn test_remote_url_is_that_of_the_first_remote() {
    let temp_dir = TempDir::new().unwrap();
    create_test_repo_with_commits(temp_dir.path());
    let repo = git2::Repository::open(temp_dir.path()).unwrap();
    assert!(Scanner::get_remote_url(&path_text(&temp_dir)).is_none());
    repo.remote("upstream", "https://github.com/up/stream.git").unwrap();
    assert_eq!(
        Scanner::get_remote_url(&path_text(&temp_dir)),
        Some("https://github.com/up/stream.git".to_string())
    );
    let record = analyze_repository(&path_text(&temp_dir), None, &days_back(1)).unwrap();
    assert_eq!(record.github_info.unwrap().repo, "stream");
    repo.remote("zeta", "https://github.com/ze/ta").unwrap();
    assert_eq!(
        Scanner::get_remote_url(&path_text(&temp_dir)),
        Some("https://github.com/up/stream.git".to_string())
    );
}

#[test]
fn test_remote_without_an_address_gives_none() {
    let temp_dir = TempDir::new().unwrap();
    create_test_repo_with_commits(temp_dir.path());
    let repo = git2::Repository::open(temp_dir.path()).unwrap();
    repo.config().unwrap().set_str("remote.origin.pushurl", "https://github.com/o/r").unwrap();
    assert!(Scanner::get_remote_url(&path_text(&temp_dir)).is_none());
    let record = analyze_repository(&path_text(&temp_dir), None, &days_back(1)).unwrap();
    assert!(record.remote_url.is_none());
    assert!(record.github_info.is_none());

    let other = TempDir::new().unwrap();
    create_test_repo_with_commits(other.path());
    let repo = git2::Repository::open(other.path()).unwrap();
    repo.config().unwrap().set_str("remote.origin.url", "").unwrap();
    assert!(Scanner::get_remote_url(&path_text(&other)).is_none());
}

#[test]
fn test_remote_choices() {
    assert_eq!(first_remote(&vec![]), None);
    assert_eq!(first_remote(&vec![None, Some("b".to_string())]), None);
    assert_eq!(
        first_remote(&vec![Some("a".to_string()), Some("b".to_string())]),
        Some("a".to_string())
    );
    assert_eq!(url_setting("origin"), "remote.origin.url");
    assert_eq!(url_setting(""), "remote..url");
    assert_eq!(configured_url(None), None);
    assert_eq!(configured_url(Some(String::new())), None);
    assert_eq!(configured_url(Some("u".to_string())), Some("u".to_string()));
}

#[test]
fn test_record_name_is_the_last_segment() {
    let temp_dir = TempDir::new().unwrap();
    create_test_repo_with_commits(temp_dir.path());
    let path = path_text(&temp_dir);
    let record = analyze_repository(&path, None, &days_back(1)).unwrap();
    let expected = temp_dir.path().file_name().unwrap().to_str().unwrap();
    assert_eq!(record.name, expected);
    assert!(!record.name.is_empty() && !record.name.contains('/'));
    assert_eq!(failed_repository("/a/b/c").name, "c");
    assert_eq!(failed_repository("/a/b/c/").name, "c");
    assert_eq!(failed_repository("/").name, "unknown");
}

#[test]
fn test_line_counts_saturate() {
    let (files, added, removed) = diff_summary(vec![], 4_294_967_296, 4_294_967_295);
    assert!(files.is_empty());
    assert_eq!(added, u32::MAX);
    assert_eq!(removed, u32::MAX);
    let (_, added, removed) = diff_summary(vec![], 0, 4_294_967_294);
    assert_eq!(added, 0);
    assert_eq!(removed, 4_294_967_294);
    assert_eq!(saturate(usize::MAX), u32::MAX);
    assert_eq!(saturate(12), 12);
}

#[test]
fn test_dates_exist_exactly_within_the_calendar() {
    assert_eq!(label_of_day(95_026_236), "+262142-12-31");
    assert_eq!(label_of_day(95_026_237), "");
    assert_eq!(label_of_day(-96_465_292), "-262143-01-01");
    assert_eq!(label_of_day(-96_465_293), "");
    for seconds in [
        -8_334_601_228_801i64,
        -8_334_601_228_800,
        -1,
        0,
        8_210_266_876_799,
        8_210_266_876_800,
    ] {
        let inside = -8_334_601_228_800 <= seconds && seconds <= 8_210_266_876_799;
        assert_eq!(chrono::DateTime::from_timestamp(seconds, 0).is_some(), inside);
        assert_eq!(convert_timestamp(seconds) == seconds, inside);
    }
}

#[test]
fn test_repo_name_is_the_final_component() {
    for (path, name) in [
        ("/path/to/my-repo", "my-repo"),
        ("my-repo", "my-repo"),
        ("/path/to/my-repo/", "my-repo"),
        ("/path/to/my-repo/.", "my-repo"),
        ("a//b", "b"),
        ("/path/to/..", "unknown"),
        ("..", "unknown"),
        (".", "unknown"),
        ("/", "unknown"),
        ("", "unknown"),
        ("/a/unknown", "unknown"),
    ] {
        assert_eq!(Scanner::get_repo_name(path), name, "for {:?}", path);
        assert_eq!(failed_repository(path).name, name, "for {:?}", path);
        let expected = std::path::Path::new(path)
            .file_name()
            .and_then(|n| n.to_str())
            .unwrap_or("unknown");
        assert_eq!(Scanner::get_repo_name(path), expected);
    }
}
