use dev_recap::model::{Author, CommitRecord, RepoStats, RepositoryRecord};
use dev_recap::prompt::{generate_summary_prompt, signed, write_path_list, write_pr_refs};
use dev_recap::summary::Summary;

fn create_test_repo() -> RepositoryRecord {
    let commit = CommitRecord {
        hash: "abc123".to_string(),
        short_hash: "abc123".to_string(),
        author: Author {
            name: "Test".to_string(),
            email: "test@example.com".to_string(),
        },
        timestamp: chrono::Utc::now().timestamp(),
        message: "Test commit".to_string(),
        summary: "Test commit".to_string(),
        body: None,
        files_changed: vec!["file1.rs".to_string()],
        insertions: 10,
        deletions: 5,
        pr_numbers: vec![123],
    };

    RepositoryRecord {
        path: "/test".to_string(),
        name: "test-repo".to_string(),
        remote_url: Some("https://github.com/test/repo".to_string()),
        github_info: None,
        commits: vec![commit.clone()],
        stats: RepoStats::from_commits(&vec![commit]),
    }
}

#[test]
fn test_generate_summary_prompt() {
    let repo = create_test_repo();
    let prompt = generate_summary_prompt(&repo);

    assert!(prompt.contains("Repository: test-repo"));
    assert!(prompt.contains("Statistics:"));
    assert!(prompt.contains("Commits (1):"));
    assert!(prompt.contains("Test commit"));
    assert!(prompt.contains("## Summary"));
    assert!(prompt.contains("## Key Achievements"));
    assert!(prompt.contains("## Presentation Tips"));
}

fn plain_commit(timestamp: i64, files: usize, prs: Vec<u32>) -> CommitRecord {
    CommitRecord {
        hash: "0123456789".to_string(),
        short_hash: "0123456".to_string(),
        author: Author { name: "n".to_string(), email: "e".to_string() },
        timestamp,
        message: "m".to_string(),
        summary: "did it".to_string(),
        body: None,
        files_changed: (0..files).map(|i| format!("f{}", i)).collect(),
        insertions: 1,
        deletions: 3,
        pr_numbers: prs,
    }
}

#[test]
fn test_generate_summary_prompt_exact() {
    let commits = vec![plain_commit(86400, 7, vec![4, 12]), plain_commit(0, 2, vec![])];
    let repo = RepositoryRecord {
        path: "/p".to_string(),
        name: "p".to_string(),
        remote_url: None,
        github_info: None,
        stats: RepoStats::from_commits(&commits),
        commits,
    };
    let expected = "You are helping a developer prepare for Demo Day presentation.\n\n\
Repository: p\n\
Timespan: 1970-01-01 to 1970-01-02\n\
\nStatistics:\n\
- Total commits: 2\n\
- Files changed: 9\n\
- Lines added: 2\n\
- Lines deleted: 6\n\
- Net lines: -4\n\
- Pull requests: 2\n\
\nCommits (2):\n\
1. 0123456 - did it\n   PRs: #4, #12\n   Files: f0, f1, f2, f3, f4 (+2 more)\n\
2. 0123456 - did it\n   Files: f0, f1\n\
\nPlease provide:\n\
1. A concise summary of the work done (2-3 paragraphs)\n\
2. Key achievements (3-5 bullet points)\n\
3. Tips for presenting this work in a screenshare demo (3-5 tips)\n\n\
Format your response EXACTLY as follows:\n\n\
## Summary\n\
[Your 2-3 paragraph summary here]\n\n\
## Key Achievements\n\
- [Achievement 1]\n\
- [Achievement 2]\n\
- [Achievement 3]\n\n\
## Presentation Tips\n\
1. [Tip 1]\n\
2. [Tip 2]\n\
3. [Tip 3]\n";
    assert_eq!(generate_summary_prompt(&repo), expected);
}

#[test]
fn test_generate_summary_prompt_lists_fifty() {
    let commits: Vec<CommitRecord> = (0..51).map(|i| plain_commit(i, 0, vec![])).collect();
    let repo = RepositoryRecord {
        path: "/p".to_string(),
        name: "p".to_string(),
        remote_url: Some("u".to_string()),
        github_info: None,
        stats: RepoStats::from_commits(&commits),
        commits,
    };
    let prompt = generate_summary_prompt(&repo);
    assert!(prompt.contains("URL: u\n"));
    assert!(prompt.contains("\nCommits (51):\n"));
    assert!(prompt.contains("\n50. 0123456 - did it\n"));
    assert!(!prompt.contains("\n51. 0123456"));
    assert!(prompt.contains("\n(Showing first 50 of 51 commits)\n"));
    assert!(!prompt.contains("Pull requests"));
}

#[test]
fn test_prompt_pieces() {
    let text = |v: Vec<char>| v.into_iter().collect::<String>();
    assert_eq!(text(signed(0)), "+0");
    assert_eq!(text(signed(15)), "+15");
    assert_eq!(text(signed(-7)), "-7");
    assert_eq!(text(signed(i64::MIN)), "-9223372036854775808");
    assert_eq!(text(signed(i64::MAX)), "+9223372036854775807");
    assert_eq!(text(write_pr_refs(&vec![])), "");
    assert_eq!(text(write_pr_refs(&vec![5])), "#5");
    assert_eq!(text(write_pr_refs(&vec![5, 60, 7])), "#5, #60, #7");
    let paths = vec!["a".to_string(), "b".to_string(), "c".to_string()];
    assert_eq!(text(write_path_list(&paths, 0)), "");
    assert_eq!(text(write_path_list(&paths, 2)), "a, b");
    assert_eq!(text(write_path_list(&paths, 3)), "a, b, c");
}

#[test]
fn test_summary_creation() {
    let summary = Summary::new(
        "test-repo".to_string(),
        "Test summary".to_string(),
        vec!["Achievement 1".to_string()],
        vec!["Tip 1".to_string()],
    );

    assert_eq!(summary.repository, "test-repo");
    assert_eq!(summary.work_summary, "Test summary");
    assert_eq!(summary.key_achievements.len(), 1);
    assert_eq!(summary.presentation_tips.len(), 1);
}

#[test]
fn test_summary_to_markdown() {
    let summary = Summary::new(
        "test-repo".to_string(),
        "Test summary".to_string(),
        vec!["Achievement 1".to_string(), "Achievement 2".to_string()],
        vec!["Tip 1".to_string()],
    );

    let markdown = summary.to_markdown();
    assert!(markdown.contains("# test-repo"));
    assert!(markdown.contains("## Summary"));
    assert!(markdown.contains("## Key Achievements"));
    assert!(markdown.contains("## Presentation Tips"));
    assert!(markdown.contains("- Achievement 1"));
    assert!(markdown.contains("1. Tip 1"));
}

#[test]
fn test_summary_to_markdown_exact() {
    let summary = Summary::made_at(
        "r".to_string(),
        "Work.".to_string(),
        vec!["A".to_string(), "B".to_string()],
        vec!["T1".to_string(), "T2".to_string()],
        1_700_000_000,
    );
    assert_eq!(
        summary.to_markdown(),
        "# r\n\n## Summary\n\nWork.\n\n## Key Achievements\n\n- A\n- B\n\n## Presentation Tips\n\n1. T1\n2. T2\n\n*Generated at: 2023-11-14 22:13:20 UTC*\n"
    );
    let bare = Summary::made_at("r".to_string(), "W".to_string(), vec![], vec![], 0);
    assert_eq!(
        bare.to_markdown(),
        "# r\n\n## Summary\n\nW\n\n*Generated at: 1970-01-01 00:00:00 UTC*\n"
    );
}
