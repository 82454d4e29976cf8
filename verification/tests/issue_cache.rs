use jcode_desktop_core::issue_cache::{
    issue_browser_from_cache, issue_cache_is_browsable, parse_github_repo_from_remote, CachedGitHubComment,
    CachedGitHubIssue, CachedGitHubIssueOverride, CachedGitHubLabel, GitHubIssueCache,
    GitHubIssueVisualState, ISSUE_CACHE_SCHEMA_VERSION,
};

fn issue(number: u64, title: &str, labels: &[&str], comments: usize) -> CachedGitHubIssue {
    CachedGitHubIssue {
        number,
        title: title.to_string(),
        body: Some(format!("body for {title}")),
        labels: labels
            .iter()
            .map(|name| CachedGitHubLabel {
                name: (*name).to_string(),
            })
            .collect(),
        comment_count: Some(comments as u32),
        comments: (0..comments)
            .map(|index| CachedGitHubComment {
                author: Some(format!("user{index}")),
                body: format!("comment {index}"),
                created_at: None,
            })
            .collect(),
        state: Some("open".to_string()),
        created_at: Some("2026-05-01".to_string()),
        updated_at: None,
        assignees: Vec::new(),
        milestone: None,
    }
}

#[test]
fn parses_common_github_remote_urls() {
    assert_eq!(
        parse_github_repo_from_remote("git@github.com:1jehuang/jcode.git").as_deref(),
        Some("1jehuang/jcode")
    );
    assert_eq!(
        parse_github_repo_from_remote("https://github.com/owner/repo.git").as_deref(),
        Some("owner/repo")
    );
    assert_eq!(
        parse_github_repo_from_remote("ssh://git@github.com/owner/repo").as_deref(),
        Some("owner/repo")
    );
    assert!(parse_github_repo_from_remote("https://example.com/owner/repo").is_none());
}

#[test]
fn ranks_explicit_priority_and_local_overrides_first() {
    let cache = GitHubIssueCache {
        schema_version: ISSUE_CACHE_SCHEMA_VERSION,
        repo: "owner/repo".to_string(),
        synced_at: Some("now".to_string()),
        issues: vec![
            issue(10, "normal cleanup", &["enhancement"], 0),
            issue(11, "crash regression", &["bug", "regression"], 1),
            issue(12, "user override", &["docs"], 0),
        ],
        local_overrides: vec![CachedGitHubIssueOverride {
            number: 12,
            priority: Some("P0".to_string()),
            pinned: true,
        }],
    };
    let browser = issue_browser_from_cache(cache);
    let numbers = browser
        .issues
        .iter()
        .map(|issue| issue.number)
        .collect::<Vec<_>>();
    assert_eq!(numbers, vec![12, 11, 10]);
    assert_eq!(browser.issues[0].priority, "P0");
    assert_eq!(browser.issues[1].priority, "P1");
    assert_eq!(browser.issues[0].state, GitHubIssueVisualState::Selected);
}

#[test]
fn filters_closed_issues_and_is_deterministic() {
    let mut closed = issue(20, "closed", &["P0"], 10);
    closed.state = Some("closed".to_string());
    let cache = GitHubIssueCache {
        schema_version: ISSUE_CACHE_SCHEMA_VERSION,
        repo: "owner/repo".to_string(),
        synced_at: None,
        issues: vec![
            issue(1, "same score low number", &["bug"], 0),
            issue(2, "same score high number", &["bug"], 0),
            closed,
        ],
        local_overrides: Vec::new(),
    };
    let browser = issue_browser_from_cache(cache);
    assert_eq!(
        browser
            .issues
            .iter()
            .map(|issue| issue.number)
            .collect::<Vec<_>>(),
        vec![2, 1]
    );
    assert!(browser.filter_label.contains("cached unsynced cache"));
}

#[test]
fn browsability_rejects_a_preview_cut_inside_a_character() {
    let mut fine = issue(1, "fine", &["bug"], 1);
    fine.body = Some(format!("{}\n\nshort", "a".repeat(300)));
    let cache = GitHubIssueCache {
        schema_version: ISSUE_CACHE_SCHEMA_VERSION,
        repo: "owner/repo".to_string(),
        synced_at: None,
        issues: vec![fine],
        local_overrides: Vec::new(),
    };
    assert!(issue_cache_is_browsable(&cache));

    let mut split = issue(2, "split", &[], 0);
    split.body = Some(format!("{}é{}", "a".repeat(236), "b".repeat(10)));
    let mut cache = cache;
    cache.issues.push(split);
    assert!(!issue_cache_is_browsable(&cache));

    cache.issues[1].state = Some("closed".to_string());
    assert!(issue_cache_is_browsable(&cache));
}
