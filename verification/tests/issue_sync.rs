use jcode_desktop_core::issue_cache::{
    issue_browser_from_cache, CachedGitHubComment, CachedGitHubIssue, CachedGitHubIssueOverride,
    CachedGitHubLabel, GitHubIssueCache, ISSUE_CACHE_SCHEMA_VERSION,
};
use jcode_desktop_core::issue_sync::{
    current_sync_label, existing_comments_by_number, issue_cache_path_for_repo_in_root,
    issue_comments_args, issue_list_args, CommentThreadFetch, GhIssueComment,
    GhIssueCommentsView, GhIssueLabel, GhIssueListItem, GhIssueMilestone, GhIssueUser,
    GitHubIssueSyncBuilder,
};

fn issue(number: u64, title: &str, labels: &[&str], comments: usize) -> CachedGitHubIssue {
    CachedGitHubIssue {
        number,
        title: title.to_string(),
        body: Some(format!("body for {title}")),
        labels: labels
            .iter()
            .map(|name| CachedGitHubLabel {
                name: (*name).to_string(),
            })
            .collect(),
        comment_count: Some(comments as u32),
        comments: (0..comments)
            .map(|index| CachedGitHubComment {
                author: Some(format!("user{index}")),
                body: format!("comment {index}"),
                created_at: None,
            })
            .collect(),
        state: Some("open".to_string()),
        created_at: Some("2026-05-01".to_string()),
        updated_at: None,
        assignees: Vec::new(),
        milestone: None,
    }
}

fn listed(
    number: u64,
    title: &str,
    body: &str,
    labels: &[&str],
    comments: u32,
    updated_at: &str,
    assignees: &[&str],
    milestone: Option<&str>,
) -> GhIssueListItem {
    GhIssueListItem {
        number,
        title: title.to_string(),
        body: Some(body.to_string()),
        labels: labels
            .iter()
            .map(|name| GhIssueLabel {
                name: name.to_string(),
            })
            .collect(),
        comments: Some(comments),
        state: Some("OPEN".to_string()),
        created_at: Some("2026-05-01T00:00:00Z".to_string()),
        updated_at: Some(updated_at.to_string()),
        assignees: assignees
            .iter()
            .map(|login| GhIssueUser {
                login: login.to_string(),
            })
            .collect(),
        milestone: milestone.map(|title| GhIssueMilestone {
            title: title.to_string(),
        }),
    }
}

#[test]
fn syncs_issue_list_comments_and_preserves_local_overrides() {
    let existing = GitHubIssueCache {
        schema_version: ISSUE_CACHE_SCHEMA_VERSION,
        repo: "owner/repo".to_string(),
        synced_at: Some("old".to_string()),
        issues: vec![issue(5, "old title", &["docs"], 0)],
        local_overrides: vec![CachedGitHubIssueOverride {
            number: 5,
            priority: Some("P0".to_string()),
            pinned: true,
        }],
    };
    let items = vec![
        listed(5, "synced bug", "fresh body", &["bug"], 1, "2026-05-02T00:00:00Z", &["octo"], Some("desktop")),
        listed(6, "normal enhancement", "nice to have", &["enhancement"], 0, "2026-05-03T00:00:00Z", &[], None),
    ];
    let thread = GhIssueCommentsView {
        comments: vec![GhIssueComment {
            author: Some(GhIssueUser {
                login: "maintainer".to_string(),
            }),
            body: "synced comment".to_string(),
            created_at: Some("2026-05-02T01:00:00Z".to_string()),
        }],
    };

    let mut builder = GitHubIssueSyncBuilder::new("owner/repo", Some(existing), 10);
    let mut calls = vec![issue_list_args("owner/repo", 10)];
    for item in items {
        let fetch = if builder.wants_comments(&item) {
            calls.push(issue_comments_args("owner/repo", item.number));
            CommentThreadFetch::Fetched(thread.clone().into_cached_comments())
        } else {
            CommentThreadFetch::NotFetched
        };
        builder.push_issue(item, fetch);
    }
    let outcome = builder.finish(1_700_000_000);
    let browser = issue_browser_from_cache(outcome.cache.clone());

    assert_eq!(outcome.cache.repo, "owner/repo");
    assert_eq!(outcome.issue_count, 2);
    assert_eq!(outcome.fetched_comment_threads, 1);
    assert_eq!(outcome.comment_fetch_errors, 0);
    assert_eq!(outcome.cache.synced_at.as_deref(), Some("unix:1700000000"));
    assert_eq!(browser.issues[0].number, 5);
    assert_eq!(browser.issues[0].priority, "P0");
    assert_eq!(browser.issues[0].comments, 1);
    assert!(browser.issues[0].comment_lines[0].contains("maintainer: synced comment"));
    assert_eq!(outcome.cache.local_overrides.len(), 1);
    assert_eq!(outcome.cache.local_overrides[0].number, 5);
    assert_eq!(calls.len(), 2, "one list call and one comment fetch");
    assert_eq!(&calls[0][..8], ["issue", "list", "--repo", "owner/repo", "--state", "open", "--limit", "10"]);
    assert_eq!(
        calls[1],
        ["issue", "view", "5", "--repo", "owner/repo", "--json", "comments"]
    );
    assert_eq!(outcome.cache.issues[0].assignees, vec!["octo".to_string()]);
    assert_eq!(outcome.cache.issues[0].milestone.as_deref(), Some("desktop"));
}

#[test]
fn sync_reuses_cached_comments_when_comment_fetch_fails() {
    let existing = GitHubIssueCache {
        schema_version: ISSUE_CACHE_SCHEMA_VERSION,
        repo: "owner/repo".to_string(),
        synced_at: Some("old".to_string()),
        issues: vec![issue(7, "old crash", &["bug"], 1)],
        local_overrides: Vec::new(),
    };
    let item = listed(7, "crash regression", "crashes on launch", &["bug", "regression"], 2, "2026-05-04T00:00:00Z", &[], None);

    let mut builder = GitHubIssueSyncBuilder::new("owner/repo", Some(existing), 10);
    assert!(builder.wants_comments(&item));
    builder.push_issue(item, CommentThreadFetch::Failed);
    let outcome = builder.finish(0);
    let browser = issue_browser_from_cache(outcome.cache);

    assert_eq!(outcome.fetched_comment_threads, 0);
    assert_eq!(outcome.comment_fetch_errors, 1);
    assert_eq!(browser.issues[0].number, 7);
    assert_eq!(browser.issues[0].comments, 2);
    assert!(browser.issues[0].comment_lines[0].contains("user0: comment 0"));
}

#[test]
fn comment_threads_beyond_the_limit_keep_their_cache() {
    let existing = GitHubIssueCache {
        schema_version: ISSUE_CACHE_SCHEMA_VERSION,
        repo: "r".to_string(),
        synced_at: None,
        issues: vec![issue(1, "a", &[], 1), issue(2, "b", &[], 2)],
        local_overrides: Vec::new(),
    };
    let mut builder = GitHubIssueSyncBuilder::new("r", Some(existing), 1);
    let first = listed(1, "a", "", &[], 3, "t", &[], None);
    let second = listed(2, "b", "", &[], 3, "t", &["", "dev"], None);
    assert!(builder.wants_comments(&first));
    builder.push_issue(first, CommentThreadFetch::Fetched(Vec::new()));
    assert!(!builder.wants_comments(&second));
    builder.push_issue(second, CommentThreadFetch::Fetched(Vec::new()));
    let outcome = builder.finish(5);
    assert_eq!(outcome.fetched_comment_threads, 1);
    assert!(outcome.cache.issues[0].comments.is_empty());
    assert_eq!(outcome.cache.issues[1].comments.len(), 2);
    assert_eq!(outcome.cache.issues[1].assignees, vec!["dev".to_string()]);
}

#[test]
fn sync_without_a_previous_cache_starts_empty() {
    let mut builder = GitHubIssueSyncBuilder::new("r", None, 10);
    let item = listed(3, "c", "", &[], 0, "t", &[], None);
    assert!(!builder.wants_comments(&item));
    builder.push_issue(item, CommentThreadFetch::NotFetched);
    let outcome = builder.finish(9);
    assert!(outcome.cache.local_overrides.is_empty());
    assert!(outcome.cache.issues[0].comments.is_empty());
    assert_eq!(outcome.cache.schema_version, ISSUE_CACHE_SCHEMA_VERSION);
}

#[test]
fn gh_arguments_and_labels() {
    assert_eq!(
        issue_list_args("o/r", 100),
        vec![
            "issue", "list", "--repo", "o/r", "--state", "open", "--limit", "100", "--json",
            "number,title,body,labels,comments,createdAt,updatedAt,assignees,milestone,state"
        ]
    );
    assert_eq!(
        issue_comments_args("o/r", 42),
        vec!["issue", "view", "42", "--repo", "o/r", "--json", "comments"]
    );
    assert_eq!(current_sync_label(0), "unix:0");
    assert_eq!(
        issue_cache_path_for_repo_in_root("/cache/issues", "owner/repo.x"),
        "/cache/issues/owner_repo_x.json"
    );
    assert_eq!(issue_cache_path_for_repo_in_root("/cache/", "a"), "/cache/a.json");
}

#[test]
fn later_issues_win_in_the_comment_index() {
    let cache = GitHubIssueCache {
        schema_version: 1,
        repo: "r".to_string(),
        synced_at: None,
        issues: vec![issue(4, "a", &[], 1), issue(4, "b", &[], 2), issue(5, "c", &[], 0)],
        local_overrides: Vec::new(),
    };
    let index = existing_comments_by_number(&cache);
    assert_eq!(index.len(), 2);
    assert_eq!(index[&4].len(), 2);
    assert!(index[&5].is_empty());
}
