//! Refreshing the issue cache from the GitHub CLI: the `gh` invocations, the
//! records `gh` prints, and the decisions that turn them into a new cache.
use vstd::prelude::*;
use std::collections::HashMap;
use crate::issue_cache::{
    CachedGitHubComment, CachedGitHubIssue, CachedGitHubIssueOverride, CachedGitHubLabel, CacheView,
    CommentView, GitHubIssueCache, IssueView, OverrideView, ISSUE_CACHE_SCHEMA_VERSION,
    cache_key_char, repo_cache_key,
};
use crate::reload::{path_join, path_join_chars};
use crate::text::{chars_of, concat_chars, decimal, opt_view, string_from_chars, string_views, u64_decimal};

verus! {

broadcast use vstd::string::group_string_axioms, vstd::std_specs::hash::group_hash_axioms;

// ---------------------------------------------------------------------------
// `gh` invocations
// ---------------------------------------------------------------------------

/// The fields requested from `gh issue list`.
pub const ISSUE_LIST_JSON_FIELDS: &'static str =
    "number,title,body,labels,comments,createdAt,updatedAt,assignees,milestone,state";

fn string_of_chars(cs: Vec<char>) -> (r: String)
    ensures
        r@ == cs@,
{
    string_from_chars(cs.as_slice())
}

/// `issue_list_args`: `gh issue list --repo REPO --state open --limit N --json FIELDS`.
pub fn issue_list_args(repo: &str, limit: usize) -> (r: Vec<String>)
    ensures
        string_views(r@) == seq![
            "issue"@,
            "list"@,
            "--repo"@,
            repo@,
            "--state"@,
            "open"@,
            "--limit"@,
            decimal(limit as nat),
            "--json"@,
            ISSUE_LIST_JSON_FIELDS@,
        ],
{
    let r = vec![
        "issue".to_string(),
        "list".to_string(),
        "--repo".to_string(),
        repo.to_string(),
        "--state".to_string(),
        "open".to_string(),
        "--limit".to_string(),
        string_of_chars(u64_decimal(limit as u64)),
        "--json".to_string(),
        ISSUE_LIST_JSON_FIELDS.to_string(),
    ];
    assert(string_views(r@) =~= seq![
        "issue"@,
        "list"@,
        "--repo"@,
        repo@,
        "--state"@,
        "open"@,
        "--limit"@,
        decimal(limit as nat),
        "--json"@,
        ISSUE_LIST_JSON_FIELDS@,
    ]);
    r
}

/// `issue_comments_args`: `gh issue view NUMBER --repo REPO --json comments`.
pub fn issue_comments_args(repo: &str, number: u64) -> (r: Vec<String>)
    ensures
        string_views(r@) == seq![
            "issue"@,
            "view"@,
            decimal(number as nat),
            "--repo"@,
            repo@,
            "--json"@,
            "comments"@,
        ],
{
    let r = vec![
        "issue".to_string(),
        "view".to_string(),
        string_of_chars(u64_decimal(number)),
        "--repo".to_string(),
        repo.to_string(),
        "--json".to_string(),
        "comments".to_string(),
    ];
    assert(string_views(r@) =~= seq![
        "issue"@,
        "view"@,
        decimal(number as nat),
        "--repo"@,
        repo@,
        "--json"@,
        "comments"@,
    ]);
    r
}

/// `current_sync_label`: `unix:SECONDS`, for the time of a sync.
pub fn current_sync_label(unix_seconds: u64) -> (r: String)
    ensures
        r@ == "unix:"@ + decimal(unix_seconds as nat),
{
    let p = chars_of("unix:");
    let d = u64_decimal(unix_seconds);
    string_from_chars(concat_chars(p.as_slice(), d.as_slice()).as_slice())
}

/// `issue_cache_path_for_repo_in_root`: `ROOT/<repo cache key>.json`.
pub fn issue_cache_path_for_repo_in_root(root: &str, repo: &str) -> (r: String)
    ensures
        r@ == path_join(root@, repo@.map_values(|c: char| cache_key_char(c)) + ".json"@),
{
    let key = repo_cache_key(repo);
    let k = chars_of(key.as_str());
    let ext = chars_of(".json");
    let name = concat_chars(k.as_slice(), ext.as_slice());
    let dir = chars_of(root);
    string_from_chars(path_join_chars(dir.as_slice(), name.as_slice()).as_slice())
}

// ---------------------------------------------------------------------------
// What `gh` prints
// ---------------------------------------------------------------------------

/// A label as `gh` prints it.
#[derive(Clone, Debug)]
pub struct GhIssueLabel {
    pub name: String,
}

/// A user as `gh` prints it.
#[derive(Clone, Debug)]
pub struct GhIssueUser {
    pub login: String,
}

/// A milestone as `gh` prints it.
#[derive(Clone, Debug)]
pub struct GhIssueMilestone {
    pub title: String,
}

/// One issue of `gh issue list`.
#[derive(Clone, Debug)]
pub struct GhIssueListItem {
    pub number: u64,
    pub title: String,
    pub body: Option<String>,
    pub labels: Vec<GhIssueLabel>,
    pub comments: Option<u32>,
    pub state: Option<String>,
    pub created_at: Option<String>,
    pub updated_at: Option<String>,
    pub assignees: Vec<GhIssueUser>,
    pub milestone: Option<GhIssueMilestone>,
}

/// One comment of `gh issue view --json comments`.
#[derive(Clone, Debug)]
pub struct GhIssueComment {
    pub author: Option<GhIssueUser>,
    pub body: String,
    pub created_at: Option<String>,
}

/// The output of `gh issue view --json comments`.
#[derive(Clone, Debug)]
pub struct GhIssueCommentsView {
    pub comments: Vec<GhIssueComment>,
}

/// The logins of `users`, leaving out empty ones.
pub open spec fn nonempty_logins(users: Seq<GhIssueUser>) -> Seq<Seq<char>>
    decreases users.len(),
{
    if users.len() == 0 {
        Seq::empty()
    } else if users.last().login@.len() == 0 {
        nonempty_logins(users.drop_last())
    } else {
        nonempty_logins(users.drop_last()).push(users.last().login@)
    }
}

/// The cached form of a comment `gh` printed.
pub open spec fn comment_record(c: GhIssueComment) -> CommentView {
    CommentView {
        author: match c.author {
            Some(u) => Some(u.login@),
            None => None,
        },
        body: c.body@,
        created_at: opt_view(c.created_at),
    }
}

/// The cached form of an issue `gh` printed, with the given comments.
pub open spec fn issue_record(item: GhIssueListItem, comments: Seq<CommentView>) -> IssueView {
    IssueView {
        number: item.number,
        title: item.title@,
        body: opt_view(item.body),
        labels: item.labels@.map_values(|l: GhIssueLabel| l.name@),
        comment_count: item.comments,
        comments,
        state: opt_view(item.state),
        created_at: opt_view(item.created_at),
        updated_at: opt_view(item.updated_at),
        assignees: nonempty_logins(item.assignees@),
        milestone: match item.milestone {
            Some(m) => Some(m.title@),
            None => None,
        },
    }
}

/// A synced issue keeps the label names `gh` listed, all of them and in
/// order, whatever its comments.
pub proof fn lemma_synced_issue_labels(item: GhIssueListItem, comments: Seq<CommentView>)
    ensures
        issue_record(item, comments).labels.len() == item.labels@.len(),
        forall|i: int|
            0 <= i < item.labels@.len() ==> #[trigger] issue_record(item, comments).labels[i]
                == item.labels@[i].name@,
{
}

pub open spec fn comment_views(cs: Seq<CachedGitHubComment>) -> Seq<CommentView> {
    cs.map_values(|c: CachedGitHubComment| c@)
}

impl GhIssueComment {
    /// `into_cached`: the comment as the cache stores it.
    pub fn into_cached(self) -> (r: CachedGitHubComment)
        ensures
            r@ == comment_record(self),
    {
        let author = match self.author {
            Some(u) => Some(u.login),
            None => None,
        };
        CachedGitHubComment { author, body: self.body, created_at: self.created_at }
    }
}

impl GhIssueCommentsView {
    /// The comments as the cache stores them, in order.
    pub fn into_cached_comments(self) -> (r: Vec<CachedGitHubComment>)
        ensures
            comment_views(r@) == self.comments@.map_values(|c: GhIssueComment| comment_record(c)),
    {
        let mut out: Vec<CachedGitHubComment> = Vec::new();
        let ghost src = self.comments@;
        let mut rest = self.comments;
        let mut taken: Vec<GhIssueComment> = Vec::new();
        let mut i: usize = 0;
        let n = rest.len();
        while i < n
            invariant
                n == src.len(),
                i <= n,
                rest@ == src,
                comment_views(out@) == src.take(i as int).map_values(
                    |c: GhIssueComment| comment_record(c),
                ),
            decreases n - i,
        {
            let c = rest[i].clone_comment();
            let ghost before = out@;
            out.push(c.into_cached());
            assert(comment_views(out@) =~= comment_views(before).push(comment_record(src[i as int])));
            assert(src.take(i + 1).map_values(|c: GhIssueComment| comment_record(c)) =~= src.take(
                i as int,
            ).map_values(|c: GhIssueComment| comment_record(c)).push(comment_record(src[i as int])));
            i = i + 1;
        }
        assert(src.take(n as int) == src);
        out
    }

    /// An empty list of comments.
    pub fn empty() -> (r: Self)
        ensures
            r.comments@.len() == 0,
    {
        GhIssueCommentsView { comments: Vec::new() }
    }
}

fn clone_opt_string(s: &Option<String>) -> (r: Option<String>)
    ensures
        opt_view(r) == opt_view(*s),
{
    match s {
        Some(v) => Some(v.clone()),
        None => None,
    }
}

impl GhIssueComment {
    fn clone_comment(&self) -> (r: GhIssueComment)
        ensures
            comment_record(r) == comment_record(*self),
    {
        let author = match &self.author {
            Some(u) => Some(GhIssueUser { login: u.login.clone() }),
            None => None,
        };
        GhIssueComment {
            author,
            body: self.body.clone(),
            created_at: clone_opt_string(&self.created_at),
        }
    }
}

impl GhIssueListItem {
    /// `into_cached`: the issue as the cache stores it, with `comments`;
    /// assignees with an empty login are left out.
    pub fn into_cached(self, comments: Vec<CachedGitHubComment>) -> (r: CachedGitHubIssue)
        ensures
            r@ == issue_record(self, comment_views(comments@)),
    {
        let ghost item = self;
        let mut labels: Vec<CachedGitHubLabel> = Vec::new();
        let mut i: usize = 0;
        while i < self.labels.len()
            invariant
                i <= self.labels.len(),
                self == item,
                labels@.map_values(|l: CachedGitHubLabel| l.name@) == item.labels@.take(
                    i as int,
                ).map_values(|l: GhIssueLabel| l.name@),
            decreases self.labels.len() - i,
        {
            let ghost before = labels@;
            labels.push(CachedGitHubLabel { name: self.labels[i].name.clone() });
            assert(labels@.map_values(|l: CachedGitHubLabel| l.name@) =~= before.map_values(
                |l: CachedGitHubLabel| l.name@,
            ).push(item.labels@[i as int].name@));
            assert(item.labels@.take(i + 1).map_values(|l: GhIssueLabel| l.name@) =~= item.labels@.take(
                i as int,
            ).map_values(|l: GhIssueLabel| l.name@).push(item.labels@[i as int].name@));
            i = i + 1;
        }
        assert(item.labels@.take(self.labels.len() as int) == item.labels@);
        let mut assignees: Vec<String> = Vec::new();
        let mut k: usize = 0;
        while k < self.assignees.len()
            invariant
                k <= self.assignees.len(),
                self == item,
                string_views(assignees@) == nonempty_logins(item.assignees@.take(k as int)),
            decreases self.assignees.len() - k,
        {
            assert(item.assignees@.take(k + 1).drop_last() == item.assignees@.take(k as int));
            let login = self.assignees[k].login.clone();
            if chars_of(login.as_str()).len() > 0 {
                let ghost before = assignees@;
                assignees.push(login);
                assert(string_views(assignees@) =~= string_views(before).push(
                    item.assignees@[k as int].login@,
                ));
            }
            k = k + 1;
        }
        assert(item.assignees@.take(self.assignees.len() as int) == item.assignees@);
        let milestone = match self.milestone {
            Some(m) => Some(m.title),
            None => None,
        };
        let r = CachedGitHubIssue {
            number: self.number,
            title: self.title,
            body: self.body,
            labels,
            comment_count: self.comments,
            comments,
            state: self.state,
            created_at: self.created_at,
            updated_at: self.updated_at,
            assignees,
            milestone,
        };
        assert(r@.labels =~= item.labels@.map_values(|l: GhIssueLabel| l.name@));
        assert forall|i: int| 0 <= i < item.labels@.len() implies #[trigger] r.labels@[i].name@
            == item.labels@[i].name@ by {
            assert(r.labels@.map_values(|l: CachedGitHubLabel| l.name@)[i] == r.labels@[i].name@);
            assert(item.labels@.map_values(|l: GhIssueLabel| l.name@)[i] == item.labels@[i].name@);
        }
        r
    }
}

// ---------------------------------------------------------------------------
// Building the refreshed cache
// ---------------------------------------------------------------------------

/// The comments of the last issue numbered `n` among `issues`.
pub open spec fn last_comments(issues: Seq<IssueView>, n: u64) -> Option<Seq<CommentView>>
    decreases issues.len(),
{
    if issues.len() == 0 {
        None
    } else if issues.last().number == n {
        Some(issues.last().comments)
    } else {
        last_comments(issues.drop_last(), n)
    }
}

fn clone_comments(cs: &Vec<CachedGitHubComment>) -> (r: Vec<CachedGitHubComment>)
    ensures
        comment_views(r@) == comment_views(cs@),
{
    let mut out: Vec<CachedGitHubComment> = Vec::new();
    let mut i: usize = 0;
    while i < cs.len()
        invariant
            i <= cs.len(),
            comment_views(out@) == comment_views(cs@.take(i as int)),
        decreases cs.len() - i,
    {
        let c = &cs[i];
        let copy = CachedGitHubComment {
            author: clone_opt_string(&c.author),
            body: c.body.clone(),
            created_at: clone_opt_string(&c.created_at),
        };
        let ghost before = out@;
        out.push(copy);
        assert(comment_views(out@) =~= comment_views(before).push(cs@[i as int]@));
        assert(comment_views(cs@.take(i + 1)) =~= comment_views(cs@.take(i as int)).push(
            cs@[i as int]@,
        ));
        i = i + 1;
    }
    assert(cs@.take(cs.len() as int) == cs@);
    out
}

/// `existing_comments_by_number`: the cached comments of each issue number;
/// when a number occurs twice the later issue's comments win.
pub fn existing_comments_by_number(cache: &GitHubIssueCache) -> (r: HashMap<
    u64,
    Vec<CachedGitHubComment>,
>)
    ensures
        forall|n: u64|
            #![trigger r@.contains_key(n)]
            r@.contains_key(n) <==> last_comments(cache@.issues, n) is Some,
        forall|n: u64|
            r@.contains_key(n) ==> comment_views(#[trigger] r@[n]@) == last_comments(
                cache@.issues,
                n,
            )->0,
{
    let ghost issues = cache@.issues;
    let mut map: HashMap<u64, Vec<CachedGitHubComment>> = HashMap::new();
    let mut i: usize = 0;
    while i < cache.issues.len()
        invariant
            i <= cache.issues.len(),
            issues == cache@.issues,
            forall|n: u64|
                #![trigger map@.contains_key(n)]
                map@.contains_key(n) <==> last_comments(issues.take(i as int), n) is Some,
            forall|n: u64|
                map@.contains_key(n) ==> comment_views(#[trigger] map@[n]@) == last_comments(
                    issues.take(i as int),
                    n,
                )->0,
        decreases cache.issues.len() - i,
    {
        assert(issues.take(i + 1).drop_last() =~= issues.take(i as int));
        assert(issues[i as int] == cache.issues@[i as int]@);
        let issue = &cache.issues[i];
        let comments = clone_comments(&issue.comments);
        map.insert(issue.number, comments);
        i = i + 1;
    }
    assert(issues.take(cache.issues.len() as int) == issues);
    map
}

/// What became of the comment thread of one listed issue.
#[derive(Clone, Debug)]
pub enum CommentThreadFetch {
    /// The thread was not fetched.
    NotFetched,
    /// The thread was fetched.
    Fetched(Vec<CachedGitHubComment>),
    /// Fetching the thread failed.
    Failed,
}

/// Collects the issues of a sync in the order `gh` listed them.
#[derive(Debug)]
pub struct GitHubIssueSyncBuilder {
    pub repo: String,
    pub comment_thread_limit: usize,
    pub existing_comments: HashMap<u64, Vec<CachedGitHubComment>>,
    pub local_overrides: Vec<CachedGitHubIssueOverride>,
    pub issues: Vec<CachedGitHubIssue>,
    pub fetched_comment_threads: usize,
    pub comment_fetch_errors: usize,
}

/// The refreshed cache and what the sync did.
#[derive(Debug)]
pub struct GitHubIssueSyncOutcome {
    pub cache: GitHubIssueCache,
    pub issue_count: usize,
    pub fetched_comment_threads: usize,
    pub comment_fetch_errors: usize,
}

/// Whether the comment thread of the issue at `index` is refreshed: it has
/// comments and is among the first `limit` listed.
pub open spec fn wants_thread(comments: Option<u32>, index: int, limit: usize) -> bool {
    (match comments {
        Some(c) => c > 0,
        None => false,
    }) && index < limit
}

impl GitHubIssueSyncBuilder {
    /// The comments the builder keeps for issue `n`: those of the previous cache.
    pub open spec fn kept_comments(&self, n: u64) -> Seq<CommentView> {
        if self.existing_comments@.contains_key(n) {
            comment_views(self.existing_comments@[n]@)
        } else {
            Seq::empty()
        }
    }

    /// `new`: a sync of `repo` that starts from `existing` (the cache read
    /// before, if it could be read); it keeps the local overrides of that cache
    /// and its comment threads for issues whose thread is not refreshed.
    pub fn new(repo: &str, existing: Option<GitHubIssueCache>, comment_thread_limit: usize) -> (r:
        Self)
        ensures
            r.repo@ == repo@,
            r.comment_thread_limit == comment_thread_limit,
            r.issues@.len() == 0,
            r.fetched_comment_threads == 0,
            r.comment_fetch_errors == 0,
            match existing {
                Some(c) => r.local_overrides@.map_values(|o: CachedGitHubIssueOverride| o@)
                    == c@.local_overrides && forall|n: u64|
                    #![trigger r.existing_comments@.contains_key(n)]
                    (r.existing_comments@.contains_key(n) <==> last_comments(c@.issues, n) is Some)
                        && (r.existing_comments@.contains_key(n) ==> comment_views(
                        r.existing_comments@[n]@,
                    ) == last_comments(c@.issues, n)->0),
                None => r.local_overrides@.len() == 0 && r.existing_comments@.len() == 0,
            },
    {
        match existing {
            Some(cache) => {
                let existing_comments = existing_comments_by_number(&cache);
                let ghost cv = cache@;
                let r = GitHubIssueSyncBuilder {
                    repo: repo.to_string(),
                    comment_thread_limit,
                    existing_comments,
                    local_overrides: cache.local_overrides,
                    issues: Vec::new(),
                    fetched_comment_threads: 0,
                    comment_fetch_errors: 0,
                };
                r
            },
            None => GitHubIssueSyncBuilder {
                repo: repo.to_string(),
                comment_thread_limit,
                existing_comments: HashMap::new(),
                local_overrides: Vec::new(),
                issues: Vec::new(),
                fetched_comment_threads: 0,
                comment_fetch_errors: 0,
            },
        }
    }

    /// Whether the next listed issue gets its comment thread refreshed.
    pub fn wants_comments(&self, item: &GhIssueListItem) -> (r: bool)
        ensures
            r == wants_thread(item.comments, self.issues@.len() as int, self.comment_thread_limit),
    {
        let has_comments = match item.comments {
            Some(c) => c > 0,
            None => false,
        };
        has_comments && self.issues.len() < self.comment_thread_limit
    }

    /// `push_issue`: adds the next listed issue. A refreshed thread replaces
    /// the cached one; when the refresh failed, or the thread is not one to
    /// refresh, the cached thread stays.
    pub fn push_issue(&mut self, item: GhIssueListItem, fetch: CommentThreadFetch)
        requires
            old(self).fetched_comment_threads < usize::MAX,
            old(self).comment_fetch_errors < usize::MAX,
        ensures
            final(self).repo == old(self).repo,
            final(self).comment_thread_limit == old(self).comment_thread_limit,
            final(self).existing_comments@ == old(self).existing_comments@,
            final(self).local_overrides@ == old(self).local_overrides@,
            final(self).issues@.len() == old(self).issues@.len() + 1,
            forall|j: int|
                0 <= j < old(self).issues@.len() ==> #[trigger] final(self).issues@[j]
                    == old(self).issues@[j],
            ({
                let wanted = wants_thread(item.comments, old(self).issues@.len() as int, old(self).comment_thread_limit);
                let kept = old(self).kept_comments(item.number);
                &&& final(self).issues@.last()@ == issue_record(
                    item,
                    match fetch {
                        CommentThreadFetch::Fetched(cs) => if wanted {
                            comment_views(cs@)
                        } else {
                            kept
                        },
                        _ => kept,
                    },
                )
                &&& final(self).fetched_comment_threads == old(self).fetched_comment_threads + (if wanted
                    && fetch is Fetched {
                    1int
                } else {
                    0int
                })
                &&& final(self).comment_fetch_errors == old(self).comment_fetch_errors + (if wanted
                    && fetch is Failed {
                    1int
                } else {
                    0int
                })
            }),
    {
        let wanted = self.wants_comments(&item);
        let kept = match self.existing_comments.get(&item.number) {
            Some(cs) => clone_comments(cs),
            None => Vec::new(),
        };
        assert(comment_views(kept@) == old(self).kept_comments(item.number));
        let comments = if wanted {
            match fetch {
                CommentThreadFetch::Fetched(cs) => {
                    self.fetched_comment_threads = self.fetched_comment_threads + 1;
                    cs
                },
                CommentThreadFetch::Failed => {
                    self.comment_fetch_errors = self.comment_fetch_errors + 1;
                    kept
                },
                CommentThreadFetch::NotFetched => kept,
            }
        } else {
            kept
        };
        let ghost before = self.issues@;
        let ghost it = item;
        let ghost cv = comment_views(comments@);
        self.issues.push(item.into_cached(comments));
        assert(self.issues@.last()@ == issue_record(it, cv));
        assert(forall|j: int| 0 <= j < before.len() ==> self.issues@[j] == before[j]);
    }

    /// `finish`: the refreshed cache, stamped with the sync time.
    pub fn finish(self, unix_seconds: u64) -> (r: GitHubIssueSyncOutcome)
        ensures
            r.cache.schema_version == ISSUE_CACHE_SCHEMA_VERSION,
            r.cache.repo@ == self.repo@,
            opt_view(r.cache.synced_at) == Some("unix:"@ + decimal(unix_seconds as nat)),
            r.cache.issues@ == self.issues@,
            r.cache.local_overrides@ == self.local_overrides@,
            r.issue_count == self.issues@.len(),
            r.fetched_comment_threads == self.fetched_comment_threads,
            r.comment_fetch_errors == self.comment_fetch_errors,
    {
        let issue_count = self.issues.len();
        GitHubIssueSyncOutcome {
            cache: GitHubIssueCache {
                schema_version: ISSUE_CACHE_SCHEMA_VERSION,
                repo: self.repo,
                synced_at: Some(current_sync_label(unix_seconds)),
                issues: self.issues,
                local_overrides: self.local_overrides,
            },
            issue_count,
            fetched_comment_threads: self.fetched_comment_threads,
            comment_fetch_errors: self.comment_fetch_errors,
        }
    }
}

} // verus!
