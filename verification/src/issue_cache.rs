//! GitHub issue cache: remote parsing, priority ranking and the browser view
//! that the desktop app shows for a cached issue list.
use vstd::prelude::*;
use vstd::string::StrSliceExecFns;
use crate::ranking::{
    key_lt, key_views, lemma_count_before_strict, lemma_sort_pos_distinct, lemma_sort_pos_ordered,
    ranked_before, sort_pos, RankKey,
};
use crate::text::{
    eq_ignore_ascii_case, eq_ignore_ascii_case_chars,
    decimal_int, i64_decimal,
    byte_boundary_at, is_byte_boundary, join_chars, join_with, lines, lines_chars, truncate_bytes, truncate_bytes_chars,
    utf8_len, utf8_len_prefix, words, words_chars,
    ascii_lower, ascii_lower_chars, chars_eq, contains_chars, contains_sub, strings_from_char_vecs, views,
    chars_of, concat_chars, opt_view, split_chars, split_on, starts_with, string_from_chars,
    string_views, strip_prefix_chars, trim, trim_chars, trim_end_matches, trim_end_matches_chars,
    trim_str,
};

verus! {

broadcast use vstd::string::group_string_axioms;

/// Version written into freshly synced caches.
pub const ISSUE_CACHE_SCHEMA_VERSION: u32 = 1;

/// Number of open issues fetched per sync.
pub const DEFAULT_ISSUE_SYNC_LIMIT: usize = 100;

/// Number of leading issues whose comment threads are refreshed per sync.
pub const DEFAULT_COMMENT_THREAD_SYNC_LIMIT: usize = 40;

/// `default_schema_version`: the schema version assumed when a cache omits it.
pub fn default_schema_version() -> (r: u32)
    ensures
        r == ISSUE_CACHE_SCHEMA_VERSION,
{
    ISSUE_CACHE_SCHEMA_VERSION
}

#[derive(Clone, Debug)]
pub struct CachedGitHubLabel {
    pub name: String,
}

#[derive(Clone, Debug)]
pub struct CachedGitHubComment {
    pub author: Option<String>,
    pub body: String,
    pub created_at: Option<String>,
}

#[derive(Clone, Debug)]
pub struct CachedGitHubIssue {
    pub number: u64,
    pub title: String,
    pub body: Option<String>,
    pub labels: Vec<CachedGitHubLabel>,
    pub comment_count: Option<u32>,
    pub comments: Vec<CachedGitHubComment>,
    pub state: Option<String>,
    pub created_at: Option<String>,
    pub updated_at: Option<String>,
    pub assignees: Vec<String>,
    pub milestone: Option<String>,
}

#[derive(Clone, Debug, Default)]
pub struct CachedGitHubIssueOverride {
    pub number: u64,
    pub priority: Option<String>,
    pub pinned: bool,
}

#[derive(Clone, Debug)]
pub struct GitHubIssueCache {
    pub schema_version: u32,
    pub repo: String,
    pub synced_at: Option<String>,
    pub issues: Vec<CachedGitHubIssue>,
    pub local_overrides: Vec<CachedGitHubIssueOverride>,
}

/// How an issue row is drawn in the browser list.
#[derive(Clone, Copy, Debug, PartialEq, Eq, Structural)]
pub enum GitHubIssueVisualState {
    Idle,
    Selected,
}

/// One ranked issue as the browser shows it.
#[derive(Clone, Debug)]
pub struct GitHubIssuePreview {
    pub number: u64,
    pub priority: String,
    pub title: String,
    pub labels: Vec<String>,
    pub age: String,
    pub comments: u32,
    pub state: GitHubIssueVisualState,
    pub body_lines: Vec<String>,
    pub comment_lines: Vec<String>,
    pub priority_reason: String,
}

/// The issue browser built from a cache.
#[derive(Clone, Debug)]
pub struct GitHubIssueBrowserState {
    pub repo: String,
    pub filter_label: String,
    pub selected: usize,
    pub list_scroll: usize,
    pub preview_scroll: usize,
    pub issues: Vec<GitHubIssuePreview>,
}

pub struct CommentView {
    pub author: Option<Seq<char>>,
    pub body: Seq<char>,
    pub created_at: Option<Seq<char>>,
}

pub struct IssueView {
    pub number: u64,
    pub title: Seq<char>,
    pub body: Option<Seq<char>>,
    pub labels: Seq<Seq<char>>,
    pub comment_count: Option<u32>,
    pub comments: Seq<CommentView>,
    pub state: Option<Seq<char>>,
    pub created_at: Option<Seq<char>>,
    pub updated_at: Option<Seq<char>>,
    pub assignees: Seq<Seq<char>>,
    pub milestone: Option<Seq<char>>,
}

pub struct OverrideView {
    pub number: u64,
    pub priority: Option<Seq<char>>,
    pub pinned: bool,
}

pub struct CacheView {
    pub schema_version: u32,
    pub repo: Seq<char>,
    pub synced_at: Option<Seq<char>>,
    pub issues: Seq<IssueView>,
    pub local_overrides: Seq<OverrideView>,
}

pub struct PreviewView {
    pub number: u64,
    pub priority: Seq<char>,
    pub title: Seq<char>,
    pub labels: Seq<Seq<char>>,
    pub age: Seq<char>,
    pub comments: u32,
    pub state: GitHubIssueVisualState,
    pub body_lines: Seq<Seq<char>>,
    pub comment_lines: Seq<Seq<char>>,
    pub priority_reason: Seq<char>,
}

pub struct BrowserView {
    pub repo: Seq<char>,
    pub filter_label: Seq<char>,
    pub selected: usize,
    pub list_scroll: usize,
    pub preview_scroll: usize,
    pub issues: Seq<PreviewView>,
}

impl View for CachedGitHubComment {
    type V = CommentView;

    open spec fn view(&self) -> CommentView {
        CommentView { author: opt_view(self.author), body: self.body@, created_at: opt_view(self.created_at) }
    }
}

impl View for CachedGitHubIssue {
    type V = IssueView;

    open spec fn view(&self) -> IssueView {
        IssueView {
            number: self.number,
            title: self.title@,
            body: opt_view(self.body),
            labels: self.labels@.map_values(|l: CachedGitHubLabel| l.name@),
            comment_count: self.comment_count,
            comments: self.comments@.map_values(|c: CachedGitHubComment| c@),
            state: opt_view(self.state),
            created_at: opt_view(self.created_at),
            updated_at: opt_view(self.updated_at),
            assignees: string_views(self.assignees@),
            milestone: opt_view(self.milestone),
        }
    }
}

impl View for CachedGitHubIssueOverride {
    type V = OverrideView;

    open spec fn view(&self) -> OverrideView {
        OverrideView { number: self.number, priority: opt_view(self.priority), pinned: self.pinned }
    }
}

impl View for GitHubIssueCache {
    type V = CacheView;

    open spec fn view(&self) -> CacheView {
        CacheView {
            schema_version: self.schema_version,
            repo: self.repo@,
            synced_at: opt_view(self.synced_at),
            issues: self.issues@.map_values(|i: CachedGitHubIssue| i@),
            local_overrides: self.local_overrides@.map_values(|o: CachedGitHubIssueOverride| o@),
        }
    }
}

impl View for GitHubIssuePreview {
    type V = PreviewView;

    open spec fn view(&self) -> PreviewView {
        PreviewView {
            number: self.number,
            priority: self.priority@,
            title: self.title@,
            labels: string_views(self.labels@),
            age: self.age@,
            comments: self.comments,
            state: self.state,
            body_lines: string_views(self.body_lines@),
            comment_lines: string_views(self.comment_lines@),
            priority_reason: self.priority_reason@,
        }
    }
}

impl View for GitHubIssueBrowserState {
    type V = BrowserView;

    open spec fn view(&self) -> BrowserView {
        BrowserView {
            repo: self.repo@,
            filter_label: self.filter_label@,
            selected: self.selected,
            list_scroll: self.list_scroll,
            preview_scroll: self.preview_scroll,
            issues: self.issues@.map_values(|p: GitHubIssuePreview| p@),
        }
    }
}

// ---------------------------------------------------------------------------
// Repository names
// ---------------------------------------------------------------------------

/// `owner/name` from the text after a GitHub host prefix, when it has exactly
/// two non-blank `/`-separated parts.
pub open spec fn normalize_repo_spec(raw: Seq<char>) -> Option<Seq<char>> {
    let parts = split_on(raw, '/');
    if parts.len() != 2 {
        None
    } else {
        let owner = trim(parts[0]);
        let name = trim(parts[1]);
        if owner.len() == 0 || name.len() == 0 {
            None
        } else {
            Some(owner + seq!['/'] + name)
        }
    }
}

/// The GitHub `owner/name` a git remote URL points at, if it is a GitHub remote.
pub open spec fn github_repo_of_remote(remote: Seq<char>) -> Option<Seq<char>> {
    let r = trim_end_matches(trim(remote), ".git"@);
    if starts_with(r, "git@github.com:"@) {
        normalize_repo_spec(r.skip(15))
    } else if starts_with(r, "ssh://git@github.com/"@) {
        normalize_repo_spec(r.skip(21))
    } else if starts_with(r, "https://github.com/"@) {
        normalize_repo_spec(r.skip(19))
    } else if starts_with(r, "http://github.com/"@) {
        normalize_repo_spec(r.skip(18))
    } else {
        None
    }
}

fn normalize_repo_chars(raw: &[char]) -> (r: Option<Vec<char>>)
    ensures
        r matches Some(v) ==> normalize_repo_spec(raw@) == Some(v@),
        r is None ==> normalize_repo_spec(raw@) is None,
{
    let parts = split_chars(raw, '/');
    if parts.len() != 2 {
        return None;
    }
    let owner = trim_chars(parts[0].as_slice());
    let name = trim_chars(parts[1].as_slice());
    if owner.len() == 0 || name.len() == 0 {
        return None;
    }
    let with_slash = concat_chars(owner.as_slice(), &['/']);
    let joined = concat_chars(with_slash.as_slice(), name.as_slice());
    assert(['/']@ =~= seq!['/']);
    Some(joined)
}

/// `normalize_repo`: `owner/name` from the path part of a remote.
pub fn normalize_repo(raw: &str) -> (r: Option<String>)
    ensures
        r matches Some(v) ==> normalize_repo_spec(raw@) == Some(v@),
        r is None ==> normalize_repo_spec(raw@) is None,
{
    let cs = chars_of(raw);
    match normalize_repo_chars(cs.as_slice()) {
        Some(v) => Some(string_from_chars(v.as_slice())),
        None => None,
    }
}

/// `parse_github_repo_from_remote`: the `owner/name` of a GitHub remote URL.
pub fn parse_github_repo_from_remote(remote: &str) -> (r: Option<String>)
    ensures
        r matches Some(v) ==> github_repo_of_remote(remote@) == Some(v@),
        r is None ==> github_repo_of_remote(remote@) is None,
{
    proof {
        reveal_strlit(".git");
        reveal_strlit("git@github.com:");
        reveal_strlit("ssh://git@github.com/");
        reveal_strlit("https://github.com/");
        reveal_strlit("http://github.com/");
    }
    let trimmed = trim_str(remote);
    let git = chars_of(".git");
    let r = trim_end_matches_chars(trimmed.as_slice(), git.as_slice());
    let p0 = chars_of("git@github.com:");
    let found = if let Some(rest) = strip_prefix_chars(r.as_slice(), p0.as_slice()) {
        Some(rest)
    } else {
        let p1 = chars_of("ssh://git@github.com/");
        if let Some(rest) = strip_prefix_chars(r.as_slice(), p1.as_slice()) {
            Some(rest)
        } else {
            let p2 = chars_of("https://github.com/");
            if let Some(rest) = strip_prefix_chars(r.as_slice(), p2.as_slice()) {
                Some(rest)
            } else {
                let p3 = chars_of("http://github.com/");
                strip_prefix_chars(r.as_slice(), p3.as_slice())
            }
        }
    };
    match found {
        Some(rest) => match normalize_repo_chars(rest.as_slice()) {
            Some(v) => Some(string_from_chars(v.as_slice())),
            None => None,
        },
        None => None,
    }
}

/// The character a repository name maps to in a cache file key.
pub open spec fn cache_key_char(c: char) -> char {
    if ('a' <= c <= 'z') || ('A' <= c <= 'Z') || ('0' <= c <= '9') || c == '-' || c == '_' {
        c
    } else {
        '_'
    }
}

/// `repo_cache_key`: the repository name with every character outside
/// `[A-Za-z0-9_-]` replaced by `_`.
pub fn repo_cache_key(repo: &str) -> (r: String)
    ensures
        r@ == repo@.map_values(|c: char| cache_key_char(c)),
{
    let cs = chars_of(repo);
    let mut out: Vec<char> = Vec::new();
    let mut i: usize = 0;
    while i < cs.len()
        invariant
            i <= cs.len(),
            out@ == cs@.take(i as int).map_values(|c: char| cache_key_char(c)),
        decreases cs.len() - i,
    {
        let c = cs[i];
        let m = if ('a' <= c && c <= 'z') || ('A' <= c && c <= 'Z') || ('0' <= c && c <= '9')
            || c == '-' || c == '_' {
            c
        } else {
            '_'
        };
        out.push(m);
        assert(cs@.take(i + 1).map_values(|c: char| cache_key_char(c)) =~= cs@.take(
            i as int,
        ).map_values(|c: char| cache_key_char(c)).push(cache_key_char(c)));
        i = i + 1;
    }
    assert(cs@.take(cs.len() as int) == cs@);
    string_from_chars(out.as_slice())
}

} // verus!

verus! {

// ---------------------------------------------------------------------------
// Priority
// ---------------------------------------------------------------------------

fn eq_lit(s: &[char], lit: &str) -> (r: bool)
    ensures
        r == (s@ == lit@),
{
    let l = chars_of(lit);
    chars_eq(s, l.as_slice())
}

fn contains_lit(s: &[char], lit: &str) -> (r: bool)
    ensures
        r == contains_sub(s@, lit@),
{
    let l = chars_of(lit);
    contains_chars(s, l.as_slice())
}

/// The canonical priority a free-form priority string names, if any.
pub open spec fn normalize_priority_spec(p: Seq<char>) -> Option<Seq<char>> {
    let t = ascii_lower(trim(p));
    if t == "p0"@ || t == "0"@ || t == "critical"@ {
        Some("P0"@)
    } else if t == "p1"@ || t == "1"@ || t == "high"@ {
        Some("P1"@)
    } else if t == "p2"@ || t == "2"@ || t == "medium"@ || t == "normal"@ || t == "low"@ {
        Some("P2"@)
    } else {
        None
    }
}

/// `normalize_priority`: `P0`, `P1` or `P2` for a recognised priority spelling.
pub fn normalize_priority(priority: &str) -> (r: Option<&'static str>)
    ensures
        r matches Some(v) ==> normalize_priority_spec(priority@) == Some(v@),
        r is None ==> normalize_priority_spec(priority@) is None,
{
    let trimmed = trim_str(priority);
    let t = ascii_lower_chars(trimmed.as_slice());
    let ts = t.as_slice();
    if eq_lit(ts, "p0") || eq_lit(ts, "0") || eq_lit(ts, "critical") {
        Some("P0")
    } else if eq_lit(ts, "p1") || eq_lit(ts, "1") || eq_lit(ts, "high") {
        Some("P1")
    } else if eq_lit(ts, "p2") || eq_lit(ts, "2") || eq_lit(ts, "medium") || eq_lit(ts, "normal")
        || eq_lit(ts, "low") {
        Some("P2")
    } else {
        None
    }
}

/// Lower-cased, trimmed label names of an issue.
pub open spec fn label_names_spec(issue: IssueView) -> Seq<Seq<char>> {
    issue.labels.map_values(|l: Seq<char>| ascii_lower(trim(l)))
}

fn label_names_chars(issue: &CachedGitHubIssue) -> (r: Vec<Vec<char>>)
    ensures
        views(r@) == label_names_spec(issue@),
{
    let mut out: Vec<Vec<char>> = Vec::new();
    let mut i: usize = 0;
    while i < issue.labels.len()
        invariant
            i <= issue.labels.len(),
            views(out@) == label_names_spec(issue@).take(i as int),
        decreases issue.labels.len() - i,
    {
        let ghost before = out@;
        let t = trim_str(issue.labels[i].name.as_str());
        let l = ascii_lower_chars(t.as_slice());
        out.push(l);
        assert(views(out@) =~= views(before).push(ascii_lower(trim(issue.labels@[i as int].name@))));
        assert(label_names_spec(issue@).take(i + 1) =~= label_names_spec(issue@).take(i as int).push(
            ascii_lower(trim(issue.labels@[i as int].name@)),
        ));
        i = i + 1;
    }
    assert(label_names_spec(issue@).take(issue.labels.len() as int) == label_names_spec(issue@));
    out
}

/// `issue_label_names`: the issue's label names, trimmed and lower-cased.
pub fn issue_label_names(issue: &CachedGitHubIssue) -> (r: Vec<String>)
    ensures
        string_views(r@) == label_names_spec(issue@),
{
    let v = label_names_chars(issue);
    strings_from_char_vecs(&v)
}

pub open spec fn is_p0_label(l: Seq<char>) -> bool {
    l == "p0"@ || l == "priority:p0"@ || l == "priority:critical"@ || l == "critical"@ || l
        == "sev0"@
}

pub open spec fn is_p1_label(l: Seq<char>) -> bool {
    l == "p1"@ || l == "priority:p1"@ || l == "priority:high"@ || l == "high"@ || l == "sev1"@
}

pub open spec fn is_severe_label(l: Seq<char>) -> bool {
    contains_sub(l, "regression"@) || contains_sub(l, "crash"@)
}

pub open spec fn is_bug_label(l: Seq<char>) -> bool {
    contains_sub(l, "bug"@)
}

/// The priority the labels of an issue signal.
pub open spec fn label_priority_spec(labels: Seq<Seq<char>>) -> Seq<char> {
    if exists|i: int| 0 <= i < labels.len() && is_p0_label(#[trigger] labels[i]) {
        "P0"@
    } else if exists|i: int| 0 <= i < labels.len() && is_p1_label(#[trigger] labels[i]) {
        "P1"@
    } else if (exists|i: int| 0 <= i < labels.len() && is_severe_label(#[trigger] labels[i]))
        && (exists|i: int| 0 <= i < labels.len() && is_bug_label(#[trigger] labels[i])) {
        "P1"@
    } else {
        "P2"@
    }
}

/// The priority of an issue: a recognised local override first, the labels after.
pub open spec fn issue_priority_spec(issue: IssueView, ov: Option<OverrideView>) -> Seq<char> {
    if ov is Some && ov->0.priority is Some && normalize_priority_spec(ov->0.priority->0) is Some {
        normalize_priority_spec(ov->0.priority->0)->0
    } else {
        label_priority_spec(label_names_spec(issue))
    }
}

fn any_label(labels: &Vec<Vec<char>>, kind: u8) -> (r: bool)
    requires
        kind < 4,
    ensures
        kind == 0 ==> r == exists|i: int| 0 <= i < labels@.len() && is_p0_label(#[trigger] views(labels@)[i]),
        kind == 1 ==> r == exists|i: int| 0 <= i < labels@.len() && is_p1_label(#[trigger] views(labels@)[i]),
        kind == 2 ==> r == exists|i: int| 0 <= i < labels@.len() && is_severe_label(#[trigger] views(labels@)[i]),
        kind == 3 ==> r == exists|i: int| 0 <= i < labels@.len() && is_bug_label(#[trigger] views(labels@)[i]),
{
    proof {
        reveal_strlit("p0");
        reveal_strlit("priority:p0");
        reveal_strlit("priority:critical");
        reveal_strlit("critical");
        reveal_strlit("sev0");
    }
    let mut i: usize = 0;
    while i < labels.len()
        invariant
            kind < 4,
            i <= labels.len(),
            kind == 0 ==> forall|j: int| 0 <= j < i ==> !is_p0_label(#[trigger] views(labels@)[j]),
            kind == 1 ==> forall|j: int| 0 <= j < i ==> !is_p1_label(#[trigger] views(labels@)[j]),
            kind == 2 ==> forall|j: int| 0 <= j < i ==> !is_severe_label(#[trigger] views(labels@)[j]),
            kind == 3 ==> forall|j: int| 0 <= j < i ==> !is_bug_label(#[trigger] views(labels@)[j]),
        decreases labels.len() - i,
    {
        let l = labels[i].as_slice();
        assert(views(labels@)[i as int] == l@);
        let hit = if kind == 0 {
            eq_lit(l, "p0") || eq_lit(l, "priority:p0") || eq_lit(l, "priority:critical") || eq_lit(
                l,
                "critical",
            ) || eq_lit(l, "sev0")
        } else if kind == 1 {
            eq_lit(l, "p1") || eq_lit(l, "priority:p1") || eq_lit(l, "priority:high") || eq_lit(
                l,
                "high",
            ) || eq_lit(l, "sev1")
        } else if kind == 2 {
            contains_lit(l, "regression") || contains_lit(l, "crash")
        } else {
            contains_lit(l, "bug")
        };
        if hit {
            return true;
        }
        i = i + 1;
    }
    false
}

fn priority_from_labels(labels: &Vec<Vec<char>>) -> (r: String)
    ensures
        r@ == label_priority_spec(views(labels@)),
{
    if any_label(labels, 0) {
        "P0".to_string()
    } else if any_label(labels, 1) {
        "P1".to_string()
    } else if any_label(labels, 2) && any_label(labels, 3) {
        "P1".to_string()
    } else {
        "P2".to_string()
    }
}

/// `issue_priority`: `P0`/`P1`/`P2` for an issue and its local override.
pub fn issue_priority(
    issue: &CachedGitHubIssue,
    override_: Option<&CachedGitHubIssueOverride>,
) -> (r: String)
    ensures
        r@ == issue_priority_spec(
            issue@,
            match override_ {
                Some(o) => Some(o@),
                None => None,
            },
        ),
{
    if let Some(o) = override_ {
        if let Some(p) = &o.priority {
            if let Some(normalized) = normalize_priority(p.as_str()) {
                return normalized.to_string();
            }
        }
    }
    let labels = label_names_chars(issue);
    priority_from_labels(&labels)
}

/// `priority_rank`: 0 for `P0`, 1 for `P1`, 2 otherwise.
pub open spec fn priority_rank_spec(p: Seq<char>) -> u8 {
    if p == "P0"@ {
        0
    } else if p == "P1"@ {
        1
    } else {
        2
    }
}

pub fn priority_rank(priority: &str) -> (r: u8)
    ensures
        r == priority_rank_spec(priority@),
        priority@ == "P0"@ ==> r == 0,
        priority@ == "P1"@ ==> r == 1,
        priority@ != "P0"@ && priority@ != "P1"@ ==> r == 2,
{
    proof {
        reveal_strlit("P0");
        reveal_strlit("P1");
        assert("P0"@ != "P1"@) by {
            assert("P0"@[1] != "P1"@[1]);
        }
    }
    let p = chars_of(priority);
    if eq_lit(p.as_slice(), "P0") {
        0
    } else if eq_lit(p.as_slice(), "P1") {
        1
    } else {
        2
    }
}

} // verus!

verus! {

// ---------------------------------------------------------------------------
// Score
// ---------------------------------------------------------------------------

/// Points one (normalised) label contributes to an issue's score.
pub open spec fn label_score(l: Seq<char>) -> int {
    (if contains_sub(l, "regression"@) { 18int } else { 0int })
        + (if contains_sub(l, "crash"@) || contains_sub(l, "panic"@) { 16int } else { 0int })
        + (if contains_sub(l, "bug"@) { 10int } else { 0int })
        + (if contains_sub(l, "desktop"@) { 4int } else { 0int })
}

pub open spec fn labels_score(ls: Seq<Seq<char>>) -> int
    decreases ls.len(),
{
    if ls.len() == 0 {
        0
    } else {
        labels_score(ls.drop_last()) + label_score(ls.last())
    }
}

proof fn lemma_labels_score_bounds(ls: Seq<Seq<char>>)
    ensures
        0 <= labels_score(ls) <= 48 * ls.len(),
    decreases ls.len(),
{
    if ls.len() > 0 {
        lemma_labels_score_bounds(ls.drop_last());
    }
}

/// The lower-cased `title body` text searched for alarm keywords.
pub open spec fn score_text(issue: IssueView) -> Seq<char> {
    ascii_lower(
        issue.title + seq![' '] + (match issue.body {
            Some(b) => b,
            None => Seq::<char>::empty(),
        }),
    )
}

/// Points for the alarm keywords found in the text, 5 each.
pub open spec fn keyword_score(text: Seq<char>) -> int {
    (if contains_sub(text, "regression"@) { 5int } else { 0int })
        + (if contains_sub(text, "crash"@) { 5int } else { 0int })
        + (if contains_sub(text, "panic"@) { 5int } else { 0int })
        + (if contains_sub(text, "data loss"@) { 5int } else { 0int })
        + (if contains_sub(text, "hang"@) { 5int } else { 0int })
        + (if contains_sub(text, "broken"@) { 5int } else { 0int })
}

/// The comment count an issue reports: the listed count, else the cached comments.
pub open spec fn comment_count_spec(issue: IssueView) -> u32 {
    match issue.comment_count {
        Some(c) => c,
        None => issue.comments.len() as u32,
    }
}

/// `issue_priority_score`.
pub open spec fn issue_priority_score_spec(issue: IssueView, ov: Option<OverrideView>) -> int {
    let c = (comment_count_spec(issue) as i32) as int;
    (if ov is Some && ov->0.pinned { 50int } else { 0int })
        + labels_score(label_names_spec(issue))
        + keyword_score(score_text(issue))
        + (if c < 10 { c } else { 10 })
        + (if issue.milestone is Some && issue.milestone->0.len() > 0 { 3int } else { 0int })
        + (if issue.assignees.len() > 0 { 2int } else { 0int })
}

fn label_score_exec(l: &[char]) -> (r: i32)
    ensures
        r as int == label_score(l@),
{
    let mut s: i32 = 0;
    if contains_lit(l, "regression") {
        s = s + 18;
    }
    if contains_lit(l, "crash") || contains_lit(l, "panic") {
        s = s + 16;
    }
    if contains_lit(l, "bug") {
        s = s + 10;
    }
    if contains_lit(l, "desktop") {
        s = s + 4;
    }
    s
}

fn keyword_score_exec(text: &[char]) -> (r: i32)
    ensures
        r as int == keyword_score(text@),
{
    let mut s: i32 = 0;
    if contains_lit(text, "regression") {
        s = s + 5;
    }
    if contains_lit(text, "crash") {
        s = s + 5;
    }
    if contains_lit(text, "panic") {
        s = s + 5;
    }
    if contains_lit(text, "data loss") {
        s = s + 5;
    }
    if contains_lit(text, "hang") {
        s = s + 5;
    }
    if contains_lit(text, "broken") {
        s = s + 5;
    }
    s
}

/// `issue.comment_count.unwrap_or(issue.comments.len() as u32)`.
pub fn issue_comment_count(issue: &CachedGitHubIssue) -> (r: u32)
    ensures
        r == comment_count_spec(issue@),
{
    match issue.comment_count {
        Some(c) => c,
        None => issue.comments.len() as u32,
    }
}

proof fn lemma_labels_score_prefix(ls: Seq<Seq<char>>, i: int)
    requires
        0 <= i <= ls.len(),
    ensures
        0 <= labels_score(ls.take(i)) <= labels_score(ls),
    decreases ls.len(),
{
    lemma_labels_score_bounds(ls.take(i));
    if i < ls.len() {
        lemma_labels_score_prefix(ls.drop_last(), i);
        assert(ls.drop_last().take(i) == ls.take(i));
    } else {
        assert(ls.take(i) == ls);
    }
}

/// The score before the discussion and triage points: pinning, labels and
/// alarm keywords.
pub open spec fn base_score_spec(issue: IssueView, ov: Option<OverrideView>) -> int {
    (if ov is Some && ov->0.pinned { 50int } else { 0int })
        + labels_score(label_names_spec(issue))
        + keyword_score(score_text(issue))
}

/// The score of an issue can be added up in `i32`: neither the running sum
/// before the comment points nor the final score passes `i32::MAX` (the
/// comment points can be negative, so the final score alone does not bound
/// the running sum).
pub open spec fn score_fits(issue: IssueView, ov: Option<OverrideView>) -> bool {
    base_score_spec(issue, ov) <= i32::MAX && issue_priority_score_spec(issue, ov) <= i32::MAX
}

/// Whether the score of `issue` can be added up in `i32`.
pub fn issue_priority_score_fits(
    issue: &CachedGitHubIssue,
    override_: Option<&CachedGitHubIssueOverride>,
) -> (r: bool)
    ensures
        r == score_fits(
            issue@,
            match override_ {
                Some(o) => Some(o@),
                None => None,
            },
        ),
{
    let ghost ovv = match override_ {
        Some(o) => Some(o@),
        None => None::<OverrideView>,
    };
    let labels = label_names_chars(issue);
    let pinned = match override_ {
        Some(o) => o.pinned,
        None => false,
    };
    let mut acc: i64 = if pinned {
        50
    } else {
        0
    };
    let ghost base = acc as int;
    assert(views(labels@).len() == labels@.len());
    let mut i: usize = 0;
    while i < labels.len()
        invariant
            i <= labels.len(),
            views(labels@) == label_names_spec(issue@),
            0 <= base <= 50,
            base == (if ovv is Some && ovv->0.pinned { 50int } else { 0int }),
            acc as int == base + labels_score(views(labels@).take(i as int)),
            0 <= acc <= i32::MAX,
            ovv == match override_ {
                Some(o) => Some(o@),
                None => None::<OverrideView>,
            },
        decreases labels.len() - i,
    {
        proof {
            lemma_labels_score_bounds(views(labels@).take(i as int));
            assert(views(labels@).take(i + 1).drop_last() == views(labels@).take(i as int));
            assert(views(labels@).take(i + 1).last() == labels@[i as int]@);
        }
        let ls = label_score_exec(labels[i].as_slice());
        acc = acc + ls as i64;
        i = i + 1;
        assert(acc as int == base + labels_score(views(labels@).take(i as int)));
        if acc > i32::MAX as i64 {
            proof {
                lemma_labels_score_prefix(views(labels@), i as int);
                keyword_score_nonneg(score_text(issue@));
            }
            return false;
        }
    }
    assert(views(labels@).take(labels.len() as int) == views(labels@));
    let title = chars_of(issue.title.as_str());
    let body = match &issue.body {
        Some(b) => chars_of(b.as_str()),
        None => Vec::new(),
    };
    let with_space = concat_chars(title.as_slice(), &[' ']);
    let joined = concat_chars(with_space.as_slice(), body.as_slice());
    let text = ascii_lower_chars(joined.as_slice());
    assert([' ']@ =~= seq![' ']);
    proof {
        keyword_score_nonneg(score_text(issue@));
    }
    let base_total = acc + keyword_score_exec(text.as_slice()) as i64;
    if base_total > i32::MAX as i64 {
        return false;
    }
    let c = #[verifier::truncate] (issue_comment_count(issue) as i32);
    let mut total = base_total + if c < 10 {
        c as i64
    } else {
        10
    };
    let has_milestone = match &issue.milestone {
        Some(m) => m.as_str().unicode_len() > 0,
        None => false,
    };
    if has_milestone {
        total = total + 3;
    }
    if issue.assignees.len() > 0 {
        total = total + 2;
    }
    total <= i32::MAX as i64
}

proof fn keyword_score_nonneg(t: Seq<char>)
    ensures
        0 <= keyword_score(t) <= 30,
{
}

/// `issue_priority_score`: how urgent an issue looks from its labels, text,
/// discussion and triage metadata.
pub fn issue_priority_score(
    issue: &CachedGitHubIssue,
    override_: Option<&CachedGitHubIssueOverride>,
) -> (r: i32)
    requires
        score_fits(
            issue@,
            match override_ {
                Some(o) => Some(o@),
                None => None,
            },
        ),
    ensures
        r as int == issue_priority_score_spec(
            issue@,
            match override_ {
                Some(o) => Some(o@),
                None => None,
            },
        ),
{
    let labels = label_names_chars(issue);
    let title = chars_of(issue.title.as_str());
    let body = match &issue.body {
        Some(b) => chars_of(b.as_str()),
        None => Vec::new(),
    };
    let with_space = concat_chars(title.as_slice(), &[' ']);
    let joined = concat_chars(with_space.as_slice(), body.as_slice());
    let text = ascii_lower_chars(joined.as_slice());
    assert([' ']@ =~= seq![' ']);
    let mut score: i32 = 0;
    let pinned = match override_ {
        Some(o) => o.pinned,
        None => false,
    };
    if pinned {
        score = score + 50;
    }
    let ghost base = score as int;
    let ghost ovv = match override_ {
        Some(o) => Some(o@),
        None => None::<OverrideView>,
    };
    assert(views(labels@).len() == labels@.len());
    assert(label_names_spec(issue@).len() == issue.labels@.len());
    proof {
        keyword_score_nonneg(score_text(issue@));
        lemma_labels_score_bounds(label_names_spec(issue@));
    }
    let mut i: usize = 0;
    while i < labels.len()
        invariant
            i <= labels.len(),
            views(labels@) == label_names_spec(issue@),
            0 <= base <= 50,
            base == (if ovv is Some && ovv->0.pinned { 50int } else { 0int }),
            score_fits(issue@, ovv),
            0 <= keyword_score(score_text(issue@)),
            score as int == base + labels_score(views(labels@).take(i as int)),
        decreases labels.len() - i,
    {
        proof {
            lemma_labels_score_bounds(views(labels@).take(i as int));
            lemma_labels_score_prefix(views(labels@), i + 1);
            assert(views(labels@).take(i + 1).drop_last() == views(labels@).take(i as int));
            assert(views(labels@).take(i + 1).last() == labels@[i as int]@);
        }
        let ls = label_score_exec(labels[i].as_slice());
        score = score + ls;
        i = i + 1;
    }
    assert(views(labels@).take(labels.len() as int) == views(labels@));
    proof {
        lemma_labels_score_bounds(views(labels@));
    }
    score = score + keyword_score_exec(text.as_slice());
    let c = #[verifier::truncate] (issue_comment_count(issue) as i32);
    score = score + if c < 10 {
        c
    } else {
        10
    };
    let has_milestone = match &issue.milestone {
        Some(m) => m.as_str().unicode_len() > 0,
        None => false,
    };
    if has_milestone {
        score = score + 3;
    }
    if issue.assignees.len() > 0 {
        score = score + 2;
    }
    score
}

} // verus!

verus! {

// ---------------------------------------------------------------------------
// Preview text
// ---------------------------------------------------------------------------

/// A line with its whitespace runs collapsed to single spaces.
pub open spec fn collapsed(line: Seq<char>) -> Seq<char> {
    join_with(words(line), seq![' '])
}

/// `compact_line` is defined on `line` (cutting it to 237 bytes would not
/// split a character).
pub open spec fn compact_ok(line: Seq<char>) -> bool {
    utf8_len(collapsed(line)) > 240 ==> is_byte_boundary(collapsed(line), 237)
}

/// `compact_line`: whitespace collapsed, and cut to 237 bytes plus `...` when
/// longer than 240 bytes.
pub open spec fn compact_spec(line: Seq<char>) -> Seq<char> {
    let c = collapsed(line);
    if utf8_len(c) > 240 {
        truncate_bytes(c, 237) + "..."@
    } else {
        c
    }
}

fn compact_chars(line: &[char]) -> (r: Vec<char>)
    requires
        compact_ok(line@),
    ensures
        r@ == compact_spec(line@),
{
    proof {
        reveal_strlit("...");
    }
    let ws = words_chars(line);
    let joined = join_chars(&ws, &[' ']);
    assert([' ']@ =~= seq![' ']);
    let len = utf8_len_prefix(joined.as_slice(), joined.len());
    assert(joined@.take(joined@.len() as int) == joined@);
    if len > 240 {
        let cut = truncate_bytes_chars(joined.as_slice(), 237);
        let dots = chars_of("...");
        concat_chars(cut.as_slice(), dots.as_slice())
    } else {
        joined
    }
}

/// `compact_line`.
pub fn compact_line(line: &str) -> (r: String)
    requires
        compact_ok(line@),
    ensures
        r@ == compact_spec(line@),
{
    let cs = chars_of(line);
    let c = compact_chars(cs.as_slice());
    string_from_chars(c.as_slice())
}

/// Holds of non-empty lines.
pub open spec fn nonblank() -> spec_fn(Seq<char>) -> bool {
    |l: Seq<char>| l.len() > 0
}

/// The trimmed non-blank lines of `text`.
pub open spec fn nonblank_lines(text: Seq<char>) -> Seq<Seq<char>> {
    lines(text).map_values(|l: Seq<char>| trim(l)).filter(nonblank())
}

/// The lines `split_preview_lines` shows before compaction.
pub open spec fn preview_candidates(text: Seq<char>, limit: nat) -> Seq<Seq<char>> {
    let ls = nonblank_lines(text);
    ls.take(if limit < ls.len() { limit as int } else { ls.len() as int })
}

/// Placeholder shown for an issue without a cached body.
pub open spec fn no_body_line() -> Seq<char> {
    "No cached issue body yet. Refresh the issue cache to pull full context."@
}

/// `split_preview_lines` is defined on `text`.
pub open spec fn preview_ok(text: Seq<char>, limit: nat) -> bool {
    forall|i: int|
        0 <= i < preview_candidates(text, limit).len() ==> compact_ok(
            #[trigger] preview_candidates(text, limit)[i],
        )
}

/// `split_preview_lines`: up to `limit` compacted non-blank lines, or a placeholder.
pub open spec fn split_preview_spec(text: Seq<char>, limit: nat) -> Seq<Seq<char>> {
    let c = preview_candidates(text, limit);
    if c.len() == 0 {
        seq![no_body_line()]
    } else {
        c.map_values(|l: Seq<char>| compact_spec(l))
    }
}

/// The trimmed non-blank lines of `text`, at most `limit` of them.
fn preview_candidate_lines(text: &str, limit: usize) -> (r: Vec<Vec<char>>)
    ensures
        views(r@) == preview_candidates(text@, limit as nat),
{
    let cs = chars_of(text);
    let ls = lines_chars(cs.as_slice());
    let ghost all = lines(cs@).map_values(|l: Seq<char>| trim(l));
    let mut kept: Vec<Vec<char>> = Vec::new();
    let mut i: usize = 0;
    while i < ls.len() && kept.len() < limit
        invariant
            i <= ls.len(),
            views(ls@) == lines(cs@),
            cs@ == text@,
            all == lines(cs@).map_values(|l: Seq<char>| trim(l)),
            all.len() == ls@.len(),
            kept.len() <= limit,
            views(kept@) == all.take(i as int).filter(nonblank()),
        decreases ls.len() - i,
    {
        let t = trim_chars(ls[i].as_slice());
        proof {
            reveal(Seq::filter);
        }
        assert(all.take(i + 1).drop_last() == all.take(i as int));
        assert(all.take(i + 1).last() == t@);
        if t.len() > 0 {
            let ghost before = kept@;
            kept.push(t);
            assert(views(kept@) =~= views(before).push(all[i as int]));
        }
        i = i + 1;
    }
    proof {
        let f = nonblank();
        if i == ls.len() {
            assert(all.take(i as int) == all);
        } else {
            // `limit` lines were kept: they are the first `limit` non-blank lines.
            all.take(i as int).lemma_filter_len(f);
            assert(kept.len() == limit);
            lemma_filter_prefix(all, i as int, f);
        }
    }
    kept
}

pub fn split_preview_lines(text: String, limit: usize) -> (r: Vec<String>)
    requires
        preview_ok(text@, limit as nat),
    ensures
        string_views(r@) == split_preview_spec(text@, limit as nat),
{
    proof {
        reveal_strlit("No cached issue body yet. Refresh the issue cache to pull full context.");
    }
    let kept = preview_candidate_lines(text.as_str(), limit);
    let mut out: Vec<String> = Vec::new();
    if kept.len() == 0 {
        out.push("No cached issue body yet. Refresh the issue cache to pull full context.".to_string());
        assert(string_views(out@) =~= seq![no_body_line()]);
        return out;
    }
    let ghost cand = preview_candidates(text@, limit as nat);
    assert(views(kept@) == cand);
    let mut k: usize = 0;
    while k < kept.len()
        invariant
            k <= kept.len(),
            views(kept@) == cand,
            cand == preview_candidates(text@, limit as nat),
            preview_ok(text@, limit as nat),
            string_views(out@) == cand.take(k as int).map_values(|l: Seq<char>| compact_spec(l)),
        decreases kept.len() - k,
    {
        assert(cand[k as int] == kept@[k as int]@);
        let ghost before = out@;
        let c = compact_chars(kept[k].as_slice());
        out.push(string_from_chars(c.as_slice()));
        assert(string_views(out@) =~= string_views(before).push(compact_spec(cand[k as int])));
        assert(cand.take(k + 1).map_values(|l: Seq<char>| compact_spec(l)) =~= cand.take(
            k as int,
        ).map_values(|l: Seq<char>| compact_spec(l)).push(compact_spec(cand[k as int])));
        k = k + 1;
    }
    assert(cand.take(kept.len() as int) == cand);
    out
}

/// Filtering a prefix that already holds `n` kept items, with `n` at most the
/// number kept from the whole sequence, gives the first `n` kept items.
proof fn lemma_filter_prefix(s: Seq<Seq<char>>, i: int, f: spec_fn(Seq<char>) -> bool)
    requires
        0 <= i <= s.len(),
    ensures
        s.take(i).filter(f).len() <= s.filter(f).len(),
        s.filter(f).take(s.take(i).filter(f).len() as int) == s.take(i).filter(f),
    decreases s.len() - i,
{
    reveal(Seq::filter);
    if i == s.len() {
        assert(s.take(i) == s);
    } else {
        lemma_filter_prefix(s.drop_last(), if i < s.len() { i } else { i - 1 }, f);
        assert(s.drop_last().take(i) == s.take(i));
        let sub = s.drop_last().filter(f);
        assert(s.filter(f) == if f(s.last()) { sub.push(s.last()) } else { sub });
        if f(s.last()) {
            assert(sub.push(s.last()).take(sub.len() as int) == sub);
            let n = s.take(i).filter(f).len() as int;
            assert(sub.push(s.last()).take(n) == sub.take(n));
        }
    }
}

} // verus!

verus! {

/// `issue_priority_reason`.
pub open spec fn priority_reason_spec(priority: Seq<char>, score: int, labels: Seq<Seq<char>>) -> Seq<char> {
    let summary = if labels.len() == 0 {
        "no labels"@
    } else {
        join_with(labels, ","@)
    };
    priority + " from labels/signals ("@ + summary + "), score "@ + decimal_int(score)
}

fn priority_reason_chars(priority: &[char], score: i32, labels: &Vec<Vec<char>>) -> (r: Vec<char>)
    ensures
        r@ == priority_reason_spec(priority@, score as int, views(labels@)),
{
    proof {
        reveal_strlit("no labels");
        reveal_strlit(",");
        reveal_strlit(" from labels/signals (");
        reveal_strlit("), score ");
    }
    let summary = if labels.len() == 0 {
        chars_of("no labels")
    } else {
        let comma = chars_of(",");
        join_chars(labels, comma.as_slice())
    };
    let a = chars_of(" from labels/signals (");
    let b = chars_of("), score ");
    let digits = i64_decimal(score as i64);
    let s1 = concat_chars(priority, a.as_slice());
    let s2 = concat_chars(s1.as_slice(), summary.as_slice());
    let s3 = concat_chars(s2.as_slice(), b.as_slice());
    concat_chars(s3.as_slice(), digits.as_slice())
}

/// `issue_priority_reason`: why an issue got its priority.
pub fn issue_priority_reason(priority: &str, score: i32, labels: &[String]) -> (r: String)
    ensures
        r@ == priority_reason_spec(priority@, score as int, string_views(labels@)),
{
    let p = chars_of(priority);
    let mut ls: Vec<Vec<char>> = Vec::new();
    let mut i: usize = 0;
    while i < labels.len()
        invariant
            i <= labels.len(),
            views(ls@) == string_views(labels@).take(i as int),
        decreases labels.len() - i,
    {
        let ghost before = ls@;
        ls.push(chars_of(labels[i].as_str()));
        assert(views(ls@) =~= views(before).push(labels@[i as int]@));
        assert(string_views(labels@).take(i + 1) =~= string_views(labels@).take(i as int).push(
            labels@[i as int]@,
        ));
        i = i + 1;
    }
    assert(string_views(labels@).take(labels.len() as int) == string_views(labels@));
    let r = priority_reason_chars(p.as_slice(), score, &ls);
    string_from_chars(r.as_slice())
}

/// The line shown for one cached comment.
pub open spec fn comment_line_spec(c: CommentView) -> Seq<char> {
    match c.author {
        Some(a) => if a.len() > 0 {
            a + ": "@ + compact_spec(c.body)
        } else {
            compact_spec(c.body)
        },
        None => compact_spec(c.body),
    }
}

/// The newest (at most four) comments, newest first.
pub open spec fn recent_comments(comments: Seq<CommentView>) -> Seq<CommentView> {
    let n = comments.len();
    Seq::new(if n < 4 { n } else { 4 }, |k: int| comments[n - 1 - k])
}

/// The age label of an issue.
pub open spec fn age_spec(issue: IssueView) -> Seq<char> {
    match issue.updated_at {
        Some(u) => "updated "@ + u,
        None => match issue.created_at {
            Some(c) => "updated "@ + c,
            None => "cached"@,
        },
    }
}

/// The body text a preview is made from.
pub open spec fn body_text(issue: IssueView) -> Seq<char> {
    match issue.body {
        Some(b) => b,
        None => Seq::<char>::empty(),
    }
}

/// `cached_issue_to_preview` is defined on `issue`.
pub open spec fn preview_defined(issue: IssueView) -> bool {
    &&& preview_ok(body_text(issue), 10)
    &&& forall|k: int|
        0 <= k < recent_comments(issue.comments).len() ==> compact_ok(
            (#[trigger] recent_comments(issue.comments)[k]).body,
        )
}

/// `cached_issue_to_preview`.
pub open spec fn preview_spec(
    issue: IssueView,
    priority: Seq<char>,
    score: int,
    ov: Option<OverrideView>,
) -> PreviewView {
    PreviewView {
        number: issue.number,
        priority: priority,
        title: issue.title,
        labels: issue.labels,
        age: age_spec(issue),
        comments: comment_count_spec(issue),
        state: GitHubIssueVisualState::Idle,
        body_lines: split_preview_spec(body_text(issue), 10),
        comment_lines: recent_comments(issue.comments).map_values(|c: CommentView| comment_line_spec(c)),
        priority_reason: priority_reason_spec(priority, score, issue.labels) + (if ov is Some
            && ov->0.priority is Some {
            " · local override"@
        } else {
            Seq::<char>::empty()
        }),
    }
}

fn comment_line(c: &CachedGitHubComment) -> (r: String)
    requires
        compact_ok(c@.body),
    ensures
        r@ == comment_line_spec(c@),
{
    proof {
        reveal_strlit(": ");
    }
    let body = chars_of(c.body.as_str());
    let compact = compact_chars(body.as_slice());
    match &c.author {
        Some(a) => {
            let ac = chars_of(a.as_str());
            if ac.len() > 0 {
                let sep = chars_of(": ");
                let s1 = concat_chars(ac.as_slice(), sep.as_slice());
                let s2 = concat_chars(s1.as_slice(), compact.as_slice());
                string_from_chars(s2.as_slice())
            } else {
                string_from_chars(compact.as_slice())
            }
        },
        None => string_from_chars(compact.as_slice()),
    }
}

/// `cached_issue_to_preview`: the browser row for one issue.
pub fn cached_issue_to_preview(
    repo: &str,
    issue: CachedGitHubIssue,
    priority: String,
    score: i32,
    override_: Option<&CachedGitHubIssueOverride>,
) -> (r: GitHubIssuePreview)
    requires
        preview_defined(issue@),
    ensures
        r@ == preview_spec(
            issue@,
            priority@,
            score as int,
            match override_ {
                Some(o) => Some(o@),
                None => None,
            },
        ),
{
    proof {
        reveal_strlit("updated ");
        reveal_strlit("cached");
        reveal_strlit(" · local override");
    }
    let comment_count = issue_comment_count(&issue);
    let mut labels: Vec<String> = Vec::new();
    let mut i: usize = 0;
    while i < issue.labels.len()
        invariant
            i <= issue.labels.len(),
            string_views(labels@) == issue@.labels.take(i as int),
        decreases issue.labels.len() - i,
    {
        let ghost before = labels@;
        labels.push(issue.labels[i].name.clone());
        assert(string_views(labels@) =~= string_views(before).push(issue.labels@[i as int].name@));
        assert(issue@.labels.take(i + 1) =~= issue@.labels.take(i as int).push(
            issue.labels@[i as int].name@,
        ));
        i = i + 1;
    }
    assert(issue@.labels.take(issue.labels.len() as int) == issue@.labels);
    let body = match &issue.body {
        Some(b) => b.clone(),
        None => String::new(),
    };
    let body_lines = split_preview_lines(body, 10);
    let n = issue.comments.len();
    let shown: usize = if n < 4 {
        n
    } else {
        4
    };
    let ghost recent = recent_comments(issue@.comments);
    let mut comment_lines: Vec<String> = Vec::new();
    let mut k: usize = 0;
    while k < shown
        invariant
            n == issue.comments.len(),
            shown == (if n < 4 { n } else { 4 }),
            k <= shown,
            recent == recent_comments(issue@.comments),
            preview_defined(issue@),
            string_views(comment_lines@) == recent.take(k as int).map_values(
                |c: CommentView| comment_line_spec(c),
            ),
        decreases shown - k,
    {
        assert(recent[k as int] == issue.comments@[n - 1 - k]@);
        let ghost before = comment_lines@;
        comment_lines.push(comment_line(&issue.comments[n - 1 - k]));
        assert(string_views(comment_lines@) =~= string_views(before).push(comment_line_spec(recent[k as int])));
        assert(recent.take(k + 1).map_values(|c: CommentView| comment_line_spec(c)) =~= recent.take(
            k as int,
        ).map_values(|c: CommentView| comment_line_spec(c)).push(comment_line_spec(recent[k as int])));
        k = k + 1;
    }
    assert(recent.take(shown as int) == recent);
    let age = match &issue.updated_at {
        Some(u) => {
            let p = chars_of("updated ");
            let v = chars_of(u.as_str());
            let s = concat_chars(p.as_slice(), v.as_slice());
            string_from_chars(s.as_slice())
        },
        None => match &issue.created_at {
            Some(c) => {
                let p = chars_of("updated ");
                let v = chars_of(c.as_str());
                let s = concat_chars(p.as_slice(), v.as_slice());
                string_from_chars(s.as_slice())
            },
            None => "cached".to_string(),
        },
    };
    let reason_base = issue_priority_reason(priority.as_str(), score, labels.as_slice());
    let has_override_priority = match override_ {
        Some(o) => o.priority.is_some(),
        None => false,
    };
    let reason = if has_override_priority {
        let a = chars_of(reason_base.as_str());
        let b = chars_of(" · local override");
        let s = concat_chars(a.as_slice(), b.as_slice());
        string_from_chars(s.as_slice())
    } else {
        reason_base
    };
    let CachedGitHubIssue { number, title, .. } = issue;
    let r = GitHubIssuePreview {
        number,
        priority,
        title,
        labels,
        age,
        comments: comment_count,
        state: GitHubIssueVisualState::Idle,
        body_lines,
        comment_lines,
        priority_reason: reason,
    };
    assert(r@.priority_reason =~= preview_spec(
            issue@,
            priority@,
            score as int,
            match override_ {
                Some(o) => Some(o@),
                None => None,
            },
        ).priority_reason);
    r
}

} // verus!

verus! {

// ---------------------------------------------------------------------------
// Browser
// ---------------------------------------------------------------------------

/// The override that applies to an issue: the last one listed for its number.
pub open spec fn last_override(ovs: Seq<OverrideView>, number: u64) -> Option<OverrideView>
    decreases ovs.len(),
{
    if ovs.len() == 0 {
        None
    } else if ovs.last().number == number {
        Some(ovs.last())
    } else {
        last_override(ovs.drop_last(), number)
    }
}

/// An issue counts as open when its state is missing or reads `open` in any case.
pub open spec fn issue_is_open(i: IssueView) -> bool {
    match i.state {
        Some(s) => eq_ignore_ascii_case(s, "open"@),
        None => true,
    }
}

pub open spec fn open_pred() -> spec_fn(IssueView) -> bool {
    |i: IssueView| issue_is_open(i)
}

/// The open issues of a cache, in cache order.
pub open spec fn open_issues(c: CacheView) -> Seq<IssueView> {
    c.issues.filter(open_pred())
}

/// The override applying to issue `i` of cache `c`.
pub open spec fn override_of(c: CacheView, i: IssueView) -> Option<OverrideView> {
    last_override(c.local_overrides, i.number)
}

/// The ranking key of an issue of cache `c`.
pub open spec fn issue_key(c: CacheView, i: IssueView) -> RankKey {
    RankKey {
        rank: priority_rank_spec(issue_priority_spec(i, override_of(c, i))) as int,
        score: issue_priority_score_spec(i, override_of(c, i)),
        number: i.number as int,
    }
}

/// The ranking keys of the open issues of `c`.
pub open spec fn open_keys(c: CacheView) -> Seq<RankKey> {
    open_issues(c).map_values(|i: IssueView| issue_key(c, i))
}

/// The browser row of an open issue, before selection.
pub open spec fn issue_row(c: CacheView, i: IssueView) -> PreviewView {
    preview_spec(
        i,
        issue_priority_spec(i, override_of(c, i)),
        issue_priority_score_spec(i, override_of(c, i)),
        override_of(c, i),
    )
}

/// The row of the `j`-th open issue, as it stands in the browser.
pub open spec fn browser_row(c: CacheView, j: int) -> PreviewView {
    let row = issue_row(c, open_issues(c)[j]);
    PreviewView {
        state: if sort_pos(open_keys(c), j) == 0 {
            GitHubIssueVisualState::Selected
        } else {
            GitHubIssueVisualState::Idle
        },
        ..row
    }
}

/// The browser can be built from `c`: every open issue can be scored and rendered.
pub open spec fn browsable(c: CacheView) -> bool {
    forall|k: int|
        0 <= k < open_issues(c).len() ==> {
            &&& score_fits(
                #[trigger] open_issues(c)[k],
                override_of(c, open_issues(c)[k]),
            )
            &&& preview_defined(open_issues(c)[k])
        }
}

/// The filter label of a browser.
pub open spec fn filter_label_spec(c: CacheView) -> Seq<char> {
    "priority · open · cached "@ + match c.synced_at {
        Some(s) => s,
        None => "unsynced cache"@,
    }
}

fn override_for(ovs: &Vec<CachedGitHubIssueOverride>, number: u64) -> (r: Option<
    &CachedGitHubIssueOverride,
>)
    ensures
        match r {
            Some(o) => last_override(ovs@.map_values(|o: CachedGitHubIssueOverride| o@), number)
                == Some(o@),
            None => last_override(ovs@.map_values(|o: CachedGitHubIssueOverride| o@), number)
                is None,
        },
{
    let ghost all = ovs@.map_values(|o: CachedGitHubIssueOverride| o@);
    let mut i: usize = ovs.len();
    assert(all.take(i as int) == all);
    while i > 0
        invariant
            i <= ovs.len(),
            all == ovs@.map_values(|o: CachedGitHubIssueOverride| o@),
            last_override(all, number) == last_override(all.take(i as int), number),
        decreases i,
    {
        assert(all.take(i as int).drop_last() == all.take(i - 1));
        if ovs[i - 1].number == number {
            return Some(&ovs[i - 1]);
        }
        i = i - 1;
    }
    None
}

fn is_open_exec(issue: &CachedGitHubIssue) -> (r: bool)
    ensures
        r == issue_is_open(issue@),
{
    match &issue.state {
        Some(s) => {
            let cs = chars_of(s.as_str());
            let open = chars_of("open");
            eq_ignore_ascii_case_chars(cs.as_slice(), open.as_slice())
        },
        None => true,
    }
}

fn compact_ok_exec(line: &[char]) -> (r: bool)
    ensures
        r == compact_ok(line@),
{
    let ws = words_chars(line);
    let joined = join_chars(&ws, &[' ']);
    assert([' ']@ =~= seq![' ']);
    let len = utf8_len_prefix(joined.as_slice(), joined.len());
    assert(joined@.take(joined@.len() as int) == joined@);
    if len > 240 {
        byte_boundary_at(joined.as_slice(), 237)
    } else {
        true
    }
}

fn preview_ok_exec(text: &str, limit: usize) -> (r: bool)
    ensures
        r == preview_ok(text@, limit as nat),
{
    let kept = preview_candidate_lines(text, limit);
    let ghost cand = preview_candidates(text@, limit as nat);
    let mut i: usize = 0;
    while i < kept.len()
        invariant
            i <= kept.len(),
            views(kept@) == cand,
            cand == preview_candidates(text@, limit as nat),
            forall|k: int| 0 <= k < i ==> compact_ok(#[trigger] cand[k]),
        decreases kept.len() - i,
    {
        assert(cand[i as int] == kept@[i as int]@);
        if !compact_ok_exec(kept[i].as_slice()) {
            assert(!compact_ok(preview_candidates(text@, limit as nat)[i as int]));
            return false;
        }
        i = i + 1;
    }
    true
}

fn preview_defined_exec(issue: &CachedGitHubIssue) -> (r: bool)
    ensures
        r == preview_defined(issue@),
{
    let body_ok = match &issue.body {
        Some(b) => preview_ok_exec(b.as_str(), 10),
        None => preview_ok_exec("", 10),
    };
    proof {
        if issue.body is None {
            reveal_strlit("");
            assert(""@ =~= Seq::<char>::empty());
        }
    }
    if !body_ok {
        return false;
    }
    let n = issue.comments.len();
    let shown: usize = if n < 4 {
        n
    } else {
        4
    };
    let ghost recent = recent_comments(issue@.comments);
    let mut k: usize = 0;
    while k < shown
        invariant
            n == issue.comments.len(),
            shown == (if n < 4 { n } else { 4 }),
            k <= shown,
            recent == recent_comments(issue@.comments),
            forall|j: int| 0 <= j < k ==> compact_ok((#[trigger] recent[j]).body),
        decreases shown - k,
    {
        assert(recent[k as int] == issue.comments@[n - 1 - k]@);
        let body = chars_of(issue.comments[n - 1 - k].body.as_str());
        if !compact_ok_exec(body.as_slice()) {
            return false;
        }
        k = k + 1;
    }
    true
}

/// Whether `issue_browser_from_cache` can build the browser of `cache`: the
/// score of every open issue can be added up in `i32`, and no preview line
/// needs cutting inside a character.
pub fn issue_cache_is_browsable(cache: &GitHubIssueCache) -> (r: bool)
    ensures
        r == browsable(cache@),
{
    let ghost all = cache@.issues;
    let ghost open = open_issues(cache@);
    proof {
        broadcast use vstd::seq_lib::group_filter_ensures;
    }
    let mut i: usize = 0;
    while i < cache.issues.len()
        invariant
            i <= cache.issues.len(),
            all == cache@.issues,
            open == open_issues(cache@),
            forall|j: int|
                0 <= j < i && issue_is_open(#[trigger] all[j]) ==> score_fits(
                    all[j],
                    override_of(cache@, all[j]),
                ) && preview_defined(all[j]),
        decreases cache.issues.len() - i,
    {
        let issue = &cache.issues[i];
        assert(all[i as int] == issue@);
        if is_open_exec(issue) {
            let ov = override_for(&cache.local_overrides, issue.number);
            let fits = issue_priority_score_fits(issue, ov);
            if !fits || !preview_defined_exec(issue) {
                proof {
                    broadcast use vstd::seq_lib::group_filter_ensures;
                    assert(open.contains(all[i as int]));
                    let k = choose|k: int| 0 <= k < open.len() && open[k] == all[i as int];
                    assert(!score_fits(open[k], override_of(cache@, open[k])) || !preview_defined(
                        open[k],
                    ));
                }
                return false;
            }
        }
        i = i + 1;
    }
    proof {
        broadcast use vstd::seq_lib::group_filter_ensures;
        assert forall|k: int| 0 <= k < open.len() implies {
            &&& score_fits(#[trigger] open[k], override_of(cache@, open[k]))
            &&& preview_defined(open[k])
        } by {
            assert(open.contains(open[k]));
            assert(issue_is_open(open[k]));
            all.lemma_filter_contains_rev(open_pred(), open[k]);
            let j = choose|j: int| 0 <= j < all.len() && all[j] == open[k];
            assert(issue_is_open(all[j]));
        }
    }
    true
}

/// `issue_browser_from_cache`: the open issues of a cache, ranked by priority
/// rank, then score (highest first), then issue number (highest first), the
/// first row selected.
pub fn issue_browser_from_cache(cache: GitHubIssueCache) -> (r: GitHubIssueBrowserState)
    requires
        browsable(cache@),
    ensures
        r@.repo == cache@.repo,
        r@.filter_label == filter_label_spec(cache@),
        r@.selected == 0,
        r@.list_scroll == 0,
        r@.preview_scroll == 0,
        r@.issues.len() == open_issues(cache@).len(),
        forall|j: int|
            0 <= j < open_issues(cache@).len() ==> r@.issues[sort_pos(open_keys(cache@), j) as int]
                == browser_row(cache@, j),
{
    proof {
        reveal_strlit("priority · open · cached ");
        reveal_strlit("unsynced cache");
    }
    let ghost cv = cache@;
    let GitHubIssueCache { schema_version: _, repo, synced_at, issues, local_overrides } = cache;
    let ghost all = cv.issues;
    let ghost open = open_issues(cv);
    let n_all = issues.len();
    let mut rest = issues;
    let mut rows: Vec<GitHubIssuePreview> = Vec::new();
    let mut keys: Vec<(u8, i32, u64)> = Vec::new();
    let mut i: usize = 0;
    while i < n_all
        invariant
            n_all == all.len(),
            all == cv.issues,
            open == open_issues(cv),
            cv.local_overrides == local_overrides@.map_values(|o: CachedGitHubIssueOverride| o@),
            browsable(cv),
            i <= n_all,
            rest@.map_values(|x: CachedGitHubIssue| x@) == all.skip(i as int),
            rows.len() == keys.len(),
            rows.len() == all.take(i as int).filter(open_pred()).len(),
            all.take(i as int).filter(open_pred()).len() <= open.len(),
            open.take(rows.len() as int) == all.take(i as int).filter(open_pred()),
            forall|j: int| 0 <= j < rows.len() ==> #[trigger] rows@[j]@ == issue_row(cv, open[j]),
            key_views(keys@) == open_keys(cv).take(keys.len() as int),
        decreases n_all - i,
    {
        proof {
            reveal(Seq::filter);
            lemma_filter_prefix_gen(all, i as int, open_pred());
            lemma_filter_prefix_gen(all, i + 1, open_pred());
            assert(all.take(i + 1).drop_last() == all.take(i as int));
            assert(all.take(i + 1).last() == all[i as int]);
            assert(all.skip(i as int)[0] == all[i as int]);
        }
        assert(rest@.map_values(|x: CachedGitHubIssue| x@).len() == rest@.len());
        assert(rest@.map_values(|x: CachedGitHubIssue| x@)[0] == rest@[0]@);
        let ghost old_rest = rest@;
        let issue = rest.remove(0);
        assert(issue@ == all[i as int]);
        proof {
            assert(rest@ == old_rest.subrange(1, old_rest.len() as int));
            assert(old_rest.map_values(|x: CachedGitHubIssue| x@) == all.skip(i as int));
            assert forall|q: int| 0 <= q < rest@.len() implies #[trigger] rest@[q]@ == all.skip(i + 1)[q] by {
                assert(old_rest.map_values(|x: CachedGitHubIssue| x@)[q + 1] == old_rest[q + 1]@);
            }
            assert(rest@.map_values(|x: CachedGitHubIssue| x@) =~= all.skip(i + 1));
        }
        if is_open_exec(&issue) {
            let ghost k = rows.len() as int;
            proof {
                assert(all.take(i + 1).filter(open_pred()) == all.take(i as int).filter(open_pred()).push(all[i as int]));
                assert(open == all.filter(open_pred()));
                assert(open.take(k + 1) == all.take(i + 1).filter(open_pred()));
                assert(open.take(k + 1)[k] == all[i as int]);
                assert(open[k] == issue@);
                assert(browsable(cv) ==> score_fits(open[k], override_of(cv, open[k])));
            }
            let ov = override_for(&local_overrides, issue.number);
            let ghost ovv = match ov {
                Some(o) => Some(o@),
                None => None,
            };
            assert(ovv == override_of(cv, issue@));
            let priority = issue_priority(&issue, ov);
            let score = issue_priority_score(&issue, ov);
            let rank = priority_rank(priority.as_str());
            let number = issue.number;
            let row = cached_issue_to_preview(repo.as_str(), issue, priority, score, ov);
            let ghost before_keys = keys@;
            rows.push(row);
            keys.push((rank, score, number));
            proof {
                assert(key_views(keys@) =~= key_views(before_keys).push(issue_key(cv, open[k])));
                assert(open_keys(cv).take(k + 1) =~= open_keys(cv).take(k).push(issue_key(cv, open[k])));
            }
        } else {
            proof {
                assert(all.take(i + 1).filter(open_pred()) == all.take(i as int).filter(open_pred()));
            }
        }
        i = i + 1;
    }
    proof {
        assert(all.take(n_all as int) == all);
        assert(open.take(rows.len() as int) == open);
        assert(open_keys(cv).take(keys.len() as int) == open_keys(cv));
    }
    let ghost kv = key_views(keys@);
    let ghost rows_before = rows@;
    assert(kv == open_keys(cv));
    let mut ranked = crate::ranking::stable_rank(rows, &keys);
    let ghost ranked_before = ranked@;
    if ranked.len() > 0 {
        let mut first = ranked.remove(0);
        first.state = GitHubIssueVisualState::Selected;
        ranked.insert(0, first);
        assert(ranked@ == ranked_before.update(0, first));
    }
    proof {
        assert forall|j: int| 0 <= j < open.len() implies #[trigger] ranked@[sort_pos(kv, j) as int]@
            == browser_row(cv, j) by {
            crate::ranking::lemma_sort_pos_bound(kv, j);
            assert(rows_before[j]@ == issue_row(cv, open[j]));
            assert(ranked_before[sort_pos(kv, j) as int] == rows_before[j]);
            if sort_pos(kv, j) == 0 {
                assert(ranked@[0]@ == browser_row(cv, j));
            } else {
                assert(ranked@[sort_pos(kv, j) as int] == ranked_before[sort_pos(kv, j) as int]);
            }
        }
    }
    let prefix = chars_of("priority · open · cached ");
    let sync = match synced_at {
        Some(s) => chars_of(s.as_str()),
        None => chars_of("unsynced cache"),
    };
    let label = concat_chars(prefix.as_slice(), sync.as_slice());
    let r = GitHubIssueBrowserState {
        repo,
        filter_label: string_from_chars(label.as_slice()),
        selected: 0,
        list_scroll: 0,
        preview_scroll: 0,
        issues: ranked,
    };
    proof {
        assert forall|j: int| 0 <= j < open.len() implies r@.issues[sort_pos(open_keys(cv), j) as int]
            == browser_row(cv, j) by {
            crate::ranking::lemma_sort_pos_bound(kv, j);
            assert(r.issues@[sort_pos(kv, j) as int]@ == browser_row(cv, j));
        }
    }
    r
}

/// The browser lists every open issue exactly once, in rank order: of two
/// open issues, the one placed higher never has the lower-ranked key, and
/// issues with equal keys keep their cache order.
pub proof fn lemma_browser_order(c: CacheView, a: int, b: int)
    requires
        0 <= a < open_issues(c).len(),
        0 <= b < open_issues(c).len(),
        a != b,
    ensures
        sort_pos(open_keys(c), a) < open_issues(c).len(),
        sort_pos(open_keys(c), a) != sort_pos(open_keys(c), b),
        sort_pos(open_keys(c), a) < sort_pos(open_keys(c), b) ==> !key_lt(
            issue_key(c, open_issues(c)[b]),
            issue_key(c, open_issues(c)[a]),
        ),
        sort_pos(open_keys(c), a) < sort_pos(open_keys(c), b) && issue_key(c, open_issues(c)[a])
            == issue_key(c, open_issues(c)[b]) ==> a < b,
{
    lemma_sort_pos_distinct(open_keys(c), a, b);
    if sort_pos(open_keys(c), a) < sort_pos(open_keys(c), b) {
        lemma_sort_pos_ordered(open_keys(c), a, b);
    }
}

/// The browser orders by priority first: an open issue of priority `P0` is
/// listed above every open issue of another priority, and one of priority
/// `P1` above every open issue that is neither `P0` nor `P1`, whatever their
/// scores and numbers.
pub proof fn lemma_browser_priority_first(c: CacheView, a: int, b: int)
    requires
        0 <= a < open_issues(c).len(),
        0 <= b < open_issues(c).len(),
        ({
            let pa = issue_priority_spec(open_issues(c)[a], override_of(c, open_issues(c)[a]));
            let pb = issue_priority_spec(open_issues(c)[b], override_of(c, open_issues(c)[b]));
            ||| (pa == "P0"@ && pb != "P0"@)
            ||| (pa == "P1"@ && pb != "P0"@ && pb != "P1"@)
        }),
    ensures
        sort_pos(open_keys(c), a) < sort_pos(open_keys(c), b),
{
    reveal_strlit("P0");
    reveal_strlit("P1");
    assert("P0"@ != "P1"@) by {
        assert("P0"@[1] != "P1"@[1]);
    }
    let keys = open_keys(c);
    assert(keys[a] == issue_key(c, open_issues(c)[a]));
    assert(keys[b] == issue_key(c, open_issues(c)[b]));
    assert(keys[a].rank < keys[b].rank);
    assert(ranked_before(keys, a, b));
    lemma_count_before_strict(keys, a, b, keys.len() as int);
}

/// A local override with a recognised priority decides an issue's priority,
/// whatever its labels say.
pub proof fn lemma_override_priority_wins(issue: IssueView, ov: OverrideView)
    requires
        ov.priority is Some,
        normalize_priority_spec(ov.priority->0) is Some,
    ensures
        issue_priority_spec(issue, Some(ov)) == normalize_priority_spec(ov.priority->0)->0,
{
}


/// A prefix of a sequence keeps a prefix of its filtered items.
pub proof fn lemma_filter_prefix_gen<A>(s: Seq<A>, i: int, f: spec_fn(A) -> bool)
    requires
        0 <= i <= s.len(),
    ensures
        s.take(i).filter(f).len() <= s.filter(f).len(),
        s.filter(f).take(s.take(i).filter(f).len() as int) == s.take(i).filter(f),
    decreases s.len() - i,
{
    reveal(Seq::filter);
    if i == s.len() {
        assert(s.take(i) == s);
    } else {
        lemma_filter_prefix_gen(s.drop_last(), i, f);
        assert(s.drop_last().take(i) == s.take(i));
        let sub = s.drop_last().filter(f);
        if f(s.last()) {
            let n = s.take(i).filter(f).len() as int;
            assert(sub.push(s.last()).take(n) == sub.take(n));
        }
    }
}

} // verus!
