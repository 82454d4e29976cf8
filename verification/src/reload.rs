//! Hot-reload handoff: how the window placement travels to the replacement
//! process, which arguments the replacement gets, and when to reload.
use vstd::prelude::*;
use crate::args::has_arg;
use crate::process::{
    resume_from, role_arg_at, role_from, role_named, DesktopProcessRole, DesktopReloadStrategy,
    DesktopWorkerMode,
};
use crate::text::{
    chars_eq, chars_of, concat_chars, decimal, decimal_int, i64_decimal, lemma_decimal_digits,
    lemma_parse_signed_decimal, lemma_parse_unsigned_decimal, lemma_split_on_no_sep,
    lemma_split_on_prepend, parse_i32_chars, parse_signed, parse_unsigned, parse_unsigned_chars,
    split_chars, split_on, starts_with, starts_with_chars, string_from_chars, string_views, strip_prefix,
    u64_decimal,
};

verus! {

broadcast use vstd::string::group_string_axioms;

/// Largest window dimension restored across a reload.
pub const DESKTOP_RELOAD_MAX_RESTORED_DIMENSION: u32 = 32_768;

/// Environment variable carrying the window placement to the replacement process.
pub const DESKTOP_RELOAD_WINDOW_ENV: &'static str = "JCODE_DESKTOP_RELOAD_WINDOW";

/// Environment variable naming the file the replacement writes once ready.
pub const DESKTOP_RELOAD_HANDOFF_READY_ENV: &'static str = "JCODE_DESKTOP_RELOAD_READY_FILE";

/// Environment variable naming the file the old process writes to release the replacement.
pub const DESKTOP_RELOAD_HANDOFF_RELEASE_ENV: &'static str = "JCODE_DESKTOP_RELOAD_RELEASE_FILE";

/// How long the old process waits for the replacement to become ready, in milliseconds.
pub const DESKTOP_RELOAD_HANDOFF_TIMEOUT_MS: u64 = 8_000;

/// Poll interval while a handoff or an app worker is pending, in milliseconds.
pub const DESKTOP_RELOAD_HANDOFF_POLL_INTERVAL_MS: u64 = 25;

/// Interval between checks of the binary's modification time, in milliseconds.
pub const DESKTOP_RELOAD_CHECK_INTERVAL_MS: u64 = 750;

/// Outer window position in physical pixels.
#[derive(Clone, Copy, Debug, PartialEq, Eq, Structural)]
pub struct WindowPosition {
    pub x: i32,
    pub y: i32,
}

/// Inner window size in physical pixels.
#[derive(Clone, Copy, Debug, PartialEq, Eq, Structural)]
pub struct WindowSize {
    pub width: u32,
    pub height: u32,
}

/// Where the reloaded window should appear.
#[derive(Clone, Copy, Debug, PartialEq, Eq, Structural)]
pub struct DesktopReloadWindowPlacement {
    pub position: Option<WindowPosition>,
    pub inner_size: WindowSize,
}

/// Both dimensions are within `1..=DESKTOP_RELOAD_MAX_RESTORED_DIMENSION`.
pub open spec fn size_valid(size: WindowSize) -> bool {
    1 <= size.width <= DESKTOP_RELOAD_MAX_RESTORED_DIMENSION && 1 <= size.height
        <= DESKTOP_RELOAD_MAX_RESTORED_DIMENSION
}

/// `desktop_reload_window_size_is_valid`.
pub fn desktop_reload_window_size_is_valid(size: WindowSize) -> (r: bool)
    ensures
        r == size_valid(size),
{
    1 <= size.width && size.width <= DESKTOP_RELOAD_MAX_RESTORED_DIMENSION && 1 <= size.height
        && size.height <= DESKTOP_RELOAD_MAX_RESTORED_DIMENSION
}

/// The text of a position coordinate, `_` when the position is unknown.
pub open spec fn coord_text(p: Option<WindowPosition>, first: bool) -> Seq<char> {
    match p {
        Some(pos) => decimal_int(if first { pos.x as int } else { pos.y as int }),
        None => seq!['_'],
    }
}

/// `to_env_value`: `x,y,width,height`, with `_,_` for an unknown position.
pub open spec fn env_value_spec(p: DesktopReloadWindowPlacement) -> Seq<char> {
    coord_text(p.position, true) + seq![','] + coord_text(p.position, false) + seq![','] + decimal(
        p.inner_size.width as nat,
    ) + seq![','] + decimal(p.inner_size.height as nat)
}

/// The position part of an environment value.
pub open spec fn position_of_parts(a: Seq<char>, b: Seq<char>) -> Option<Option<WindowPosition>> {
    if a == seq!['_'] && b == seq!['_'] {
        Some(None)
    } else {
        match (parse_signed(a, i32::MIN as int, i32::MAX as int), parse_signed(b, i32::MIN as int, i32::MAX as int)) {
            (Some(x), Some(y)) => Some(Some(WindowPosition { x: x as i32, y: y as i32 })),
            _ => None,
        }
    }
}

/// `from_env_value`: the placement an environment value describes, if it is
/// well formed and the size is valid.
pub open spec fn placement_of_env(raw: Seq<char>) -> Option<DesktopReloadWindowPlacement> {
    let parts = split_on(raw, ',');
    if parts.len() != 4 {
        None
    } else {
        match (
            position_of_parts(parts[0], parts[1]),
            parse_unsigned(parts[2], u32::MAX as nat),
            parse_unsigned(parts[3], u32::MAX as nat),
        ) {
            (Some(position), Some(w), Some(h)) => {
                let size = WindowSize { width: w as u32, height: h as u32 };
                if size_valid(size) {
                    Some(DesktopReloadWindowPlacement { position, inner_size: size })
                } else {
                    None
                }
            },
            _ => None,
        }
    }
}

impl DesktopReloadWindowPlacement {
    /// `from_window`: the placement of a window whose inner size and outer
    /// position (when the platform reports one) were read; none when the size
    /// could not be restored.
    pub fn from_window(inner_size: WindowSize, outer_position: Option<WindowPosition>) -> (r:
        Option<Self>)
        ensures
            r == (if size_valid(inner_size) {
                Some(DesktopReloadWindowPlacement { position: outer_position, inner_size })
            } else {
                None
            }),
    {
        if !desktop_reload_window_size_is_valid(inner_size) {
            return None;
        }
        Some(DesktopReloadWindowPlacement { position: outer_position, inner_size })
    }

    /// `from_env_value`.
    pub fn from_env_value(raw: &str) -> (r: Option<Self>)
        ensures
            r == placement_of_env(raw@),
    {
        let cs = chars_of(raw);
        let parts = split_chars(cs.as_slice(), ',');
        if parts.len() != 4 {
            return None;
        }
        let a = parts[0].as_slice();
        let b = parts[1].as_slice();
        let position: Option<WindowPosition> = if chars_eq(a, &['_']) && chars_eq(b, &['_']) {
            assert(['_']@ =~= seq!['_']);
            None
        } else {
            assert(['_']@ =~= seq!['_']);
            match (parse_i32_chars(a), parse_i32_chars(b)) {
                (Some(x), Some(y)) => Some(WindowPosition { x, y }),
                _ => {
                    return None;
                },
            }
        };
        let w = match parse_unsigned_chars(parts[2].as_slice(), u32::MAX as u64) {
            Some(w) => w as u32,
            None => {
                return None;
            },
        };
        let h = match parse_unsigned_chars(parts[3].as_slice(), u32::MAX as u64) {
            Some(h) => h as u32,
            None => {
                return None;
            },
        };
        let size = WindowSize { width: w, height: h };
        if !desktop_reload_window_size_is_valid(size) {
            return None;
        }
        Some(DesktopReloadWindowPlacement { position, inner_size: size })
    }

    /// `to_env_value`.
    pub fn to_env_value(self) -> (r: String)
        ensures
            r@ == env_value_spec(self),
    {
        let (x, y) = match self.position {
            Some(p) => (i64_decimal(p.x as i64), i64_decimal(p.y as i64)),
            None => {
                let mut u1: Vec<char> = Vec::new();
                u1.push('_');
                let mut u2: Vec<char> = Vec::new();
                u2.push('_');
                assert(u1@ =~= seq!['_']);
                assert(u2@ =~= seq!['_']);
                (u1, u2)
            },
        };
        let w = u64_decimal(self.inner_size.width as u64);
        let h = u64_decimal(self.inner_size.height as u64);
        let s1 = concat_chars(x.as_slice(), &[',']);
        let s2 = concat_chars(s1.as_slice(), y.as_slice());
        let s3 = concat_chars(s2.as_slice(), &[',']);
        let s4 = concat_chars(s3.as_slice(), w.as_slice());
        let s5 = concat_chars(s4.as_slice(), &[',']);
        let s6 = concat_chars(s5.as_slice(), h.as_slice());
        assert([',']@ =~= seq![',']);
        string_from_chars(s6.as_slice())
    }
}

/// The environment value of a placement with a restorable size reads back as
/// the same placement.
#[verifier::spinoff_prover]
#[verifier::rlimit(60)]
pub proof fn lemma_placement_env_round_trip(p: DesktopReloadWindowPlacement)
    requires
        size_valid(p.inner_size),
    ensures
        placement_of_env(env_value_spec(p)) == Some(p),
{
    let a = coord_text(p.position, true);
    let b = coord_text(p.position, false);
    let c = decimal(p.inner_size.width as nat);
    let d = decimal(p.inner_size.height as nat);
    lemma_decimal_digits(p.inner_size.width as nat);
    lemma_decimal_digits(p.inner_size.height as nat);
    lemma_parse_unsigned_decimal(p.inner_size.width as nat, u32::MAX as nat);
    lemma_parse_unsigned_decimal(p.inner_size.height as nat, u32::MAX as nat);
    match p.position {
        Some(pos) => {
            lemma_parse_signed_decimal(pos.x as int, i32::MIN as int, i32::MAX as int);
            lemma_parse_signed_decimal(pos.y as int, i32::MIN as int, i32::MAX as int);
            assert(a != seq!['_']) by {
                if a == seq!['_'] {
                    lemma_decimal_digits(pos.x as nat);
                    assert(a[0] == '_');
                    if pos.x < 0 {
                        assert(a[0] == '-');
                    } else {
                        lemma_decimal_digits(pos.x as nat);
                        assert(crate::text::is_digit(a[0]));
                    }
                }
            }
        },
        None => {
            assert(!seq!['_'].contains(',')) by {
                if seq!['_'].contains(',') {
                    let k = choose|k: int| 0 <= k < 1 && seq!['_'][k] == ',';
                }
            }
        },
    }
    assert(!a.contains(','));
    assert(!b.contains(','));
    lemma_split_on_no_sep(d, ',');
    lemma_split_on_prepend(c, d, ',');
    lemma_split_on_prepend(b, c + seq![','] + d, ',');
    lemma_split_on_prepend(a, b + seq![','] + c + seq![','] + d, ',');
    assert(env_value_spec(p) =~= a + seq![','] + (b + seq![','] + c + seq![','] + d));
    assert(b + seq![','] + (c + seq![','] + d) =~= b + seq![','] + c + seq![','] + d);
    let parts = split_on(env_value_spec(p), ',');
    assert(parts =~= seq![a, b, c, d]);
}

} // verus!

verus! {

/// Marker files a reload handoff uses.
#[derive(Clone, Debug)]
pub struct DesktopReloadStartupHandoff {
    pub ready_file: String,
    pub release_file: String,
}

/// What a freshly started process learns from a reload handoff.
#[derive(Clone, Debug)]
pub struct DesktopReloadStartup {
    pub window_placement: Option<DesktopReloadWindowPlacement>,
    pub handoff: Option<DesktopReloadStartupHandoff>,
}

/// A warning raised while reading the reload environment.
#[derive(Clone, Copy, Debug, PartialEq, Eq, Structural)]
pub enum DesktopReloadStartupWarning {
    InvalidWindowPlacement,
    IncompleteHandoff,
}

impl DesktopReloadStartup {
    /// The startup state for the raw values of the three reload environment
    /// variables, with the warnings to log.
    pub fn from_env_values(
        raw_window_placement: Option<String>,
        ready_file: Option<String>,
        release_file: Option<String>,
    ) -> (r: (Self, Vec<DesktopReloadStartupWarning>))
        ensures
            r.0.window_placement == (match raw_window_placement {
                Some(raw) => placement_of_env(raw@),
                None => None,
            }),
            (r.0.handoff is Some) == (ready_file is Some && release_file is Some),
            r.0.handoff matches Some(h) ==> h.ready_file == ready_file->0 && h.release_file
                == release_file->0,
            r.1@ == (if raw_window_placement is Some && placement_of_env(raw_window_placement->0@)
                is None {
                seq![DesktopReloadStartupWarning::InvalidWindowPlacement]
            } else {
                Seq::empty()
            }) + (if (ready_file is Some) != (release_file is Some) {
                seq![DesktopReloadStartupWarning::IncompleteHandoff]
            } else {
                Seq::empty()
            }),
    {
        let mut warnings: Vec<DesktopReloadStartupWarning> = Vec::new();
        let window_placement = match &raw_window_placement {
            Some(raw) => {
                let placement = DesktopReloadWindowPlacement::from_env_value(raw.as_str());
                if placement.is_none() {
                    warnings.push(DesktopReloadStartupWarning::InvalidWindowPlacement);
                }
                placement
            },
            None => None,
        };
        let ghost first = warnings@;
        let handoff = match (ready_file, release_file) {
            (Some(ready_file), Some(release_file)) => Some(
                DesktopReloadStartupHandoff { ready_file, release_file },
            ),
            (None, None) => None,
            _ => {
                warnings.push(DesktopReloadStartupWarning::IncompleteHandoff);
                None
            },
        };
        assert(warnings@ =~= first + (if (ready_file is Some) != (release_file is Some) {
            seq![DesktopReloadStartupWarning::IncompleteHandoff]
        } else {
            Seq::empty()
        }));
        (DesktopReloadStartup { window_placement, handoff }, warnings)
    }

    /// The window stays hidden until the old process releases the handoff.
    pub fn hidden_until_handoff_release(&self) -> (r: bool)
        ensures
            r == self.handoff is Some,
    {
        self.handoff.is_some()
    }
}

/// How long a replacement waits for the old process to release the handoff.
pub const DESKTOP_RELOAD_STARTUP_RELEASE_TIMEOUT_MS: u64 = 3_000;

/// Where a replacement's wait for the release stands.
#[derive(Clone, Copy, Debug, PartialEq, Eq, Structural)]
pub enum DesktopReloadReleaseWait {
    /// The old process released the window: clean up the marker files and show it.
    Released,
    /// Poll again after the poll interval.
    Waiting,
    /// The old process never released it: show the window anyway.
    GaveUp,
}

impl DesktopReloadStartupHandoff {
    /// One step of `signal_ready_and_wait_for_release` after the ready marker
    /// was written, `waited_ms` into the wait: the deadline is checked before
    /// the release marker.
    pub fn release_wait_step(&self, release_file_exists: bool, waited_ms: u64) -> (r:
        DesktopReloadReleaseWait)
        ensures
            r == (if waited_ms >= DESKTOP_RELOAD_STARTUP_RELEASE_TIMEOUT_MS {
                DesktopReloadReleaseWait::GaveUp
            } else if release_file_exists {
                DesktopReloadReleaseWait::Released
            } else {
                DesktopReloadReleaseWait::Waiting
            }),
    {
        if waited_ms >= DESKTOP_RELOAD_STARTUP_RELEASE_TIMEOUT_MS {
            DesktopReloadReleaseWait::GaveUp
        } else if release_file_exists {
            DesktopReloadReleaseWait::Released
        } else {
            DesktopReloadReleaseWait::Waiting
        }
    }
}

/// A pending handoff, from the old process's side.
#[derive(Clone, Debug)]
pub struct DesktopReloadHandoff {
    pub ready_file: String,
    pub release_file: String,
    pub window_placement: Option<DesktopReloadWindowPlacement>,
}

/// Watches a spawned replacement until it is ready or times out.
#[derive(Clone, Debug)]
pub struct DesktopReloadHandoffWatcher {
    pub ready_file: String,
    pub release_file: String,
    pub spawned_at_ms: u64,
}

/// Where a handoff stands.
#[derive(Clone, Copy, Debug, PartialEq, Eq, Structural)]
pub enum DesktopReloadHandoffPoll {
    Waiting,
    Ready,
    TimedOut,
}

/// The environment a replacement process is given for a handoff.
pub open spec fn handoff_env_spec(h: DesktopReloadHandoff) -> Seq<(Seq<char>, Seq<char>)> {
    (match h.window_placement {
        Some(p) => seq![(DESKTOP_RELOAD_WINDOW_ENV@, env_value_spec(p))],
        None => Seq::empty(),
    }) + seq![
        (DESKTOP_RELOAD_HANDOFF_READY_ENV@, h.ready_file@),
        (DESKTOP_RELOAD_HANDOFF_RELEASE_ENV@, h.release_file@),
    ]
}

/// Views of environment assignments.
pub open spec fn env_views(v: Seq<(String, String)>) -> Seq<(Seq<char>, Seq<char>)> {
    v.map_values(|p: (String, String)| (p.0@, p.1@))
}

impl DesktopReloadHandoff {
    /// `apply_to_command`: appends to a command's environment the placement
    /// (when known) and the two marker files.
    pub fn apply_to_command(&self, command_env: &mut Vec<(String, String)>)
        ensures
            env_views(final(command_env)@) == env_views(old(command_env)@) + handoff_env_spec(*self),
    {
        let ghost start = command_env@;
        if let Some(placement) = self.window_placement {
            command_env.push((DESKTOP_RELOAD_WINDOW_ENV.to_string(), placement.to_env_value()));
        }
        let ghost mid = command_env@;
        command_env.push((DESKTOP_RELOAD_HANDOFF_READY_ENV.to_string(), self.ready_file.clone()));
        command_env.push(
            (DESKTOP_RELOAD_HANDOFF_RELEASE_ENV.to_string(), self.release_file.clone()),
        );
        assert(env_views(command_env@) =~= env_views(start) + handoff_env_spec(*self));
    }

    /// A watcher for this handoff, started at `now_ms`.
    pub fn watcher(&self, now_ms: u64) -> (r: DesktopReloadHandoffWatcher)
        ensures
            r.ready_file == self.ready_file,
            r.release_file == self.release_file,
            r.spawned_at_ms == now_ms,
    {
        DesktopReloadHandoffWatcher {
            ready_file: self.ready_file.clone(),
            release_file: self.release_file.clone(),
            spawned_at_ms: now_ms,
        }
    }
}

impl DesktopReloadHandoffWatcher {
    /// `poll`: ready once the ready file exists (the caller then writes the
    /// release file), timed out after the handoff timeout, waiting before that.
    pub fn poll(&self, ready_file_exists: bool, now_ms: u64) -> (r: DesktopReloadHandoffPoll)
        ensures
            r == (if ready_file_exists {
                DesktopReloadHandoffPoll::Ready
            } else if now_ms >= self.spawned_at_ms && now_ms - self.spawned_at_ms
                >= DESKTOP_RELOAD_HANDOFF_TIMEOUT_MS {
                DesktopReloadHandoffPoll::TimedOut
            } else {
                DesktopReloadHandoffPoll::Waiting
            }),
    {
        if ready_file_exists {
            return DesktopReloadHandoffPoll::Ready;
        }
        if now_ms >= self.spawned_at_ms && now_ms - self.spawned_at_ms
            >= DESKTOP_RELOAD_HANDOFF_TIMEOUT_MS {
            return DesktopReloadHandoffPoll::TimedOut;
        }
        DesktopReloadHandoffPoll::Waiting
    }
}

} // verus!

verus! {

fn eq_lit(s: &[char], lit: &str) -> (r: bool)
    ensures
        r == (s@ == lit@),
{
    let l = chars_of(lit);
    chars_eq(s, l.as_slice())
}

fn starts_with_lit(s: &[char], lit: &str) -> (r: bool)
    ensures
        r == starts_with(s@, lit@),
{
    let l = chars_of(lit);
    starts_with_chars(s, l.as_slice())
}

/// The arguments from `i` on without `--resume ID` and `--resume=ID`.
pub open spec fn without_resume_from(args: Seq<Seq<char>>, i: int) -> Seq<Seq<char>>
    decreases args.len() - i,
{
    if i < 0 || i >= args.len() {
        Seq::empty()
    } else if args[i] == "--resume"@ {
        without_resume_from(args, if i + 2 <= args.len() { i + 2 } else { args.len() as int })
    } else if starts_with(args[i], "--resume="@) {
        without_resume_from(args, i + 1)
    } else {
        seq![args[i]] + without_resume_from(args, i + 1)
    }
}

/// The arguments from `i` on without any process-role flag.
pub open spec fn without_role_from(args: Seq<Seq<char>>, i: int) -> Seq<Seq<char>>
    decreases args.len() - i,
{
    if i < 0 || i >= args.len() {
        Seq::empty()
    } else if args[i] == "--desktop-process-role"@ {
        without_role_from(args, if i + 2 <= args.len() { i + 2 } else { args.len() as int })
    } else if args[i] == "--desktop-host"@ || args[i] == "--desktop-app-worker"@ || starts_with(
        args[i],
        "--desktop-process-role="@,
    ) {
        without_role_from(args, i + 1)
    } else {
        seq![args[i]] + without_role_from(args, i + 1)
    }
}

/// `desktop_args_without_resume`: the arguments without the session to resume.
pub fn desktop_args_without_resume(args: &[String]) -> (r: Vec<String>)
    ensures
        string_views(r@) == without_resume_from(string_views(args@), 0),
{
    let ghost sv = string_views(args@);
    let mut out: Vec<String> = Vec::new();
    let mut i: usize = 0;
    while i < args.len()
        invariant
            i <= args.len(),
            sv == string_views(args@),
            string_views(out@) + without_resume_from(sv, i as int) == without_resume_from(sv, 0),
        decreases args.len() - i,
    {
        let a = chars_of(args[i].as_str());
        assert(sv[i as int] == a@);
        if eq_lit(a.as_slice(), "--resume") {
            i = if i + 1 < args.len() {
                i + 2
            } else {
                args.len()
            };
        } else if starts_with_lit(a.as_slice(), "--resume=") {
            i = i + 1;
        } else {
            let ghost before = out@;
            out.push(args[i].clone());
            assert(string_views(out@) =~= string_views(before) + seq![sv[i as int]]);
            assert(string_views(out@) + without_resume_from(sv, i + 1) =~= string_views(before)
                + without_resume_from(sv, i as int));
            i = i + 1;
        }
    }
    assert(string_views(out@) =~= string_views(out@) + without_resume_from(sv, i as int));
    out
}

/// `desktop_args_without_process_role`: the arguments without any
/// `--desktop-process-role`, `--desktop-host` or `--desktop-app-worker` flag.
pub fn desktop_args_without_process_role(args: &[String]) -> (r: Vec<String>)
    ensures
        string_views(r@) == without_role_from(string_views(args@), 0),
{
    let ghost sv = string_views(args@);
    let mut out: Vec<String> = Vec::new();
    let mut i: usize = 0;
    while i < args.len()
        invariant
            i <= args.len(),
            sv == string_views(args@),
            string_views(out@) + without_role_from(sv, i as int) == without_role_from(sv, 0),
        decreases args.len() - i,
    {
        let a = chars_of(args[i].as_str());
        assert(sv[i as int] == a@);
        if eq_lit(a.as_slice(), "--desktop-process-role") {
            i = if i + 1 < args.len() {
                i + 2
            } else {
                args.len()
            };
        } else if eq_lit(a.as_slice(), "--desktop-host") || eq_lit(a.as_slice(), "--desktop-app-worker")
            || starts_with_lit(a.as_slice(), "--desktop-process-role=") {
            i = i + 1;
        } else {
            let ghost before = out@;
            out.push(args[i].clone());
            assert(string_views(out@) =~= string_views(before) + seq![sv[i as int]]);
            assert(string_views(out@) + without_role_from(sv, i + 1) =~= string_views(before)
                + without_role_from(sv, i as int));
            i = i + 1;
        }
    }
    assert(string_views(out@) =~= string_views(out@) + without_role_from(sv, i as int));
    out
}

/// An argument that already picks what the desktop opens.
pub open spec fn is_mode_arg(a: Seq<char>) -> bool {
    a == "--workspace"@ || a == "--new"@ || a == "--resume"@ || starts_with(a, "--resume="@)
        || starts_with(a, "jcode://"@)
}

/// `ensure_desktop_workspace_arg`: appends `--workspace` unless an argument
/// already picks what to open.
pub fn ensure_desktop_workspace_arg(args: &mut Vec<String>)
    ensures
        string_views(final(args)@) == if exists|i: int|
            0 <= i < old(args)@.len() && is_mode_arg(#[trigger] string_views(old(args)@)[i]) {
            string_views(old(args)@)
        } else {
            string_views(old(args)@).push("--workspace"@)
        },
{
    let ghost sv = string_views(args@);
    let mut i: usize = 0;
    let mut found = false;
    while i < args.len()
        invariant
            i <= args.len(),
            sv == string_views(args@),
            !found,
            forall|j: int| 0 <= j < i ==> !is_mode_arg(#[trigger] sv[j]),
        decreases args.len() - i,
    {
        let a = chars_of(args[i].as_str());
        assert(sv[i as int] == a@);
        if eq_lit(a.as_slice(), "--workspace") || eq_lit(a.as_slice(), "--new") || eq_lit(
            a.as_slice(),
            "--resume",
        ) || starts_with_lit(a.as_slice(), "--resume=") || starts_with_lit(a.as_slice(), "jcode://") {
            return;
        }
        i = i + 1;
    }
    let ghost before = args@;
    args.push("--workspace".to_string());
    assert(string_views(args@) =~= string_views(before).push("--workspace"@));
}

/// How to start the desktop binary again.
#[derive(Clone, Debug)]
pub struct DesktopRelaunch {
    pub binary: String,
    pub args: Vec<String>,
}

impl DesktopRelaunch {
    /// The relaunch for an app worker: the same binary, role flags replaced by
    /// `--desktop-process-role app-worker`.
    pub fn for_app_worker(&self) -> (r: Self)
        ensures
            r.binary == self.binary,
            string_views(r.args@) == without_role_from(string_views(self.args@), 0) + seq![
                "--desktop-process-role"@,
                "app-worker"@,
            ],
    {
        let mut args = desktop_args_without_process_role(self.args.as_slice());
        let ghost before = args@;
        args.push("--desktop-process-role".to_string());
        args.push("app-worker".to_string());
        assert(string_views(args@) =~= string_views(before) + seq![
            "--desktop-process-role"@,
            "app-worker"@,
        ]);
        DesktopRelaunch { binary: self.binary.clone(), args }
    }

    /// The relaunch that reopens what the app shows: the workspace, or the live
    /// single session (`--resume ID`), started from `binary`.
    pub fn for_app(&self, mode: DesktopWorkerMode, live_session_id: Option<String>, binary: String) -> (r:
        Self)
        ensures
            r.binary == binary,
            ({
                let base = without_resume_from(string_views(self.args@), 0);
                string_views(r.args@) == match mode {
                    DesktopWorkerMode::Workspace => if exists|i: int|
                        0 <= i < base.len() && is_mode_arg(#[trigger] base[i]) {
                        base
                    } else {
                        base.push("--workspace"@)
                    },
                    DesktopWorkerMode::SingleSession => match live_session_id {
                        Some(id) => base + seq!["--resume"@, id@],
                        None => base,
                    },
                }
            }),
    {
        let mut args = desktop_args_without_resume(self.args.as_slice());
        match mode {
            DesktopWorkerMode::Workspace => {
                ensure_desktop_workspace_arg(&mut args);
            },
            DesktopWorkerMode::SingleSession => {
                if let Some(id) = live_session_id {
                    let ghost before = args@;
                    let ghost idv = id@;
                    args.push("--resume".to_string());
                    args.push(id);
                    assert(string_views(args@) =~= string_views(before) + seq!["--resume"@, idv]);
                }
            },
        }
        DesktopRelaunch { binary, args }
    }
}

} // verus!

verus! {

/// `binary_is_newer_than` on the two modification times (nanoseconds since
/// the epoch, `None` when unreadable): a readable candidate is newer than an
/// unreadable baseline.
pub fn binary_is_newer_than(candidate_modified: Option<u128>, baseline_modified: Option<u128>) -> (r:
    bool)
    ensures
        r == match (candidate_modified, baseline_modified) {
            (Some(c), Some(b)) => c > b,
            (Some(_), None) => true,
            (None, _) => false,
        },
{
    let candidate = match candidate_modified {
        Some(c) => c,
        None => {
            return false;
        },
    };
    match baseline_modified {
        Some(b) => candidate > b,
        None => true,
    }
}

/// `paths_refer_to_same_file`: equal paths, or equal canonical forms when
/// both could be canonicalised.
pub fn paths_refer_to_same_file(
    left: &str,
    right: &str,
    left_canonical: Option<String>,
    right_canonical: Option<String>,
) -> (r: bool)
    ensures
        r == (left@ == right@ || (left_canonical is Some && right_canonical is Some
            && left_canonical->0@ == right_canonical->0@)),
{
    let l = chars_of(left);
    let rr = chars_of(right);
    if chars_eq(l.as_slice(), rr.as_slice()) {
        return true;
    }
    match (left_canonical, right_canonical) {
        (Some(a), Some(b)) => a == b,
        _ => false,
    }
}

/// `desktop_binary_name`: the file name of the desktop binary on the target.
pub fn desktop_binary_name(target_is_windows: bool) -> (r: &'static str)
    ensures
        r@ == (if target_is_windows { "jcode-desktop.exe"@ } else { "jcode-desktop"@ }),
{
    if target_is_windows {
        "jcode-desktop.exe"
    } else {
        "jcode-desktop"
    }
}

/// `Path::join` of a relative component onto a directory.
pub open spec fn path_join(dir: Seq<char>, name: Seq<char>) -> Seq<char> {
    if dir.len() == 0 {
        name
    } else if dir.last() == '/' {
        dir + name
    } else {
        dir + seq!['/'] + name
    }
}

pub(crate) fn path_join_chars(dir: &[char], name: &[char]) -> (r: Vec<char>)
    ensures
        r@ == path_join(dir@, name@),
{
    if dir.len() == 0 {
        concat_chars(&[], name)
    } else if dir[dir.len() - 1] == '/' {
        concat_chars(dir, name)
    } else {
        let with_slash = concat_chars(dir, &['/']);
        assert(['/']@ =~= seq!['/']);
        concat_chars(with_slash.as_slice(), name)
    }
}

/// `desktop_selfdev_binary_path`: `<repo>/target/selfdev/<binary>`.
pub fn desktop_selfdev_binary_path(repo_dir: &str, target_is_windows: bool) -> (r: String)
    ensures
        r@ == path_join(
            path_join(path_join(repo_dir@, "target"@), "selfdev"@),
            if target_is_windows { "jcode-desktop.exe"@ } else { "jcode-desktop"@ },
        ),
{
    let d = chars_of(repo_dir);
    let t = chars_of("target");
    let s = chars_of("selfdev");
    let b = chars_of(desktop_binary_name(target_is_windows));
    let p1 = path_join_chars(d.as_slice(), t.as_slice());
    let p2 = path_join_chars(p1.as_slice(), s.as_slice());
    let p3 = path_join_chars(p2.as_slice(), b.as_slice());
    string_from_chars(p3.as_slice())
}

/// `desktop_reload_binary_candidate_from`: reload into the self-dev build when
/// it is the running binary or newer than it, else into the running binary.
pub fn desktop_reload_binary_candidate_from(
    invoked_binary: &str,
    selfdev_binary: &str,
    selfdev_is_invoked_binary: bool,
    selfdev_is_newer: bool,
) -> (r: String)
    ensures
        r@ == (if selfdev_is_invoked_binary || selfdev_is_newer {
            selfdev_binary@
        } else {
            invoked_binary@
        }),
{
    if selfdev_is_invoked_binary || selfdev_is_newer {
        selfdev_binary.to_string()
    } else {
        invoked_binary.to_string()
    }
}

/// The timing state of the hot reloader.
#[derive(Clone, Copy, Debug)]
pub struct DesktopHotReloadTimer {
    pub can_relaunch: bool,
    pub strategy: DesktopReloadStrategy,
    pub observed_modified: Option<u128>,
    pub last_checked_ms: u64,
    pub pending_handoff: bool,
    pub app_worker_running: bool,
}

impl DesktopHotReloadTimer {
    /// `next_wake`: poll soon while a handoff or app worker is pending, else at
    /// the next binary check (not before now); never when it cannot relaunch.
    pub fn next_wake(&self, now_ms: u64) -> (r: Option<u64>)
        requires
            now_ms <= u64::MAX - DESKTOP_RELOAD_HANDOFF_POLL_INTERVAL_MS,
            self.last_checked_ms <= u64::MAX - DESKTOP_RELOAD_CHECK_INTERVAL_MS,
        ensures
            r == if self.pending_handoff || self.app_worker_running {
                Some((now_ms + DESKTOP_RELOAD_HANDOFF_POLL_INTERVAL_MS) as u64)
            } else if !self.can_relaunch {
                None
            } else if now_ms > self.last_checked_ms + DESKTOP_RELOAD_CHECK_INTERVAL_MS {
                Some(now_ms)
            } else {
                Some((self.last_checked_ms + DESKTOP_RELOAD_CHECK_INTERVAL_MS) as u64)
            },
    {
        if self.pending_handoff {
            return Some(now_ms + DESKTOP_RELOAD_HANDOFF_POLL_INTERVAL_MS);
        }
        if self.app_worker_running {
            return Some(now_ms + DESKTOP_RELOAD_HANDOFF_POLL_INTERVAL_MS);
        }
        if !self.can_relaunch {
            return None;
        }
        let due = self.last_checked_ms + DESKTOP_RELOAD_CHECK_INTERVAL_MS;
        if now_ms > due {
            Some(now_ms)
        } else {
            Some(due)
        }
    }

    /// The binary check of `poll`, run when no handoff is pending: at most once
    /// per check interval; `current_modified` is the candidate binary's
    /// modification time read at `now_ms`. Reloads when it moved forward.
    pub fn observe_binary(&mut self, now_ms: u64, current_modified: Option<u128>) -> (r: bool)
        requires
            !old(self).pending_handoff,
        ensures
            ({
                let due = now_ms >= old(self).last_checked_ms && now_ms - old(self).last_checked_ms
                    >= DESKTOP_RELOAD_CHECK_INTERVAL_MS;
                if !due {
                    *final(self) == *old(self) && !r
                } else if !old(self).can_relaunch || current_modified is None {
                    *final(self) == (DesktopHotReloadTimer { last_checked_ms: now_ms, ..*old(self) })
                        && !r
                } else {
                    *final(self) == (DesktopHotReloadTimer {
                        last_checked_ms: now_ms,
                        observed_modified: current_modified,
                        ..*old(self)
                    }) && r == (old(self).observed_modified is Some && current_modified->0
                        > old(self).observed_modified->0)
                }
            }),
    {
        if !(now_ms >= self.last_checked_ms && now_ms - self.last_checked_ms
            >= DESKTOP_RELOAD_CHECK_INTERVAL_MS) {
            return false;
        }
        self.last_checked_ms = now_ms;
        if !self.can_relaunch {
            return false;
        }
        let current = match current_modified {
            Some(c) => c,
            None => {
                return false;
            },
        };
        let observed = self.observed_modified;
        self.observed_modified = Some(current);
        match observed {
            Some(o) => current > o,
            None => false,
        }
    }
}

// ---------------------------------------------------------------------------
// What a relaunched process makes of its arguments
// ---------------------------------------------------------------------------

/// An argument that picks the process role.
pub open spec fn is_role_flag(a: Seq<char>) -> bool {
    starts_with(a, "--desktop-process-role="@) || a == "--desktop-process-role"@ || a
        == "--desktop-host"@ || a == "--desktop-app-worker"@
}

/// An argument that names a session to resume.
pub open spec fn is_resume_flag(a: Seq<char>) -> bool {
    a == "--resume"@ || starts_with(a, "--resume="@)
}

proof fn lemma_without_role_clean(args: Seq<Seq<char>>, i: int)
    ensures
        forall|k: int|
            0 <= k < without_role_from(args, i).len() ==> !is_role_flag(
                #[trigger] without_role_from(args, i)[k],
            ),
    decreases args.len() - i,
{
    if 0 <= i < args.len() {
        if args[i] == "--desktop-process-role"@ {
            let next = if i + 2 <= args.len() { i + 2 } else { args.len() as int };
            lemma_without_role_clean(args, next);
            assert(without_role_from(args, i) == without_role_from(args, next));
        } else if args[i] == "--desktop-host"@ || args[i] == "--desktop-app-worker"@ || starts_with(
            args[i],
            "--desktop-process-role="@,
        ) {
            lemma_without_role_clean(args, i + 1);
            assert(without_role_from(args, i) == without_role_from(args, i + 1));
        } else {
            lemma_without_role_clean(args, i + 1);
            let rest = without_role_from(args, i + 1);
            assert(without_role_from(args, i) == seq![args[i]] + rest);
            assert(!is_role_flag(args[i]));
            assert forall|k: int| 0 <= k < without_role_from(args, i).len() implies !is_role_flag(
                #[trigger] without_role_from(args, i)[k],
            ) by {
                if k > 0 {
                    assert(without_role_from(args, i)[k] == rest[k - 1]);
                } else {
                    assert(without_role_from(args, i)[k] == args[i]);
                }
            }
        }
    }
}

/// No argument left after dropping the session to resume is a resume flag.
pub proof fn lemma_without_resume_clean(args: Seq<Seq<char>>, i: int)
    ensures
        forall|k: int|
            0 <= k < without_resume_from(args, i).len() ==> !is_resume_flag(
                #[trigger] without_resume_from(args, i)[k],
            ),
    decreases args.len() - i,
{
    if 0 <= i < args.len() {
        if args[i] == "--resume"@ {
            let next = if i + 2 <= args.len() { i + 2 } else { args.len() as int };
            lemma_without_resume_clean(args, next);
            assert(without_resume_from(args, i) == without_resume_from(args, next));
        } else if starts_with(args[i], "--resume="@) {
            lemma_without_resume_clean(args, i + 1);
            assert(without_resume_from(args, i) == without_resume_from(args, i + 1));
        } else {
            lemma_without_resume_clean(args, i + 1);
            let rest = without_resume_from(args, i + 1);
            assert(without_resume_from(args, i) == seq![args[i]] + rest);
            assert(!is_resume_flag(args[i]));
            assert forall|k: int| 0 <= k < without_resume_from(args, i).len() implies !is_resume_flag(
                #[trigger] without_resume_from(args, i)[k],
            ) by {
                if k > 0 {
                    assert(without_resume_from(args, i)[k] == rest[k - 1]);
                } else {
                    assert(without_resume_from(args, i)[k] == args[i]);
                }
            }
        }
    }
}

proof fn lemma_role_from_skips(xs: Seq<Seq<char>>, i: int, k: int)
    requires
        0 <= i <= k <= xs.len(),
        forall|j: int| i <= j < k ==> !is_role_flag(#[trigger] xs[j]),
    ensures
        role_from(xs, i) == role_from(xs, k),
    decreases k - i,
{
    if i < k {
        assert(!is_role_flag(xs[i]));
        assert(strip_prefix(xs[i], "--desktop-process-role="@) is None);
        lemma_role_from_skips(xs, i + 1, k);
    }
}

proof fn lemma_resume_from_skips(xs: Seq<Seq<char>>, i: int, k: int)
    requires
        0 <= i <= k <= xs.len(),
        forall|j: int| i <= j < k ==> !is_resume_flag(#[trigger] xs[j]),
    ensures
        resume_from(xs, i) == resume_from(xs, k),
    decreases k - i,
{
    if i < k {
        assert(!is_resume_flag(xs[i]));
        lemma_resume_from_skips(xs, i + 1, k);
    }
}

/// A relaunched app worker takes itself for one: whatever role flags the host
/// was started with, the worker's arguments select the app-worker role.
pub proof fn lemma_app_worker_relaunch_role(args: Seq<Seq<char>>)
    ensures
        role_from(
            without_role_from(args, 0) + seq!["--desktop-process-role"@, "app-worker"@],
            0,
        ) == DesktopProcessRole::AppWorker,
{
    let base = without_role_from(args, 0);
    let xs = base + seq!["--desktop-process-role"@, "app-worker"@];
    lemma_without_role_clean(args, 0);
    assert forall|j: int| 0 <= j < base.len() implies !is_role_flag(#[trigger] xs[j]) by {
        assert(xs[j] == base[j]);
    }
    lemma_role_from_skips(xs, 0, base.len() as int);
    reveal_strlit("--desktop-process-role");
    reveal_strlit("--desktop-process-role=");
    reveal_strlit("app-worker");
    reveal_strlit("host");
    reveal_strlit("stable-host");
    reveal_strlit("stable_host");
    reveal_strlit("worker");
    reveal_strlit("app_worker");
    assert(xs[base.len() as int] == "--desktop-process-role"@);
    assert(xs[base.len() + 1int] == "app-worker"@);
    assert(!starts_with("--desktop-process-role"@, "--desktop-process-role="@));
    assert(role_arg_at(xs, base.len() as int) == Some("app-worker"@));
    assert("app-worker"@ != "stable-host"@) by {
        assert("app-worker"@[0] != "stable-host"@[0]);
    }
    assert("app-worker"@ != "app_worker"@) by {
        assert("app-worker"@[3] != "app_worker"@[3]);
    }
    assert("app-worker"@ != "stable_host"@) by {
        assert("app-worker"@[0] != "stable_host"@[0]);
    }
}

proof fn lemma_without_resume_of_clean(xs: Seq<Seq<char>>, i: int)
    requires
        0 <= i <= xs.len(),
        forall|j: int| i <= j < xs.len() ==> !is_resume_flag(#[trigger] xs[j]),
    ensures
        without_resume_from(xs, i) == xs.skip(i),
    decreases xs.len() - i,
{
    if i < xs.len() {
        assert(!is_resume_flag(xs[i]));
        lemma_without_resume_of_clean(xs, i + 1);
        assert(xs.skip(i) =~= seq![xs[i]] + xs.skip(i + 1));
    } else {
        assert(xs.skip(i) =~= Seq::<Seq<char>>::empty());
    }
}

/// Dropping the session to resume is done once and for all: doing it again
/// changes nothing, and the remaining arguments name no session to resume.
pub proof fn lemma_args_without_resume_settled(args: Seq<Seq<char>>)
    ensures
        without_resume_from(without_resume_from(args, 0), 0) == without_resume_from(args, 0),
        resume_from(without_resume_from(args, 0), 0) is None,
{
    let base = without_resume_from(args, 0);
    lemma_without_resume_clean(args, 0);
    assert forall|j: int| 0 <= j < base.len() implies !is_resume_flag(#[trigger] base[j]) by {}
    lemma_without_resume_of_clean(base, 0);
    assert(base.skip(0) =~= base);
    lemma_resume_from_skips(base, 0, base.len() as int);
}

/// Reloading a single-session app reopens its live session: the relaunched
/// arguments resume exactly that session, whatever was resumed before.
pub proof fn lemma_single_session_relaunch_resumes(args: Seq<Seq<char>>, live_session_id: Seq<char>)
    ensures
        resume_from(without_resume_from(args, 0) + seq!["--resume"@, live_session_id], 0) == Some(
            live_session_id,
        ),
{
    let base = without_resume_from(args, 0);
    let xs = base + seq!["--resume"@, live_session_id];
    lemma_without_resume_clean(args, 0);
    assert forall|j: int| 0 <= j < base.len() implies !is_resume_flag(#[trigger] xs[j]) by {
        assert(xs[j] == base[j]);
    }
    lemma_resume_from_skips(xs, 0, base.len() as int);
    assert(xs[base.len() as int] == "--resume"@);
    assert(xs[base.len() + 1int] == live_session_id);
}

/// Reloading the workspace reopens the workspace, unless the arguments ask
/// for a new session or open a `jcode://` link.
pub proof fn lemma_workspace_relaunch_mode(args: Seq<Seq<char>>)
    requires
        forall|k: int|
            0 <= k < without_resume_from(args, 0).len() ==> #[trigger] without_resume_from(args, 0)[k]
                != "--new"@ && !starts_with(without_resume_from(args, 0)[k], "jcode://"@),
    ensures
        ({
            let base = without_resume_from(args, 0);
            let relaunched = if exists|i: int| 0 <= i < base.len() && is_mode_arg(#[trigger] base[i]) {
                base
            } else {
                base.push("--workspace"@)
            };
            has_arg(relaunched, "--workspace"@)
        }),
{
    let base = without_resume_from(args, 0);
    lemma_without_resume_clean(args, 0);
    if exists|i: int| 0 <= i < base.len() && is_mode_arg(#[trigger] base[i]) {
        let i = choose|i: int| 0 <= i < base.len() && is_mode_arg(#[trigger] base[i]);
        assert(!is_resume_flag(base[i]));
        assert(base[i] == "--workspace"@);
    } else {
        assert(base.push("--workspace"@)[base.len() as int] == "--workspace"@);
    }
}

} // verus!
