//! Process roles and app modes chosen from the command line.
use vstd::prelude::*;
use crate::args::{has_arg, has_flag};
use crate::text::{chars_eq, chars_of, starts_with, strip_prefix, strip_prefix_chars, string_from_chars, string_views};

verus! {

broadcast use vstd::string::group_string_axioms;

/// Which UI the desktop app runs.
#[derive(Clone, Copy, Debug, PartialEq, Eq, Structural)]
pub enum DesktopMode {
    SingleSession,
    WorkspacePrototype,
}

/// The role this process plays in the host/worker split.
#[derive(Clone, Copy, Debug, PartialEq, Eq, Structural)]
pub enum DesktopProcessRole {
    Standalone,
    StableHost,
    AppWorker,
}

/// How a hot reload replaces the running UI.
#[derive(Clone, Copy, Debug, PartialEq, Eq, Structural)]
pub enum DesktopReloadStrategy {
    FullProcessHandoff,
    AppWorkerRestart,
}

/// The UI an app worker runs.
#[derive(Clone, Copy, Debug, PartialEq, Eq, Structural)]
pub enum DesktopWorkerMode {
    SingleSession,
    Workspace,
}

impl DesktopProcessRole {
    pub open spec fn name_spec(self) -> Seq<char> {
        match self {
            DesktopProcessRole::Standalone => "standalone"@,
            DesktopProcessRole::StableHost => "stable_host"@,
            DesktopProcessRole::AppWorker => "app_worker"@,
        }
    }

    /// `DesktopProcessRole::as_str`.
    pub fn as_str(self) -> (r: &'static str)
        ensures
            r@ == self.name_spec(),
    {
        match self {
            DesktopProcessRole::Standalone => "standalone",
            DesktopProcessRole::StableHost => "stable_host",
            DesktopProcessRole::AppWorker => "app_worker",
        }
    }

    /// A stable host restarts its app worker; other roles hand the window to a
    /// fresh process.
    pub fn reload_strategy(self) -> (r: DesktopReloadStrategy)
        ensures
            r == (match self {
                DesktopProcessRole::StableHost => DesktopReloadStrategy::AppWorkerRestart,
                _ => DesktopReloadStrategy::FullProcessHandoff,
            }),
    {
        match self {
            DesktopProcessRole::Standalone | DesktopProcessRole::AppWorker => {
                DesktopReloadStrategy::FullProcessHandoff
            },
            DesktopProcessRole::StableHost => DesktopReloadStrategy::AppWorkerRestart,
        }
    }
}

impl DesktopMode {
    pub open spec fn name_spec(self) -> Seq<char> {
        match self {
            DesktopMode::SingleSession => "single_session"@,
            DesktopMode::WorkspacePrototype => "workspace"@,
        }
    }

    /// `DesktopMode::as_str`.
    pub fn as_str(self) -> (r: &'static str)
        ensures
            r@ == self.name_spec(),
    {
        match self {
            DesktopMode::SingleSession => "single_session",
            DesktopMode::WorkspacePrototype => "workspace",
        }
    }

    /// The worker mode that runs this UI.
    pub fn worker_mode(self) -> (r: DesktopWorkerMode)
        ensures
            r == (match self {
                DesktopMode::SingleSession => DesktopWorkerMode::SingleSession,
                DesktopMode::WorkspacePrototype => DesktopWorkerMode::Workspace,
            }),
    {
        match self {
            DesktopMode::SingleSession => DesktopWorkerMode::SingleSession,
            DesktopMode::WorkspacePrototype => DesktopWorkerMode::Workspace,
        }
    }
}

/// `--workspace` selects the workspace prototype; the single-session chat otherwise.
pub fn desktop_mode_from_args(args: &[String]) -> (r: DesktopMode)
    ensures
        r == (if has_arg(string_views(args@), "--workspace"@) {
            DesktopMode::WorkspacePrototype
        } else {
            DesktopMode::SingleSession
        }),
{
    if has_flag(args, "--workspace") {
        DesktopMode::WorkspacePrototype
    } else {
        DesktopMode::SingleSession
    }
}

/// The role a role name selects.
pub open spec fn role_named(name: Seq<char>) -> DesktopProcessRole {
    if name == "host"@ || name == "stable-host"@ || name == "stable_host"@ {
        DesktopProcessRole::StableHost
    } else if name == "worker"@ || name == "app-worker"@ || name == "app_worker"@ {
        DesktopProcessRole::AppWorker
    } else {
        DesktopProcessRole::Standalone
    }
}

/// The role name argument `i` gives, if it names one, and how many arguments it uses.
pub open spec fn role_arg_at(args: Seq<Seq<char>>, i: int) -> Option<Seq<char>> {
    match strip_prefix(args[i], "--desktop-process-role="@) {
        Some(rest) => Some(rest),
        None => if args[i] == "--desktop-process-role"@ {
            if i + 1 < args.len() {
                Some(args[i + 1])
            } else {
                None
            }
        } else if args[i] == "--desktop-host"@ {
            Some("host"@)
        } else if args[i] == "--desktop-app-worker"@ {
            Some("worker"@)
        } else {
            None
        },
    }
}

/// The role chosen by the arguments from `i` on; a bare `--desktop-process-role`
/// consumes the argument after it.
pub open spec fn role_from(args: Seq<Seq<char>>, i: int) -> DesktopProcessRole
    decreases args.len() - i,
{
    if i < 0 || i >= args.len() {
        DesktopProcessRole::StableHost
    } else if role_arg_at(args, i) is Some {
        role_named(role_arg_at(args, i)->0)
    } else if args[i] == "--desktop-process-role"@ {
        DesktopProcessRole::StableHost
    } else {
        role_from(args, i + 1)
    }
}

fn eq_lit(s: &[char], lit: &str) -> (r: bool)
    ensures
        r == (s@ == lit@),
{
    let l = chars_of(lit);
    chars_eq(s, l.as_slice())
}

fn role_named_exec(name: &[char]) -> (r: DesktopProcessRole)
    ensures
        r == role_named(name@),
{
    if eq_lit(name, "host") || eq_lit(name, "stable-host") || eq_lit(name, "stable_host") {
        DesktopProcessRole::StableHost
    } else if eq_lit(name, "worker") || eq_lit(name, "app-worker") || eq_lit(name, "app_worker") {
        DesktopProcessRole::AppWorker
    } else {
        DesktopProcessRole::Standalone
    }
}

/// `desktop_process_role_from_args`: the first role flag decides; a stable
/// host when none is given.
pub fn desktop_process_role_from_args(args: &[String]) -> (r: DesktopProcessRole)
    ensures
        r == role_from(string_views(args@), 0),
{
    proof {
        reveal_strlit("host");
        reveal_strlit("worker");
    }
    let ghost sv = string_views(args@);
    let prefix = chars_of("--desktop-process-role=");
    let mut i: usize = 0;
    while i < args.len()
        invariant
            sv == string_views(args@),
            prefix@ == "--desktop-process-role="@,
            role_from(sv, 0) == role_from(sv, i as int),
        decreases args.len() - i,
    {
        let a = chars_of(args[i].as_str());
        assert(sv[i as int] == a@);
        if let Some(rest) = strip_prefix_chars(a.as_slice(), prefix.as_slice()) {
            return role_named_exec(rest.as_slice());
        }
        if eq_lit(a.as_slice(), "--desktop-process-role") {
            if i + 1 < args.len() {
                let next = chars_of(args[i + 1].as_str());
                assert(sv[i + 1] == next@);
                return role_named_exec(next.as_slice());
            }
            return DesktopProcessRole::StableHost;
        } else if eq_lit(a.as_slice(), "--desktop-host") {
            let h = chars_of("host");
            return role_named_exec(h.as_slice());
        } else if eq_lit(a.as_slice(), "--desktop-app-worker") {
            let w = chars_of("worker");
            return role_named_exec(w.as_slice());
        } else {
            i = i + 1;
        }
    }
    DesktopProcessRole::StableHost
}

/// The session to resume named by the arguments from `i` on.
pub open spec fn resume_from(args: Seq<Seq<char>>, i: int) -> Option<Seq<char>>
    decreases args.len() - i,
{
    if i < 0 || i >= args.len() {
        None
    } else if args[i] == "--resume"@ {
        if i + 1 < args.len() {
            Some(args[i + 1])
        } else {
            None
        }
    } else if starts_with(args[i], "--resume="@) {
        let id = args[i].skip(9);
        if id.len() > 0 {
            Some(id)
        } else {
            None
        }
    } else {
        resume_from(args, i + 1)
    }
}

/// `desktop_resume_session_id_from_args`: the id after the first `--resume`
/// or in the first `--resume=ID`.
pub fn desktop_resume_session_id_from_args(args: &[String]) -> (r: Option<String>)
    ensures
        r matches Some(v) ==> resume_from(string_views(args@), 0) == Some(v@),
        r is None ==> resume_from(string_views(args@), 0) is None,
{
    proof {
        reveal_strlit("--resume=");
        assert("--resume="@.len() == 9);
    }
    let ghost sv = string_views(args@);
    let prefix = chars_of("--resume=");
    let mut i: usize = 0;
    while i < args.len()
        invariant
            sv == string_views(args@),
            prefix@ == "--resume="@,
            prefix@.len() == 9,
            resume_from(sv, 0) == resume_from(sv, i as int),
        decreases args.len() - i,
    {
        let a = chars_of(args[i].as_str());
        assert(sv[i as int] == a@);
        if eq_lit(a.as_slice(), "--resume") {
            if i + 1 < args.len() {
                assert(sv[i + 1] == args@[i + 1]@);
                return Some(args[i + 1].clone());
            }
            return None;
        }
        if let Some(id) = strip_prefix_chars(a.as_slice(), prefix.as_slice()) {
            if id.len() > 0 {
                return Some(string_from_chars(id.as_slice()));
            }
            return None;
        }
        i = i + 1;
    }
    None
}

} // verus!
