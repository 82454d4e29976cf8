//! Command-line flags the desktop binary understands.
use vstd::prelude::*;
use crate::text::{
    chars_eq, chars_of, parse_unsigned, parse_usize_chars, starts_with, strip_prefix,
    strip_prefix_chars, string_from_chars, string_views,
};

verus! {

broadcast use vstd::string::group_string_axioms;

/// Some argument equals `flag`.
pub open spec fn has_arg(args: Seq<Seq<char>>, flag: Seq<char>) -> bool {
    exists|i: int| 0 <= i < args.len() && args[i] == flag
}

/// `args.iter().any(|arg| arg == flag)`.
pub fn has_flag(args: &[String], flag: &str) -> (r: bool)
    ensures
        r == has_arg(string_views(args@), flag@),
{
    let f = chars_of(flag);
    let mut i: usize = 0;
    while i < args.len()
        invariant
            i <= args.len(),
            f@ == flag@,
            forall|j: int| 0 <= j < i ==> string_views(args@)[j] != flag@,
        decreases args.len() - i,
    {
        let a = chars_of(args[i].as_str());
        assert(string_views(args@)[i as int] == a@);
        if chars_eq(a.as_slice(), f.as_slice()) {
            return true;
        }
        i = i + 1;
    }
    false
}

/// `--startup-benchmark` was passed.
pub fn startup_benchmark_requested(args: &[String]) -> (r: bool)
    ensures
        r == has_arg(string_views(args@), "--startup-benchmark"@),
{
    has_flag(args, "--startup-benchmark")
}

/// `--startup-content-benchmark` was passed.
pub fn startup_content_benchmark_requested(args: &[String]) -> (r: bool)
    ensures
        r == has_arg(string_views(args@), "--startup-content-benchmark"@),
{
    has_flag(args, "--startup-content-benchmark")
}

/// `--startup-log` was passed, or the startup-log environment flag is set.
pub fn startup_log_requested(args: &[String], env_flag_set: bool) -> (r: bool)
    ensures
        r == (has_arg(string_views(args@), "--startup-log"@) || env_flag_set),
{
    has_flag(args, "--startup-log") || env_flag_set
}

/// `--simulate-stream` or `--simulate-streaming` was passed.
pub fn simulate_stream_requested(args: &[String]) -> (r: bool)
    ensures
        r == (exists|i: int|
            0 <= i < args@.len() && (string_views(args@)[i] == "--simulate-stream"@
                || string_views(args@)[i] == "--simulate-streaming"@)),
{
    let a = has_flag(args, "--simulate-stream");
    let b = has_flag(args, "--simulate-streaming");
    a || b
}

/// The frame count argument `i` gives for a `--name[=N]` flag, if any.
pub open spec fn frames_at(args: Seq<Seq<char>>, i: int, name: Seq<char>, default: nat) -> Option<nat> {
    match strip_prefix(args[i], name + seq!['=']) {
        Some(rest) if parse_unsigned(rest, usize::MAX as nat) is Some => parse_unsigned(
            rest,
            usize::MAX as nat,
        ),
        _ => if args[i] == name {
            if i + 1 < args.len() && parse_unsigned(args[i + 1], usize::MAX as nat) is Some {
                parse_unsigned(args[i + 1], usize::MAX as nat)
            } else {
                Some(default)
            }
        } else {
            None
        },
    }
}

/// The frame count of the first argument, from `i` on, that names the flag.
pub open spec fn frames_from(args: Seq<Seq<char>>, i: int, name: Seq<char>, default: nat) -> Option<nat>
    decreases args.len() - i,
{
    if i < 0 || i >= args.len() {
        None
    } else if frames_at(args, i, name, default) is Some {
        frames_at(args, i, name, default)
    } else {
        frames_from(args, i + 1, name, default)
    }
}

/// Frame count for `--name=N`, or `--name N` (`default` when `N` is missing or
/// not a number); the first argument that names the flag decides.
pub fn benchmark_frames_flag(args: &[String], name: &str, default: usize) -> (r: Option<usize>)
    ensures
        r matches Some(v) ==> frames_from(string_views(args@), 0, name@, default as nat) == Some(
            v as nat,
        ),
        r is None ==> frames_from(string_views(args@), 0, name@, default as nat) is None,
{
    let ghost sv = string_views(args@);
    let n = chars_of(name);
    let mut with_eq = chars_of(name);
    with_eq.push('=');
    let mut i: usize = 0;
    while i < args.len()
        invariant
            i <= args.len(),
            sv == string_views(args@),
            n@ == name@,
            with_eq@ == name@ + seq!['='],
            frames_from(sv, 0, name@, default as nat) == frames_from(sv, i as int, name@, default as nat),
        decreases args.len() - i,
    {
        let a = chars_of(args[i].as_str());
        assert(sv[i as int] == a@);
        if let Some(rest) = strip_prefix_chars(a.as_slice(), with_eq.as_slice()) {
            if let Some(v) = parse_usize_chars(rest.as_slice()) {
                return Some(v);
            }
        }
        if chars_eq(a.as_slice(), n.as_slice()) {
            if i + 1 < args.len() {
                let next = chars_of(args[i + 1].as_str());
                assert(sv[i + 1] == next@);
                if let Some(v) = parse_usize_chars(next.as_slice()) {
                    return Some(v);
                }
            }
            return Some(default);
        }
        i = i + 1;
    }
    None
}

/// `--scroll-render-benchmark[=N]`, 600 frames by default.
pub fn scroll_render_benchmark_frames(args: &[String]) -> (r: Option<usize>)
    ensures
        r matches Some(v) ==> frames_from(string_views(args@), 0, "--scroll-render-benchmark"@, 600)
            == Some(v as nat),
        r is None ==> frames_from(string_views(args@), 0, "--scroll-render-benchmark"@, 600) is None,
{
    benchmark_frames_flag(args, "--scroll-render-benchmark", 600)
}

/// `--resize-render-benchmark[=N]`, 240 frames by default.
pub fn resize_render_benchmark_frames(args: &[String]) -> (r: Option<usize>)
    ensures
        r matches Some(v) ==> frames_from(string_views(args@), 0, "--resize-render-benchmark"@, 240)
            == Some(v as nat),
        r is None ==> frames_from(string_views(args@), 0, "--resize-render-benchmark"@, 240) is None,
{
    benchmark_frames_flag(args, "--resize-render-benchmark", 240)
}

/// `--real-transcript-scroll-benchmark[=N]`, 600 frames by default.
pub fn real_transcript_scroll_benchmark_frames(args: &[String]) -> (r: Option<usize>)
    ensures
        r matches Some(v) ==> frames_from(
            string_views(args@),
            0,
            "--real-transcript-scroll-benchmark"@,
            600,
        ) == Some(v as nat),
        r is None ==> frames_from(string_views(args@), 0, "--real-transcript-scroll-benchmark"@, 600)
            is None,
{
    benchmark_frames_flag(args, "--real-transcript-scroll-benchmark", 600)
}

/// `--real-transcript-action-benchmark[=N]`, 400 frames per phase by default.
pub fn real_transcript_action_benchmark_frames(args: &[String]) -> (r: Option<usize>)
    ensures
        r matches Some(v) ==> frames_from(
            string_views(args@),
            0,
            "--real-transcript-action-benchmark"@,
            400,
        ) == Some(v as nat),
        r is None ==> frames_from(string_views(args@), 0, "--real-transcript-action-benchmark"@, 400)
            is None,
{
    benchmark_frames_flag(args, "--real-transcript-action-benchmark", 400)
}

/// The value argument `i` gives for a `--name=VALUE` / `--name VALUE` flag, if any.
pub open spec fn value_at(args: Seq<Seq<char>>, i: int, name: Seq<char>) -> Option<Seq<char>> {
    match strip_prefix(args[i], name + seq!['=']) {
        Some(rest) => Some(rest),
        None => if args[i] == name && i + 1 < args.len() {
            Some(args[i + 1])
        } else {
            None
        },
    }
}

/// The value of the first argument, from `i` on, that gives the flag a value.
pub open spec fn value_from(args: Seq<Seq<char>>, i: int, name: Seq<char>) -> Option<Seq<char>>
    decreases args.len() - i,
{
    if i < 0 || i >= args.len() {
        None
    } else if value_at(args, i, name) is Some {
        value_at(args, i, name)
    } else {
        value_from(args, i + 1, name)
    }
}

/// The value of `--name=VALUE` or `--name VALUE`, whichever comes first.
pub fn flag_value(args: &[String], name: &str) -> (r: Option<String>)
    ensures
        r matches Some(v) ==> value_from(string_views(args@), 0, name@) == Some(v@),
        r is None ==> value_from(string_views(args@), 0, name@) is None,
{
    let ghost sv = string_views(args@);
    let n = chars_of(name);
    let mut with_eq = chars_of(name);
    with_eq.push('=');
    let mut i: usize = 0;
    while i < args.len()
        invariant
            i <= args.len(),
            sv == string_views(args@),
            n@ == name@,
            with_eq@ == name@ + seq!['='],
            value_from(sv, 0, name@) == value_from(sv, i as int, name@),
        decreases args.len() - i,
    {
        let a = chars_of(args[i].as_str());
        assert(sv[i as int] == a@);
        if let Some(rest) = strip_prefix_chars(a.as_slice(), with_eq.as_slice()) {
            return Some(string_from_chars(rest.as_slice()));
        }
        if chars_eq(a.as_slice(), n.as_slice()) && i + 1 < args.len() {
            assert(sv[i + 1] == args@[i + 1]@);
            return Some(args[i + 1].clone());
        }
        i = i + 1;
    }
    None
}

/// `--headless-chat-smoke=MSG` / `--headless-chat-smoke MSG`.
pub fn headless_chat_smoke_message(args: &[String]) -> (r: Option<String>)
    ensures
        r matches Some(v) ==> value_from(string_views(args@), 0, "--headless-chat-smoke"@) == Some(
            v@,
        ),
        r is None ==> value_from(string_views(args@), 0, "--headless-chat-smoke"@) is None,
{
    flag_value(args, "--headless-chat-smoke")
}

/// `--capture-hero-animation=DIR` / `--capture-hero-animation DIR`.
pub fn hero_screenshot_capture_dir(args: &[String]) -> (r: Option<String>)
    ensures
        r matches Some(v) ==> value_from(string_views(args@), 0, "--capture-hero-animation"@)
            == Some(v@),
        r is None ==> value_from(string_views(args@), 0, "--capture-hero-animation"@) is None,
{
    flag_value(args, "--capture-hero-animation")
}

} // verus!
