//! Pass/fail rules and inputs of the desktop's built-in benchmarks.
use vstd::prelude::*;
use crate::reload::WindowSize;
use crate::text::{chars_of, parse_unsigned, parse_usize_chars, trim, trim_str};

verus! {

broadcast use vstd::string::group_string_axioms;

/// The characters the typing benchmark types, in turn.
pub const BENCHMARK_TYPING_CHARS: &'static str = "abcdefghijklmnopqrstuvwxyz     .,;";

/// `benchmark_typing_char`: the character typed in frame `frame`, cycling
/// through `BENCHMARK_TYPING_CHARS`.
pub fn benchmark_typing_char(frame: usize) -> (r: char)
    ensures
        r == BENCHMARK_TYPING_CHARS@[(frame % 34) as int],
        BENCHMARK_TYPING_CHARS@.len() == 34,
{
    proof {
        reveal_strlit("abcdefghijklmnopqrstuvwxyz     .,;");
    }
    let chars = chars_of(BENCHMARK_TYPING_CHARS);
    chars[frame % chars.len()]
}

/// The number an optional setting holds: its trimmed text parsed as a
/// `usize`, if it parses.
pub open spec fn setting_number(value: Option<Seq<char>>) -> Option<nat> {
    match value {
        Some(v) => parse_unsigned(trim(v), usize::MAX as nat),
        None => None,
    }
}

fn setting_number_exec(value: Option<&str>) -> (r: Option<usize>)
    ensures
        r matches Some(n) ==> setting_number(
            match value {
                Some(v) => Some(v@),
                None => None,
            },
        ) == Some(n as nat),
        r is None ==> setting_number(
            match value {
                Some(v) => Some(v@),
                None => None,
            },
        ) is None,
{
    match value {
        Some(v) => {
            let t = trim_str(v);
            parse_usize_chars(t.as_slice())
        },
        None => None,
    }
}

/// `real_transcript_benchmark_selection`: how many of the largest real
/// transcripts to profile (the `sessions` setting when it is a positive
/// number, else 8) and the fewest messages a transcript must have (the
/// `min_messages` setting when it is a number, else 24).
pub fn real_transcript_benchmark_selection(sessions: Option<&str>, min_messages: Option<&str>) -> (r: (
    usize,
    usize,
))
    ensures
        r.0 == match setting_number(
            match sessions {
                Some(v) => Some(v@),
                None => None,
            },
        ) {
            Some(n) if n > 0 => n,
            _ => 8,
        },
        r.1 == match setting_number(
            match min_messages {
                Some(v) => Some(v@),
                None => None,
            },
        ) {
            Some(n) => n,
            None => 24,
        },
{
    let max_sessions = match setting_number_exec(sessions) {
        Some(n) => if n > 0 {
            n
        } else {
            8
        },
        None => 8,
    };
    let min = match setting_number_exec(min_messages) {
        Some(n) => n,
        None => 24,
    };
    (max_sessions, min)
}

/// `benchmark_resize_size`: the window size of resize benchmark frame
/// `frame`, sweeping widths over 1080..1340 and heights over 650..830.
pub fn benchmark_resize_size(frame: usize) -> (r: WindowSize)
    requires
        frame * 17 <= usize::MAX,
    ensures
        r.width == 1080 + (frame * 17) % 260,
        r.height == 650 + (frame * 11) % 180,
{
    let w: usize = (frame * 17) % 260;
    let h: usize = (frame * 11) % 180;
    WindowSize { width: 1080 + w as u32, height: 650 + h as u32 }
}

/// Measurements of one stream end-to-end benchmark run; durations in
/// nanoseconds.
#[derive(Clone, Copy, Debug)]
pub struct DesktopStreamEndToEndBenchmark {
    pub raw_events: usize,
    pub batches: usize,
    pub coalesced_events: usize,
    pub paints: usize,
    pub max_batch_raw_events: usize,
    pub max_batch_payload_bytes: usize,
    pub total_wall_ns: u128,
    pub max_forwarder_accumulated_ns: u128,
    pub max_apply_ns: u128,
    pub max_no_paint_gap_ns: u128,
    pub max_batch_to_paint_ns: u128,
    pub stream_left_queued_after_first_batch: bool,
}

impl DesktopStreamEndToEndBenchmark {
    /// `passes_no_paint_budget`: the longest stretch without a paint stayed
    /// within the no-paint budget.
    pub fn passes_no_paint_budget(&self, no_paint_budget_ns: u128) -> (r: bool)
        ensures
            r == (self.max_no_paint_gap_ns <= no_paint_budget_ns),
    {
        self.max_no_paint_gap_ns <= no_paint_budget_ns
    }

    /// `passes_interaction_budget`: applying a batch fit in one frame, and
    /// neither forwarding nor batch-to-paint latency exceeded the no-paint
    /// budget.
    pub fn passes_interaction_budget(&self, frame_budget_ns: u128, no_paint_budget_ns: u128) -> (r:
        bool)
        ensures
            r == (self.max_apply_ns <= frame_budget_ns && self.max_forwarder_accumulated_ns
                <= no_paint_budget_ns && self.max_batch_to_paint_ns <= no_paint_budget_ns),
    {
        self.max_apply_ns <= frame_budget_ns && self.max_forwarder_accumulated_ns
            <= no_paint_budget_ns && self.max_batch_to_paint_ns <= no_paint_budget_ns
    }
}

} // verus!
