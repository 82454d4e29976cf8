//! Small scheduling and sizing rules of the render loop: redraw pacing,
//! surface-timeout backoff, vertex buffer sizing and the body text window.
use vstd::prelude::*;

verus! {

/// Interval between background polls while an animation runs, in milliseconds.
pub const BACKGROUND_POLL_INTERVAL_MS: u64 = 33;

/// Minimum spacing between animation-driven redraws, in milliseconds.
pub const DESKTOP_ANIMATION_FRAME_INTERVAL_MS: u64 = 16;

/// First surface-timeout backoff delay, in milliseconds.
pub const SURFACE_TIMEOUT_BACKOFF_MIN_MS: u64 = 16;

/// Largest surface-timeout backoff delay, in milliseconds.
pub const SURFACE_TIMEOUT_BACKOFF_MAX_MS: u64 = 250;

/// Smallest primitive vertex buffer allocated.
pub const PRIMITIVE_VERTEX_BUFFER_MIN_CAPACITY: usize = 1024;

/// A buffer this many times larger than needed is shrunk.
pub const PRIMITIVE_VERTEX_BUFFER_SHRINK_RATIO: usize = 4;

/// Duration of one spinner frame, in milliseconds.
pub const DESKTOP_SPINNER_FRAME_MS: u128 = 180;

/// Lines kept above the visible body lines in the text window.
pub const SINGLE_SESSION_BODY_TEXT_WINDOW_BEFORE_LINES: usize = 8;

/// Lines kept below the visible body lines in the text window.
pub const SINGLE_SESSION_BODY_TEXT_WINDOW_AFTER_LINES: usize = 16;

/// Consecutive surface acquire timeouts.
#[derive(Clone, Copy, Debug, Default)]
pub struct SurfaceTimeoutBackoff {
    pub consecutive_timeouts: u32,
}

/// `2^k`.
pub open spec fn two_pow(k: nat) -> nat
    decreases k,
{
    if k == 0 {
        1
    } else {
        2 * two_pow((k - 1) as nat)
    }
}

/// The backoff delay after `n` earlier consecutive timeouts.
pub open spec fn backoff_delay_ms(n: u32) -> nat {
    let e: nat = if n < 4 { n as nat } else { 4 };
    let d: nat = (SURFACE_TIMEOUT_BACKOFF_MIN_MS as nat) * two_pow(e);
    if d < SURFACE_TIMEOUT_BACKOFF_MAX_MS as nat { d } else { SURFACE_TIMEOUT_BACKOFF_MAX_MS as nat }
}

impl SurfaceTimeoutBackoff {
    /// `reset`: a frame was presented.
    pub fn reset(&mut self)
        ensures
            final(self).consecutive_timeouts == 0,
    {
        self.consecutive_timeouts = 0;
    }

    /// `record_timeout`: the delay before the next attempt (doubling from 16ms,
    /// capped at 250ms) and the number of consecutive timeouts so far.
    pub fn record_timeout(&mut self) -> (r: (u64, u32))
        ensures
            r.0 == backoff_delay_ms(old(self).consecutive_timeouts),
            final(self).consecutive_timeouts == (if old(self).consecutive_timeouts == u32::MAX {
                u32::MAX
            } else {
                (old(self).consecutive_timeouts + 1) as u32
            }),
            r.1 == final(self).consecutive_timeouts,
    {
        let exponent: u32 = if self.consecutive_timeouts < 4 {
            self.consecutive_timeouts
        } else {
            4
        };
        self.consecutive_timeouts = if self.consecutive_timeouts == u32::MAX {
            u32::MAX
        } else {
            self.consecutive_timeouts + 1
        };
        let mut d: u64 = SURFACE_TIMEOUT_BACKOFF_MIN_MS;
        let mut k: u32 = 0;
        while k < exponent
            invariant
                k <= exponent <= 4,
                d == SURFACE_TIMEOUT_BACKOFF_MIN_MS * two_pow(k as nat),
                d <= 16 * 16,
            decreases exponent - k,
        {
            proof {
                assert(two_pow((k + 1) as nat) == 2 * two_pow(k as nat));
                lemma_two_pow_le_16(k as nat);
            }
            d = d * 2;
            k = k + 1;
        }
        let delay = if d < SURFACE_TIMEOUT_BACKOFF_MAX_MS {
            d
        } else {
            SURFACE_TIMEOUT_BACKOFF_MAX_MS
        };
        (delay, self.consecutive_timeouts)
    }
}

proof fn lemma_two_pow_le_16(k: nat)
    requires
        k < 4,
    ensures
        two_pow(k) <= 8,
{
    assert(two_pow(0) == 1);
    assert(two_pow(1) == 2);
    assert(two_pow(2) == 4);
    assert(two_pow(3) == 8);
}

/// `desktop_surface_size_is_renderable`: both dimensions are non-zero.
pub fn desktop_surface_size_is_renderable(width: u32, height: u32) -> (r: bool)
    ensures
        r == (width > 0 && height > 0),
{
    width > 0 && height > 0
}

/// `desktop_background_wake`: poll again after the background interval while a
/// renderable surface animates.
pub fn desktop_background_wake(now_ms: u64, surface_renderable: bool, frame_animation_active: bool) -> (r:
    Option<u64>)
    requires
        now_ms <= u64::MAX - BACKGROUND_POLL_INTERVAL_MS,
    ensures
        r == if surface_renderable && frame_animation_active {
            Some((now_ms + BACKGROUND_POLL_INTERVAL_MS) as u64)
        } else {
            None
        },
{
    if surface_renderable && frame_animation_active {
        Some(now_ms + BACKGROUND_POLL_INTERVAL_MS)
    } else {
        None
    }
}

/// `next_animation_redraw_at`: the next paced redraw while an animation runs.
pub fn next_animation_redraw_at(now_ms: u64, animation_active: bool) -> (r: Option<u64>)
    requires
        now_ms <= u64::MAX - DESKTOP_ANIMATION_FRAME_INTERVAL_MS,
    ensures
        r == if animation_active {
            Some((now_ms + DESKTOP_ANIMATION_FRAME_INTERVAL_MS) as u64)
        } else {
            None
        },
{
    if animation_active {
        Some(now_ms + DESKTOP_ANIMATION_FRAME_INTERVAL_MS)
    } else {
        None
    }
}

/// `usize::next_power_of_two`: the least power of two at least `n`.
pub open spec fn is_next_pow2(n: nat, p: nat) -> bool {
    exists|k: nat| p == #[trigger] two_pow(k) && n <= p && (k == 0 || two_pow((k - 1) as nat) < n)
}

/// `primitive_vertex_capacity_for_len`: no buffer for no vertices, else the
/// next power of two, at least the minimum capacity.
pub fn primitive_vertex_capacity_for_len(len: usize) -> (r: usize)
    requires
        len <= usize::MAX / 2 + 1,
    ensures
        len == 0 ==> r == 0,
        len > 0 ==> exists|p: nat| is_next_pow2(len as nat, p) && r == (if p
            < PRIMITIVE_VERTEX_BUFFER_MIN_CAPACITY { PRIMITIVE_VERTEX_BUFFER_MIN_CAPACITY as nat } else { p }),
{
    if len == 0 {
        return 0;
    }
    let mut p: usize = 1;
    let ghost mut k: nat = 0;
    while p < len
        invariant
            len >= 1,
            len <= usize::MAX / 2 + 1,
            p == two_pow(k),
            p >= 1,
            k == 0 || two_pow((k - 1) as nat) < len,
        decreases usize::MAX - p,
    {
        assert(two_pow(k + 1) == 2 * two_pow(k));
        p = p * 2;
        proof {
            k = k + 1;
        }
    }
    assert(is_next_pow2(len as nat, p as nat));
    if p < PRIMITIVE_VERTEX_BUFFER_MIN_CAPACITY {
        PRIMITIVE_VERTEX_BUFFER_MIN_CAPACITY
    } else {
        p
    }
}

/// `primitive_vertex_buffer_should_reallocate`: grow when too small, shrink a
/// large buffer used to less than a quarter.
pub fn primitive_vertex_buffer_should_reallocate(capacity: usize, len: usize) -> (r: bool)
    ensures
        r == if len == 0 {
            false
        } else if capacity < len {
            true
        } else {
            capacity > PRIMITIVE_VERTEX_BUFFER_MIN_CAPACITY && len * PRIMITIVE_VERTEX_BUFFER_SHRINK_RATIO
                < capacity
        },
{
    if len == 0 {
        false
    } else if capacity < len {
        true
    } else {
        let scaled: usize = if len > usize::MAX / PRIMITIVE_VERTEX_BUFFER_SHRINK_RATIO {
            usize::MAX
        } else {
            len * PRIMITIVE_VERTEX_BUFFER_SHRINK_RATIO
        };
        capacity > PRIMITIVE_VERTEX_BUFFER_MIN_CAPACITY && scaled < capacity
    }
}

/// `streaming_text_renderer_should_release`: free the streaming renderer once
/// no streaming text remains but its renderer or atlas is still alive.
pub fn streaming_text_renderer_should_release(
    has_streaming_text_buffer: bool,
    renderer_live: bool,
    atlas_live: bool,
) -> (r: bool)
    ensures
        r == (!has_streaming_text_buffer && (renderer_live || atlas_live)),
{
    !has_streaming_text_buffer && (renderer_live || atlas_live)
}

/// `single_session_caret_visible_for_frame`: the caret blinks on for three
/// spinner ticks of every six, when the composer draws one.
pub fn single_session_caret_visible_for_frame(composer_draws_caret: bool, spinner_tick: u64) -> (r:
    bool)
    ensures
        r == (spinner_tick % 6 < 3 && composer_draws_caret),
{
    spinner_tick % 6 < 3 && composer_draws_caret
}

/// `desktop_spinner_tick`: the spinner frame shown at a wall-clock time.
pub fn desktop_spinner_tick(unix_millis: u128) -> (r: u64)
    ensures
        r == (unix_millis / DESKTOP_SPINNER_FRAME_MS) as u64,
{
    #[verifier::truncate]
    ((unix_millis / DESKTOP_SPINNER_FRAME_MS) as u64)
}

/// The part of the body viewport the text window depends on.
#[derive(Clone, Copy, Debug)]
pub struct SingleSessionBodyViewport {
    pub start_line: usize,
    pub line_count: usize,
    pub total_lines: usize,
}

pub open spec fn sat_sub(a: int, b: int) -> int {
    if a >= b { a - b } else { 0 }
}

pub open spec fn sat_add(a: int, b: int) -> int {
    if a + b <= usize::MAX { a + b } else { usize::MAX as int }
}

/// `single_session_body_text_window_bounds`: the visible lines plus a margin
/// above and below, clamped to the body.
pub fn single_session_body_text_window_bounds(viewport: &SingleSessionBodyViewport) -> (r: (usize, usize))
    ensures
        r.0 == sat_sub(viewport.start_line as int, SINGLE_SESSION_BODY_TEXT_WINDOW_BEFORE_LINES as int),
        ({
            let end0 = sat_add(
                sat_add(viewport.start_line as int, viewport.line_count as int),
                SINGLE_SESSION_BODY_TEXT_WINDOW_AFTER_LINES as int,
            );
            let end = if end0 < viewport.total_lines { end0 } else { viewport.total_lines as int };
            r.1 == if end > r.0 { end } else { r.0 as int }
        }),
{
    let start = if viewport.start_line >= SINGLE_SESSION_BODY_TEXT_WINDOW_BEFORE_LINES {
        viewport.start_line - SINGLE_SESSION_BODY_TEXT_WINDOW_BEFORE_LINES
    } else {
        0
    };
    let a = if viewport.start_line <= usize::MAX - viewport.line_count {
        viewport.start_line + viewport.line_count
    } else {
        usize::MAX
    };
    let b = if a <= usize::MAX - SINGLE_SESSION_BODY_TEXT_WINDOW_AFTER_LINES {
        a + SINGLE_SESSION_BODY_TEXT_WINDOW_AFTER_LINES
    } else {
        usize::MAX
    };
    let end = if b < viewport.total_lines {
        b
    } else {
        viewport.total_lines
    };
    (start, if end > start {
        end
    } else {
        start
    })
}

/// `single_session_body_text_window_contains`: the window covers every visible line.
pub fn single_session_body_text_window_contains(
    window_start: usize,
    window_end: usize,
    viewport: &SingleSessionBodyViewport,
) -> (r: bool)
    ensures
        r == (window_start <= viewport.start_line && sat_add(
            viewport.start_line as int,
            viewport.line_count as int,
        ) <= window_end),
{
    let visible_end = if viewport.start_line <= usize::MAX - viewport.line_count {
        viewport.start_line + viewport.line_count
    } else {
        usize::MAX
    };
    window_start <= viewport.start_line && visible_end <= window_end
}

/// A window computed by `single_session_body_text_window_bounds` contains the
/// viewport whenever the visible lines end within the body.
pub proof fn lemma_text_window_covers_viewport(viewport: SingleSessionBodyViewport, start: int, end: int)
    requires
        viewport.start_line + viewport.line_count <= viewport.total_lines,
        start == sat_sub(viewport.start_line as int, SINGLE_SESSION_BODY_TEXT_WINDOW_BEFORE_LINES as int),
        ({
            let end0 = sat_add(
                sat_add(viewport.start_line as int, viewport.line_count as int),
                SINGLE_SESSION_BODY_TEXT_WINDOW_AFTER_LINES as int,
            );
            let e = if end0 < viewport.total_lines { end0 } else { viewport.total_lines as int };
            end == if e > start { e } else { start }
        }),
    ensures
        start <= viewport.start_line,
        sat_add(viewport.start_line as int, viewport.line_count as int) <= end,
{
}

} // verus!
