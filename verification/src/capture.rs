//! Headless capture requests, the key names they replay, and the help text.
use vstd::prelude::*;
use crate::args::{flag_value, value_from};
use crate::branding::DESKTOP_PRODUCT_NAME;
use crate::keys::KeyInput;
use crate::text::{
    chars_eq, chars_of, join_chars, join_with, parse_unsigned, parse_unsigned_chars, split_chars,
    split_on, string_from_chars, string_views, strip_prefix, strip_prefix_chars, trim, trim_chars,
    views,
};

verus! {

broadcast use vstd::string::group_string_axioms;

/// `a` holds the characters of `lit`.
fn chars_are(a: &[char], lit: &str) -> (r: bool)
    ensures
        r == (a@ == lit@),
{
    let b = chars_of(lit);
    chars_eq(a, b.as_slice())
}

// ---------------------------------------------------------------------------
// Key names replayed by a capture
// ---------------------------------------------------------------------------

/// The action a capture key name stands for, among the fixed names.
pub open spec fn capture_key_command(name: Seq<char>) -> Option<KeyInput> {
    if name == "escape"@ {
        Some(KeyInput::Escape)
    } else if name == "enter"@ {
        Some(KeyInput::Enter)
    } else if name == "backspace"@ {
        Some(KeyInput::Backspace)
    } else if name == "tab"@ {
        Some(KeyInput::Autocomplete)
    } else if name == "submit"@ {
        Some(KeyInput::SubmitDraft)
    } else if name == "model-picker"@ {
        Some(KeyInput::OpenModelPicker)
    } else if name == "session-switcher"@ {
        Some(KeyInput::OpenSessionSwitcher)
    } else if name == "hotkey-help"@ {
        Some(KeyInput::HotkeyHelp)
    } else if name == "session-info"@ {
        Some(KeyInput::ToggleSessionInfo)
    } else if name == "scroll-up"@ {
        Some(KeyInput::ScrollBodyLines(-3i32))
    } else if name == "scroll-down"@ {
        Some(KeyInput::ScrollBodyLines(3i32))
    } else if name == "scroll-top"@ {
        Some(KeyInput::ScrollBodyToTop)
    } else if name == "scroll-bottom"@ {
        Some(KeyInput::ScrollBodyToBottom)
    } else if name == "page-up"@ {
        Some(KeyInput::ScrollBodyPages(-1i32))
    } else if name == "page-down"@ {
        Some(KeyInput::ScrollBodyPages(1i32))
    } else if name == "text-bigger"@ {
        Some(KeyInput::AdjustTextScale(1i32))
    } else if name == "text-smaller"@ {
        Some(KeyInput::AdjustTextScale(-1i32))
    } else {
        None
    }
}

/// `capture_key_input`: the key action a `--capture-keys` name stands for;
/// `char:TEXT` types `TEXT`; any other name is unknown.
pub fn capture_key_input(name: &str) -> (r: Option<KeyInput>)
    ensures
        match capture_key_command(name@) {
            Some(k) => r == Some(k),
            None => match strip_prefix(name@, "char:"@) {
                Some(t) => r matches Some(KeyInput::Character(s)) && s@ == t,
                None => r is None,
            },
        },
{
    let n = chars_of(name);
    let s = n.as_slice();
    if chars_are(s, "escape") {
        Some(KeyInput::Escape)
    } else if chars_are(s, "enter") {
        Some(KeyInput::Enter)
    } else if chars_are(s, "backspace") {
        Some(KeyInput::Backspace)
    } else if chars_are(s, "tab") {
        Some(KeyInput::Autocomplete)
    } else if chars_are(s, "submit") {
        Some(KeyInput::SubmitDraft)
    } else if chars_are(s, "model-picker") {
        Some(KeyInput::OpenModelPicker)
    } else if chars_are(s, "session-switcher") {
        Some(KeyInput::OpenSessionSwitcher)
    } else if chars_are(s, "hotkey-help") {
        Some(KeyInput::HotkeyHelp)
    } else if chars_are(s, "session-info") {
        Some(KeyInput::ToggleSessionInfo)
    } else if chars_are(s, "scroll-up") {
        Some(KeyInput::ScrollBodyLines(-3))
    } else if chars_are(s, "scroll-down") {
        Some(KeyInput::ScrollBodyLines(3))
    } else if chars_are(s, "scroll-top") {
        Some(KeyInput::ScrollBodyToTop)
    } else if chars_are(s, "scroll-bottom") {
        Some(KeyInput::ScrollBodyToBottom)
    } else if chars_are(s, "page-up") {
        Some(KeyInput::ScrollBodyPages(-1))
    } else if chars_are(s, "page-down") {
        Some(KeyInput::ScrollBodyPages(1))
    } else if chars_are(s, "text-bigger") {
        Some(KeyInput::AdjustTextScale(1))
    } else if chars_are(s, "text-smaller") {
        Some(KeyInput::AdjustTextScale(-1))
    } else {
        let prefix = chars_of("char:");
        match strip_prefix_chars(s, prefix.as_slice()) {
            Some(rest) => Some(KeyInput::Character(string_from_chars(rest.as_slice()))),
            None => None,
        }
    }
}

// ---------------------------------------------------------------------------
// Gallery screenshot requests
// ---------------------------------------------------------------------------

/// A render size in physical pixels.
#[derive(Clone, Copy, Debug, PartialEq, Eq, Structural)]
pub struct CaptureSize {
    pub width: u32,
    pub height: u32,
}

/// Request for a headless gallery screenshot capture.
///
/// `--capture-gallery-screens DIR` renders every gallery fixture state to a
/// PNG in DIR without opening a window; `state` restricts the capture to one
/// gallery state; `keys` are replayed against each state before rendering;
/// `size` overrides the render size.
#[derive(Clone, Debug)]
pub struct GalleryScreenshotCaptureRequest {
    pub output_dir: String,
    pub state: Option<String>,
    pub keys: Vec<String>,
    pub size: Option<CaptureSize>,
}

/// The trimmed, non-empty pieces of `parts`, in order.
pub open spec fn nonempty_trimmed(parts: Seq<Seq<char>>) -> Seq<Seq<char>>
    decreases parts.len(),
{
    if parts.len() == 0 {
        Seq::empty()
    } else if trim(parts.last()).len() == 0 {
        nonempty_trimmed(parts.drop_last())
    } else {
        nonempty_trimmed(parts.drop_last()).push(trim(parts.last()))
    }
}

/// The key names of a comma-separated `--capture-keys` value.
pub open spec fn capture_key_names(spec: Seq<char>) -> Seq<Seq<char>> {
    nonempty_trimmed(split_on(spec, ','))
}

/// `str::split_once`: the text before and after the first `c`.
pub open spec fn split_once(s: Seq<char>, c: char) -> Option<(Seq<char>, Seq<char>)>
    decreases s.len(),
{
    if s.len() == 0 {
        None
    } else if s[0] == c {
        Some((Seq::empty(), s.drop_first()))
    } else {
        match split_once(s.drop_first(), c) {
            Some((a, b)) => Some((seq![s[0]] + a, b)),
            None => None,
        }
    }
}

/// The size a `--capture-size WxH` value gives, when both sides are numbers.
pub open spec fn capture_size_of(spec: Seq<char>) -> Option<(nat, nat)> {
    match split_once(spec, 'x') {
        Some((w, h)) => match (parse_unsigned(trim(w), u32::MAX as nat), parse_unsigned(
            trim(h),
            u32::MAX as nat,
        )) {
            (Some(a), Some(b)) => Some((a, b)),
            _ => None,
        },
        None => None,
    }
}

/// Index of the first `c` in `s`, with what `split_once` makes of `s`.
fn find_char(s: &[char], c: char) -> (r: Option<usize>)
    ensures
        match r {
            Some(i) => i < s@.len() && split_once(s@, c) == Some(
                (s@.take(i as int), s@.skip(i + 1)),
            ),
            None => split_once(s@, c) is None,
        },
{
    let mut i: usize = 0;
    while i < s.len()
        invariant
            i <= s.len(),
            forall|j: int| 0 <= j < i ==> s@[j] != c,
        decreases s.len() - i,
    {
        if s[i] == c {
            proof {
                lemma_split_once_at(s@, c, i as int);
            }
            return Some(i);
        }
        i = i + 1;
    }
    proof {
        lemma_split_once_none(s@, c);
    }
    None
}

proof fn lemma_split_once_at(s: Seq<char>, c: char, i: int)
    requires
        0 <= i < s.len(),
        s[i] == c,
        forall|j: int| 0 <= j < i ==> s[j] != c,
    ensures
        split_once(s, c) == Some((s.take(i), s.skip(i + 1))),
    decreases i,
{
    if i > 0 {
        lemma_split_once_at(s.drop_first(), c, i - 1);
        assert(seq![s[0]] + s.drop_first().take(i - 1) =~= s.take(i));
        assert(s.drop_first().skip(i) =~= s.skip(i + 1));
    } else {
        assert(s.skip(1) =~= s.drop_first());
        assert(s.take(0) =~= Seq::<char>::empty());
    }
}

proof fn lemma_split_once_none(s: Seq<char>, c: char)
    requires
        forall|j: int| 0 <= j < s.len() ==> s[j] != c,
    ensures
        split_once(s, c) is None,
    decreases s.len(),
{
    if s.len() > 0 {
        lemma_split_once_none(s.drop_first(), c);
    }
}

fn capture_size_from(spec: &[char]) -> (r: Option<CaptureSize>)
    ensures
        match capture_size_of(spec@) {
            Some((w, h)) => r == Some(CaptureSize { width: w as u32, height: h as u32 }),
            None => r is None,
        },
{
    match find_char(spec, 'x') {
        None => None,
        Some(i) => {
            let before = crate::text::slice_chars(spec, 0, i);
            let after = crate::text::slice_chars(spec, i + 1, spec.len());
            assert(before@ == spec@.take(i as int));
            assert(after@ == spec@.skip(i + 1));
            let w = trim_chars(before.as_slice());
            let h = trim_chars(after.as_slice());
            let pw = parse_unsigned_chars(w.as_slice(), u32::MAX as u64);
            let ph = parse_unsigned_chars(h.as_slice(), u32::MAX as u64);
            match (pw, ph) {
                (Some(a), Some(b)) => Some(CaptureSize { width: a as u32, height: b as u32 }),
                _ => None,
            }
        },
    }
}

fn capture_keys_from(spec: &[char]) -> (r: Vec<String>)
    ensures
        string_views(r@) == capture_key_names(spec@),
{
    let parts = split_chars(spec, ',');
    let ghost all = split_on(spec@, ',');
    let mut out: Vec<String> = Vec::new();
    let mut i: usize = 0;
    while i < parts.len()
        invariant
            i <= parts.len(),
            all == split_on(spec@, ','),
            parts@.len() == all.len(),
            forall|k: int| 0 <= k < parts@.len() ==> #[trigger] parts@[k]@ == all[k],
            string_views(out@) == nonempty_trimmed(all.take(i as int)),
        decreases parts.len() - i,
    {
        assert(all.take(i + 1).drop_last() == all.take(i as int));
        assert(parts@[i as int]@ == all[i as int]);
        let t = trim_chars(parts[i].as_slice());
        if t.len() > 0 {
            let ghost before = out@;
            out.push(string_from_chars(t.as_slice()));
            assert(string_views(out@) =~= string_views(before).push(t@));
        }
        i = i + 1;
    }
    assert(all.take(parts.len() as int) == all);
    out
}

/// The capture request the arguments make, if they name an output directory.
pub open spec fn capture_request_matches(
    args: Seq<Seq<char>>,
    state: Option<Seq<char>>,
    r: Option<GalleryScreenshotCaptureRequest>,
) -> bool {
    match value_from(args, 0, "--capture-gallery-screens"@) {
        None => r is None,
        Some(dir) => r matches Some(req) && req.output_dir@ == dir && crate::text::opt_view(
            req.state,
        ) == state && string_views(req.keys@) == (match value_from(args, 0, "--capture-keys"@) {
            Some(spec) => capture_key_names(spec),
            None => Seq::empty(),
        }) && (match value_from(args, 0, "--capture-size"@) {
            Some(spec) => match capture_size_of(spec) {
                Some((w, h)) => req.size == Some(CaptureSize { width: w as u32, height: h as u32 }),
                None => req.size is None,
            },
            None => req.size is None,
        }),
    }
}

/// `gallery_screenshot_capture_request`: the request of
/// `--capture-gallery-screens DIR`, with the replayed keys of `--capture-keys`
/// and the size of `--capture-size`; `state` is the gallery state the
/// arguments select.
pub fn gallery_screenshot_capture_request(args: &[String], state: Option<String>) -> (r: Option<
    GalleryScreenshotCaptureRequest,
>)
    ensures
        capture_request_matches(string_views(args@), crate::text::opt_view(state), r),
{
    let output_dir = match flag_value(args, "--capture-gallery-screens") {
        Some(d) => d,
        None => return None,
    };
    let keys = match flag_value(args, "--capture-keys") {
        Some(spec) => {
            let cs = chars_of(spec.as_str());
            capture_keys_from(cs.as_slice())
        },
        None => Vec::new(),
    };
    let size = match flag_value(args, "--capture-size") {
        Some(spec) => {
            let cs = chars_of(spec.as_str());
            capture_size_from(cs.as_slice())
        },
        None => None,
    };
    let ghost key_names = string_views(keys@);
    assert(key_names == (match value_from(string_views(args@), 0, "--capture-keys"@) {
        Some(spec) => capture_key_names(spec),
        None => Seq::empty(),
    }));
    Some(GalleryScreenshotCaptureRequest { output_dir, state, keys, size })
}

// ---------------------------------------------------------------------------
// Help text
// ---------------------------------------------------------------------------

/// The lines of `--help`.
pub open spec fn help_lines() -> Seq<Seq<char>> {
    seq![
        DESKTOP_PRODUCT_NAME@,
        ""@,
        "Usage:"@,
        "  jcode-desktop [OPTIONS]"@,
        ""@,
        "Options:"@,
        "  --fullscreen                 Start borderless fullscreen"@,
        "  --workspace                  Open the workspace prototype instead of the single-session chat"@,
        "  --desktop-process-role ROLE  Internal: standalone, host, or worker"@,
        "  --desktop-host               Internal alias for --desktop-process-role=host"@,
        "  --desktop-app-worker         Internal alias for --desktop-process-role=worker"@,
        "  --startup-log                Print launch timing milestones to stderr"@,
        "  --startup-benchmark          Print launch timings and exit after the first frame"@,
        "  --capture-hero-animation DIR Write deterministic hero animation PNG frames and exit"@,
        "  --capture-gallery-screens DIR Render gallery fixture states to PNGs headlessly and exit"@,
        "  --capture-keys KEYS          With --capture-gallery-screens: comma-separated keys to replay first"@,
        "  --capture-size WxH           With --capture-gallery-screens: render size in pixels"@,
        "  --resize-render-benchmark[N]  Print CPU resize/render benchmark JSON and exit"@,
        "  --scroll-render-benchmark[N]  Print CPU scroll/render benchmark JSON and exit"@,
        "  --real-transcript-scroll-benchmark[N]  Profile scrolling against your real on-disk transcripts and exit"@,
        "  --real-transcript-action-benchmark[N]  Profile mixed user actions (scroll/resize/typing/pickers/selection/streaming) on real transcripts and exit"@,
        "  --stream-e2e-benchmark[N]     Print stream event-to-paint guardrail JSON and exit"@,
        "  --headless-chat-smoke <MSG>  Run a hidden backend smoke test and print JSON events"@,
        "  --headless-chat-smoke=<MSG>  Same as above"@,
        "  -V, --version                Print version information"@,
        "  -h, --help                   Print this help"@,
        ""@
    ]
}

/// `desktop_help_text`: the help lines joined by newlines.
pub fn desktop_help_text() -> (r: String)
    ensures
        r@ == join_with(help_lines(), "\n"@),
{
    let lines: Vec<&'static str> = vec![
        DESKTOP_PRODUCT_NAME,
        "",
        "Usage:",
        "  jcode-desktop [OPTIONS]",
        "",
        "Options:",
        "  --fullscreen                 Start borderless fullscreen",
        "  --workspace                  Open the workspace prototype instead of the single-session chat",
        "  --desktop-process-role ROLE  Internal: standalone, host, or worker",
        "  --desktop-host               Internal alias for --desktop-process-role=host",
        "  --desktop-app-worker         Internal alias for --desktop-process-role=worker",
        "  --startup-log                Print launch timing milestones to stderr",
        "  --startup-benchmark          Print launch timings and exit after the first frame",
        "  --capture-hero-animation DIR Write deterministic hero animation PNG frames and exit",
        "  --capture-gallery-screens DIR Render gallery fixture states to PNGs headlessly and exit",
        "  --capture-keys KEYS          With --capture-gallery-screens: comma-separated keys to replay first",
        "  --capture-size WxH           With --capture-gallery-screens: render size in pixels",
        "  --resize-render-benchmark[N]  Print CPU resize/render benchmark JSON and exit",
        "  --scroll-render-benchmark[N]  Print CPU scroll/render benchmark JSON and exit",
        "  --real-transcript-scroll-benchmark[N]  Profile scrolling against your real on-disk transcripts and exit",
        "  --real-transcript-action-benchmark[N]  Profile mixed user actions (scroll/resize/typing/pickers/selection/streaming) on real transcripts and exit",
        "  --stream-e2e-benchmark[N]     Print stream event-to-paint guardrail JSON and exit",
        "  --headless-chat-smoke <MSG>  Run a hidden backend smoke test and print JSON events",
        "  --headless-chat-smoke=<MSG>  Same as above",
        "  -V, --version                Print version information",
        "  -h, --help                   Print this help",
        "",
    ];
    let ghost all = lines@.map_values(|l: &'static str| l@);
    assert(all =~= help_lines());
    let mut parts: Vec<Vec<char>> = Vec::new();
    let mut i: usize = 0;
    while i < lines.len()
        invariant
            i <= lines.len(),
            all == lines@.map_values(|l: &'static str| l@),
            views(parts@) == all.take(i as int),
        decreases lines.len() - i,
    {
        let ghost before = parts@;
        parts.push(chars_of(lines[i]));
        assert(views(parts@) =~= views(before).push(all[i as int]));
        assert(all.take(i + 1) =~= all.take(i as int).push(all[i as int]));
        i = i + 1;
    }
    assert(all.take(lines.len() as int) == all);
    let sep = chars_of("\n");
    let joined = join_chars(&parts, sep.as_slice());
    string_from_chars(joined.as_slice())
}

} // verus!
