//! Keyboard handling: the window system's keys, the wire form a worker
//! receives, and the binding table that turns a key press into an app action.
use vstd::prelude::*;
use crate::text::{ascii_lower, ascii_lower_char, ascii_lower_char_exec, chars_eq, chars_of, eq_ignore_ascii_case, opt_view};

verus! {

broadcast use vstd::string::group_string_axioms;

/// The named keys the desktop binds.
#[derive(Clone, Copy, Debug, PartialEq, Eq, Structural)]
pub enum NamedKey {
    Escape,
    Space,
    Copy,
    Cut,
    Paste,
    Undo,
    Enter,
    Tab,
    Backspace,
    Delete,
    PageUp,
    PageDown,
    ArrowUp,
    ArrowDown,
    ArrowLeft,
    ArrowRight,
    Home,
    End,
}

/// A logical key as the window system reports it. `Other` is any key the
/// desktop does not bind, carried by its name.
#[derive(Clone, Debug)]
pub enum Key {
    Named(NamedKey),
    Character(String),
    Other(String),
}

/// A key, with its text as characters.
pub enum KeyView {
    Named(NamedKey),
    Character(Seq<char>),
    Other(Seq<char>),
}

impl View for Key {
    type V = KeyView;

    open spec fn view(&self) -> KeyView {
        match self {
            Key::Named(n) => KeyView::Named(*n),
            Key::Character(s) => KeyView::Character(s@),
            Key::Other(s) => KeyView::Other(s@),
        }
    }
}

/// The modifier keys held during a key press.
#[derive(Clone, Copy, Debug, PartialEq, Eq, Structural)]
pub struct ModifiersState {
    pub shift: bool,
    pub control: bool,
    pub alt: bool,
    pub super_key: bool,
}

impl ModifiersState {
    /// No modifier held.
    pub fn empty() -> (r: Self)
        ensures
            r == (ModifiersState { shift: false, control: false, alt: false, super_key: false }),
    {
        ModifiersState { shift: false, control: false, alt: false, super_key: false }
    }
}

/// The modifier flags as they travel between host and worker.
#[derive(Clone, Copy, Debug, Default, PartialEq, Eq, Structural)]
pub struct DesktopKeyModifiers {
    pub shift: bool,
    pub ctrl: bool,
    pub alt: bool,
    pub super_key: bool,
}

/// A key press as it travels between host and worker.
#[derive(Clone, Debug)]
pub struct DesktopKeyEvent {
    pub key: String,
    pub text: Option<String>,
    pub pressed: bool,
    pub modifiers: DesktopKeyModifiers,
}

/// Preset sizes of the side panel.
#[derive(Clone, Copy, Debug, PartialEq, Eq, Structural)]
pub enum PanelSizePreset {
    Quarter,
    Half,
    ThreeQuarter,
    Full,
}

/// What a key press asks the app to do.
#[derive(Clone, Debug)]
pub enum KeyInput {
    Escape,
    Character(String),
    CopyLatestResponse,
    CopyLatestCodeBlock,
    CopyTranscript,
    CutInputLine,
    PasteText,
    UndoInput,
    QueueDraft,
    RetrieveQueuedDraft,
    Enter,
    SubmitDraft,
    CycleModel(i32),
    OpenModelPicker,
    ModelPickerMove(i32),
    CycleReasoningEffort(i32),
    Autocomplete,
    Backspace,
    DeletePreviousWord,
    DeleteNextChar,
    DeleteNextWord,
    DeleteToLineStart,
    DeleteToLineEnd,
    MoveCursorLeft,
    MoveCursorRight,
    MoveCursorWordLeft,
    MoveCursorWordRight,
    MoveToLineStart,
    MoveToLineEnd,
    ScrollBodyLines(i32),
    ScrollBodyPages(i32),
    ScrollBodyToTop,
    ScrollBodyToBottom,
    JumpPrompt(i32),
    CancelGeneration,
    ExitApp,
    SpawnSelfDevSession,
    SpawnHomeSession,
    SpawnPanel,
    HotkeyHelp,
    ToggleSessionInfo,
    OpenSessionSwitcher,
    RefreshSessions,
    AdjustTextScale(i32),
    ResetTextScale,
    ClearAttachedImages,
    AttachClipboardImage,
    SetPanelSize(PanelSizePreset),
    Other,
}

// ---------------------------------------------------------------------------
// The binding table
// ---------------------------------------------------------------------------

/// `text.eq_ignore_ascii_case(c)`.
pub open spec fn ci(text: Seq<char>, c: char) -> bool {
    eq_ignore_ascii_case(text, seq![c])
}

/// `text == c`.
pub open spec fn is_text(text: Seq<char>, c: char) -> bool {
    text == seq![c]
}

/// Control, Alt or Super: the modifiers that turn a letter into a shortcut.
pub open spec fn clipboard_modifier(m: ModifiersState) -> bool {
    m.control || m.alt || m.super_key
}

/// The action of a named key.
pub open spec fn named_key_action(n: NamedKey, m: ModifiersState) -> KeyInput {
    let c = m.control;
    let s = m.shift;
    let a = m.alt;
    match n {
        NamedKey::Escape => KeyInput::Escape,
        NamedKey::Space => KeyInput::Other,
        NamedKey::Copy => KeyInput::CopyLatestResponse,
        NamedKey::Cut => KeyInput::CutInputLine,
        NamedKey::Paste => KeyInput::PasteText,
        NamedKey::Undo => KeyInput::UndoInput,
        NamedKey::Enter => if c {
            KeyInput::QueueDraft
        } else if s || a {
            KeyInput::Enter
        } else {
            KeyInput::SubmitDraft
        },
        NamedKey::Tab => if c && s {
            KeyInput::CycleModel(-1i32)
        } else if c {
            KeyInput::CycleModel(1i32)
        } else {
            KeyInput::Autocomplete
        },
        NamedKey::Backspace => if clipboard_modifier(m) {
            KeyInput::DeletePreviousWord
        } else {
            KeyInput::Backspace
        },
        NamedKey::Delete => KeyInput::DeleteNextChar,
        NamedKey::PageUp => KeyInput::ScrollBodyPages(1i32),
        NamedKey::PageDown => KeyInput::ScrollBodyPages(-1i32),
        NamedKey::ArrowUp => if c {
            KeyInput::RetrieveQueuedDraft
        } else if a {
            KeyInput::JumpPrompt(-1i32)
        } else {
            KeyInput::ModelPickerMove(-1i32)
        },
        NamedKey::ArrowDown => if a {
            KeyInput::JumpPrompt(1i32)
        } else {
            KeyInput::ModelPickerMove(1i32)
        },
        NamedKey::ArrowLeft => if a {
            KeyInput::CycleReasoningEffort(-1i32)
        } else if c {
            KeyInput::MoveCursorWordLeft
        } else {
            KeyInput::MoveCursorLeft
        },
        NamedKey::ArrowRight => if a {
            KeyInput::CycleReasoningEffort(1i32)
        } else if c {
            KeyInput::MoveCursorWordRight
        } else {
            KeyInput::MoveCursorRight
        },
        NamedKey::Home => if c {
            KeyInput::ScrollBodyToTop
        } else {
            KeyInput::MoveToLineStart
        },
        NamedKey::End => if c {
            KeyInput::ScrollBodyToBottom
        } else {
            KeyInput::MoveToLineEnd
        },
    }
}

/// The shortcut a character key gives with modifiers held; `None` when the
/// key types its text.
pub open spec fn character_shortcut(t: Seq<char>, m: ModifiersState) -> Option<KeyInput> {
    let c = m.control;
    let s = m.shift;
    let a = m.alt;
    let u = m.super_key;
    let clip = clipboard_modifier(m);
    if c && ci(t, 'a') {
        Some(KeyInput::MoveToLineStart)
    } else if c && ci(t, 'e') {
        Some(KeyInput::MoveToLineEnd)
    } else if c && ci(t, 'b') {
        Some(KeyInput::MoveCursorWordLeft)
    } else if c && ci(t, 'f') {
        Some(KeyInput::MoveCursorWordRight)
    } else if c && ci(t, 'u') {
        Some(KeyInput::DeleteToLineStart)
    } else if clip && s && ci(t, 'k') {
        Some(KeyInput::CopyLatestCodeBlock)
    } else if c && ci(t, 'k') {
        Some(KeyInput::DeleteToLineEnd)
    } else if c && ci(t, 'w') {
        Some(KeyInput::DeletePreviousWord)
    } else if clip && ci(t, 'x') {
        Some(KeyInput::CutInputLine)
    } else if clip && ci(t, 'z') {
        Some(KeyInput::UndoInput)
    } else if clip && s && ci(t, 'c') {
        Some(KeyInput::CopyLatestResponse)
    } else if clip && s && ci(t, 't') {
        Some(KeyInput::CopyTranscript)
    } else if c && (ci(t, 'c') || ci(t, 'd')) {
        Some(KeyInput::CancelGeneration)
    } else if u && ci(t, 'c') {
        Some(KeyInput::CopyLatestResponse)
    } else if a && ci(t, 'b') {
        Some(KeyInput::MoveCursorWordLeft)
    } else if a && ci(t, 'f') {
        Some(KeyInput::MoveCursorWordRight)
    } else if a && ci(t, 'd') {
        Some(KeyInput::DeleteNextWord)
    } else if a && ci(t, 'v') {
        Some(KeyInput::PasteText)
    } else if c && is_text(t, '[') {
        Some(KeyInput::JumpPrompt(-1i32))
    } else if c && is_text(t, ']') {
        Some(KeyInput::JumpPrompt(1i32))
    } else if u && ci(t, 'k') {
        Some(KeyInput::JumpPrompt(-1i32))
    } else if u && ci(t, 'j') {
        Some(KeyInput::JumpPrompt(1i32))
    } else if (c || u) && ci(t, 'q') {
        Some(KeyInput::ExitApp)
    } else if u && is_text(t, ';') {
        Some(KeyInput::SpawnSelfDevSession)
    } else if u && is_text(t, '\'') {
        Some(KeyInput::SpawnHomeSession)
    } else if c && is_text(t, ';') {
        Some(KeyInput::SpawnPanel)
    } else if c && (is_text(t, '?') || is_text(t, '/')) {
        Some(KeyInput::HotkeyHelp)
    } else if c && s && ci(t, 's') {
        Some(KeyInput::ToggleSessionInfo)
    } else if c && (ci(t, 'p') || ci(t, 'o')) {
        Some(KeyInput::OpenSessionSwitcher)
    } else if c && ci(t, 'r') {
        Some(KeyInput::RefreshSessions)
    } else if c && (is_text(t, '-') || is_text(t, '_')) {
        Some(KeyInput::AdjustTextScale(-1i32))
    } else if c && (is_text(t, '=') || is_text(t, '+')) {
        Some(KeyInput::AdjustTextScale(1i32))
    } else if c && is_text(t, '0') {
        Some(KeyInput::ResetTextScale)
    } else if clip && ci(t, 'v') {
        Some(KeyInput::PasteText)
    } else if c && s && ci(t, 'i') {
        Some(KeyInput::ClearAttachedImages)
    } else if c && ci(t, 'i') {
        Some(KeyInput::AttachClipboardImage)
    } else if c && s && ci(t, 'm') {
        Some(KeyInput::OpenModelPicker)
    } else if c && ci(t, 'm') {
        Some(KeyInput::CycleModel(1i32))
    } else if c && ci(t, 'n') {
        Some(KeyInput::CycleModel(-1i32))
    } else if c && is_text(t, '1') {
        Some(KeyInput::SetPanelSize(PanelSizePreset::Quarter))
    } else if c && is_text(t, '2') {
        Some(KeyInput::SetPanelSize(PanelSizePreset::Half))
    } else if c && is_text(t, '3') {
        Some(KeyInput::SetPanelSize(PanelSizePreset::ThreeQuarter))
    } else if c && is_text(t, '4') {
        Some(KeyInput::SetPanelSize(PanelSizePreset::Full))
    } else if clip {
        Some(KeyInput::Other)
    } else {
        None
    }
}

/// The text a key press types, when it types any: a space for the space
/// key, the character's text when no shortcut modifier is held.
pub open spec fn key_typed_text(key: KeyView, m: ModifiersState) -> Option<Seq<char>> {
    match key {
        KeyView::Named(NamedKey::Space) => Some(seq![' ']),
        KeyView::Character(t) => if character_shortcut(t, m) is None {
            Some(t)
        } else {
            None
        },
        _ => None,
    }
}

/// The action of a key press that types no text.
pub open spec fn key_command(key: KeyView, m: ModifiersState) -> KeyInput {
    match key {
        KeyView::Named(n) => named_key_action(n, m),
        KeyView::Character(t) => match character_shortcut(t, m) {
            Some(action) => action,
            None => KeyInput::Other,
        },
        KeyView::Other(_) => KeyInput::Other,
    }
}

/// `r` is what the binding table gives for `key` with `m` held.
pub open spec fn key_input_is(r: KeyInput, key: KeyView, m: ModifiersState) -> bool {
    match key_typed_text(key, m) {
        Some(t) => r matches KeyInput::Character(s) && s@ == t,
        None => r == key_command(key, m),
    }
}

proof fn lemma_ci_single(t: Seq<char>)
    ensures
        forall|c: char|
            !('A' <= c && c <= 'Z') ==> (#[trigger] ci(t, c) <==> (t.len() == 1
                && ascii_lower_char(t[0]) == c)),
{
    assert forall|c: char| !('A' <= c && c <= 'Z') implies (#[trigger] ci(t, c) <==> (t.len() == 1
        && ascii_lower_char(t[0]) == c)) by {
        assert(ascii_lower(seq![c]) =~= seq![c]);
        assert(ascii_lower(t).len() == t.len());
        if t.len() == 1 {
            assert(ascii_lower(t)[0] == ascii_lower_char(t[0]));
            assert(ascii_lower(t) =~= seq![ascii_lower_char(t[0])]);
        }
    }
}

/// `desktop_clipboard_shortcut_modifier`: Control, Alt or Super is held.
pub fn desktop_clipboard_shortcut_modifier(modifiers: ModifiersState) -> (r: bool)
    ensures
        r == clipboard_modifier(modifiers),
{
    modifiers.control || modifiers.alt || modifiers.super_key
}

fn named_key_input(n: NamedKey, m: ModifiersState) -> (r: KeyInput)
    requires
        n != NamedKey::Space,
    ensures
        r == named_key_action(n, m),
{
    let c = m.control;
    let s = m.shift;
    let a = m.alt;
    match n {
        NamedKey::Escape => KeyInput::Escape,
        NamedKey::Space => KeyInput::Other,
        NamedKey::Copy => KeyInput::CopyLatestResponse,
        NamedKey::Cut => KeyInput::CutInputLine,
        NamedKey::Paste => KeyInput::PasteText,
        NamedKey::Undo => KeyInput::UndoInput,
        NamedKey::Enter => if c {
            KeyInput::QueueDraft
        } else if s || a {
            KeyInput::Enter
        } else {
            KeyInput::SubmitDraft
        },
        NamedKey::Tab => if c && s {
            KeyInput::CycleModel(-1i32)
        } else if c {
            KeyInput::CycleModel(1i32)
        } else {
            KeyInput::Autocomplete
        },
        NamedKey::Backspace => if desktop_clipboard_shortcut_modifier(m) {
            KeyInput::DeletePreviousWord
        } else {
            KeyInput::Backspace
        },
        NamedKey::Delete => KeyInput::DeleteNextChar,
        NamedKey::PageUp => KeyInput::ScrollBodyPages(1i32),
        NamedKey::PageDown => KeyInput::ScrollBodyPages(-1i32),
        NamedKey::ArrowUp => if c {
            KeyInput::RetrieveQueuedDraft
        } else if a {
            KeyInput::JumpPrompt(-1i32)
        } else {
            KeyInput::ModelPickerMove(-1i32)
        },
        NamedKey::ArrowDown => if a {
            KeyInput::JumpPrompt(1i32)
        } else {
            KeyInput::ModelPickerMove(1i32)
        },
        NamedKey::ArrowLeft => if a {
            KeyInput::CycleReasoningEffort(-1i32)
        } else if c {
            KeyInput::MoveCursorWordLeft
        } else {
            KeyInput::MoveCursorLeft
        },
        NamedKey::ArrowRight => if a {
            KeyInput::CycleReasoningEffort(1i32)
        } else if c {
            KeyInput::MoveCursorWordRight
        } else {
            KeyInput::MoveCursorRight
        },
        NamedKey::Home => if c {
            KeyInput::ScrollBodyToTop
        } else {
            KeyInput::MoveToLineStart
        },
        NamedKey::End => if c {
            KeyInput::ScrollBodyToBottom
        } else {
            KeyInput::MoveToLineEnd
        },
    }
}

#[verifier::rlimit(60)]
fn character_key_shortcut(text: &str, m: ModifiersState) -> (r: Option<KeyInput>)
    ensures
        r == character_shortcut(text@, m),
{
    let t = chars_of(text);
    let one = t.len() == 1;
    let first: char = if one {
        t[0]
    } else {
        '\0'
    };
    let lc: char = ascii_lower_char_exec(first);
    proof {
        lemma_ci_single(text@);
        assert(one ==> text@ == seq![first]);
    }
    let c = m.control;
    let s = m.shift;
    let a = m.alt;
    let u = m.super_key;
    let clip = desktop_clipboard_shortcut_modifier(m);
    let l = |x: char| -> (b: bool)
        ensures
            !('A' <= x && x <= 'Z') ==> b == ci(text@, x),
        { one && lc == x };
    let e = |x: char| -> (b: bool)
        ensures
            b == is_text(text@, x),
        { one && first == x };
    if c && l('a') {
        Some(KeyInput::MoveToLineStart)
    } else if c && l('e') {
        Some(KeyInput::MoveToLineEnd)
    } else if c && l('b') {
        Some(KeyInput::MoveCursorWordLeft)
    } else if c && l('f') {
        Some(KeyInput::MoveCursorWordRight)
    } else if c && l('u') {
        Some(KeyInput::DeleteToLineStart)
    } else if clip && s && l('k') {
        Some(KeyInput::CopyLatestCodeBlock)
    } else if c && l('k') {
        Some(KeyInput::DeleteToLineEnd)
    } else if c && l('w') {
        Some(KeyInput::DeletePreviousWord)
    } else if clip && l('x') {
        Some(KeyInput::CutInputLine)
    } else if clip && l('z') {
        Some(KeyInput::UndoInput)
    } else if clip && s && l('c') {
        Some(KeyInput::CopyLatestResponse)
    } else if clip && s && l('t') {
        Some(KeyInput::CopyTranscript)
    } else if c && (l('c') || l('d')) {
        Some(KeyInput::CancelGeneration)
    } else if u && l('c') {
        Some(KeyInput::CopyLatestResponse)
    } else if a && l('b') {
        Some(KeyInput::MoveCursorWordLeft)
    } else if a && l('f') {
        Some(KeyInput::MoveCursorWordRight)
    } else if a && l('d') {
        Some(KeyInput::DeleteNextWord)
    } else if a && l('v') {
        Some(KeyInput::PasteText)
    } else if c && e('[') {
        Some(KeyInput::JumpPrompt(-1i32))
    } else if c && e(']') {
        Some(KeyInput::JumpPrompt(1i32))
    } else if u && l('k') {
        Some(KeyInput::JumpPrompt(-1i32))
    } else if u && l('j') {
        Some(KeyInput::JumpPrompt(1i32))
    } else if (c || u) && l('q') {
        Some(KeyInput::ExitApp)
    } else if u && e(';') {
        Some(KeyInput::SpawnSelfDevSession)
    } else if u && e('\'') {
        Some(KeyInput::SpawnHomeSession)
    } else if c && e(';') {
        Some(KeyInput::SpawnPanel)
    } else if c && (e('?') || e('/')) {
        Some(KeyInput::HotkeyHelp)
    } else if c && s && l('s') {
        Some(KeyInput::ToggleSessionInfo)
    } else if c && (l('p') || l('o')) {
        Some(KeyInput::OpenSessionSwitcher)
    } else if c && l('r') {
        Some(KeyInput::RefreshSessions)
    } else if c && (e('-') || e('_')) {
        Some(KeyInput::AdjustTextScale(-1i32))
    } else if c && (e('=') || e('+')) {
        Some(KeyInput::AdjustTextScale(1i32))
    } else if c && e('0') {
        Some(KeyInput::ResetTextScale)
    } else if clip && l('v') {
        Some(KeyInput::PasteText)
    } else if c && s && l('i') {
        Some(KeyInput::ClearAttachedImages)
    } else if c && l('i') {
        Some(KeyInput::AttachClipboardImage)
    } else if c && s && l('m') {
        Some(KeyInput::OpenModelPicker)
    } else if c && l('m') {
        Some(KeyInput::CycleModel(1i32))
    } else if c && l('n') {
        Some(KeyInput::CycleModel(-1i32))
    } else if c && e('1') {
        Some(KeyInput::SetPanelSize(PanelSizePreset::Quarter))
    } else if c && e('2') {
        Some(KeyInput::SetPanelSize(PanelSizePreset::Half))
    } else if c && e('3') {
        Some(KeyInput::SetPanelSize(PanelSizePreset::ThreeQuarter))
    } else if c && e('4') {
        Some(KeyInput::SetPanelSize(PanelSizePreset::Full))
    } else if clip {
        Some(KeyInput::Other)
    } else {
        None
    }
}

/// `to_key_input`: the app action of pressing `key` with `modifiers` held.
pub fn to_key_input(key: &Key, modifiers: ModifiersState) -> (r: KeyInput)
    ensures
        key_input_is(r, key@, modifiers),
        key@ == KeyView::Named(NamedKey::PageUp) ==> r == KeyInput::ScrollBodyPages(1i32),
        key@ == KeyView::Named(NamedKey::PageDown) ==> r == KeyInput::ScrollBodyPages(-1i32),
{
    match key {
        Key::Named(NamedKey::Space) => {
            let mut s = String::new();
            crate::text::push_char(&mut s, ' ');
            KeyInput::Character(s)
        },
        Key::Named(n) => named_key_input(*n, modifiers),
        Key::Character(text) => match character_key_shortcut(text.as_str(), modifiers) {
            Some(action) => action,
            None => KeyInput::Character(text.clone()),
        },
        Key::Other(_) => KeyInput::Other,
    }
}

/// `is_space_key`: the space key, or a character key whose text is a space.
pub fn is_space_key(key: &Key) -> (r: bool)
    ensures
        r == (key@ == KeyView::Named(NamedKey::Space) || key@ == KeyView::Character(seq![' '])),
{
    match key {
        Key::Named(NamedKey::Space) => true,
        Key::Character(text) => {
            let t = chars_of(text.as_str());
            let r = t.len() == 1 && t[0] == ' ';
            proof {
                if r {
                    assert(t@ =~= seq![' ']);
                }
            }
            r
        },
        _ => false,
    }
}

// ---------------------------------------------------------------------------
// Host/worker wire form of a key press
// ---------------------------------------------------------------------------

/// The name a named key travels under (its `Debug` name).
pub open spec fn named_key_name(n: NamedKey) -> Seq<char> {
    match n {
        NamedKey::Escape => "Escape"@,
        NamedKey::Space => "Space"@,
        NamedKey::Copy => "Copy"@,
        NamedKey::Cut => "Cut"@,
        NamedKey::Paste => "Paste"@,
        NamedKey::Undo => "Undo"@,
        NamedKey::Enter => "Enter"@,
        NamedKey::Tab => "Tab"@,
        NamedKey::Backspace => "Backspace"@,
        NamedKey::Delete => "Delete"@,
        NamedKey::PageUp => "PageUp"@,
        NamedKey::PageDown => "PageDown"@,
        NamedKey::ArrowUp => "ArrowUp"@,
        NamedKey::ArrowDown => "ArrowDown"@,
        NamedKey::ArrowLeft => "ArrowLeft"@,
        NamedKey::ArrowRight => "ArrowRight"@,
        NamedKey::Home => "Home"@,
        NamedKey::End => "End"@,
    }
}

/// The named key a worker recognises by name.
pub open spec fn wire_named_key(name: Seq<char>) -> Option<NamedKey> {
    if name == "Escape"@ {
        Some(NamedKey::Escape)
    } else if name == "Enter"@ {
        Some(NamedKey::Enter)
    } else if name == "Tab"@ {
        Some(NamedKey::Tab)
    } else if name == "Backspace"@ {
        Some(NamedKey::Backspace)
    } else if name == "Delete"@ {
        Some(NamedKey::Delete)
    } else if name == "PageUp"@ {
        Some(NamedKey::PageUp)
    } else if name == "PageDown"@ {
        Some(NamedKey::PageDown)
    } else if name == "ArrowUp"@ {
        Some(NamedKey::ArrowUp)
    } else if name == "ArrowDown"@ {
        Some(NamedKey::ArrowDown)
    } else if name == "ArrowLeft"@ {
        Some(NamedKey::ArrowLeft)
    } else if name == "ArrowRight"@ {
        Some(NamedKey::ArrowRight)
    } else if name == "Home"@ {
        Some(NamedKey::Home)
    } else if name == "End"@ {
        Some(NamedKey::End)
    } else if name == "Space"@ {
        Some(NamedKey::Space)
    } else {
        None
    }
}

/// The key a worker rebuilds from a key name and its text: a recognised
/// name gives the named key, anything else a character key typing `text`
/// (or the name itself when there is no text).
pub open spec fn key_from_wire(name: Seq<char>, text: Option<Seq<char>>) -> KeyView {
    match wire_named_key(name) {
        Some(n) => KeyView::Named(n),
        None => KeyView::Character(
            match text {
                Some(t) => t,
                None => name,
            },
        ),
    }
}

/// The name a key travels under.
pub open spec fn key_name(k: KeyView) -> Seq<char> {
    match k {
        KeyView::Named(n) => named_key_name(n),
        KeyView::Character(v) => v,
        KeyView::Other(name) => name,
    }
}

/// The text a key travels with.
pub open spec fn key_text(k: KeyView) -> Option<Seq<char>> {
    match k {
        KeyView::Character(v) => Some(v),
        _ => None,
    }
}

pub open spec fn modifiers_to_wire(m: ModifiersState) -> DesktopKeyModifiers {
    DesktopKeyModifiers { shift: m.shift, ctrl: m.control, alt: m.alt, super_key: m.super_key }
}

pub open spec fn modifiers_from_wire(m: DesktopKeyModifiers) -> ModifiersState {
    ModifiersState { shift: m.shift, control: m.ctrl, alt: m.alt, super_key: m.super_key }
}

pub open spec fn str_opt_view(o: Option<&str>) -> Option<Seq<char>> {
    match o {
        Some(t) => Some(t@),
        None => None,
    }
}

fn text_is(a: &Vec<char>, lit: &str) -> (r: bool)
    ensures
        r == (a@ == lit@),
{
    let b = chars_of(lit);
    chars_eq(a.as_slice(), b.as_slice())
}

/// `desktop_key_string_to_winit_key`: the key a worker rebuilds from the wire.
pub fn desktop_key_string_to_winit_key(key: &str, text: Option<&str>) -> (r: Key)
    ensures
        r@ == key_from_wire(key@, str_opt_view(text)),
{
    let k = chars_of(key);
    if text_is(&k, "Escape") {
        Key::Named(NamedKey::Escape)
    } else if text_is(&k, "Enter") {
        Key::Named(NamedKey::Enter)
    } else if text_is(&k, "Tab") {
        Key::Named(NamedKey::Tab)
    } else if text_is(&k, "Backspace") {
        Key::Named(NamedKey::Backspace)
    } else if text_is(&k, "Delete") {
        Key::Named(NamedKey::Delete)
    } else if text_is(&k, "PageUp") {
        Key::Named(NamedKey::PageUp)
    } else if text_is(&k, "PageDown") {
        Key::Named(NamedKey::PageDown)
    } else if text_is(&k, "ArrowUp") {
        Key::Named(NamedKey::ArrowUp)
    } else if text_is(&k, "ArrowDown") {
        Key::Named(NamedKey::ArrowDown)
    } else if text_is(&k, "ArrowLeft") {
        Key::Named(NamedKey::ArrowLeft)
    } else if text_is(&k, "ArrowRight") {
        Key::Named(NamedKey::ArrowRight)
    } else if text_is(&k, "Home") {
        Key::Named(NamedKey::Home)
    } else if text_is(&k, "End") {
        Key::Named(NamedKey::End)
    } else if text_is(&k, "Space") {
        Key::Named(NamedKey::Space)
    } else {
        let chosen: &str = match text {
            Some(t) => t,
            None => key,
        };
        Key::Character(chosen.to_string())
    }
}

/// `desktop_key_modifiers_to_winit`: the modifier state of wire flags.
pub fn desktop_key_modifiers_to_winit(modifiers: DesktopKeyModifiers) -> (r: ModifiersState)
    ensures
        r == modifiers_from_wire(modifiers),
{
    let mut state = ModifiersState::empty();
    if modifiers.shift {
        state.shift = true;
    }
    if modifiers.ctrl {
        state.control = true;
    }
    if modifiers.alt {
        state.alt = true;
    }
    if modifiers.super_key {
        state.super_key = true;
    }
    state
}

/// `desktop_key_modifiers`: the wire flags of a modifier state.
pub fn desktop_key_modifiers(modifiers: ModifiersState) -> (r: DesktopKeyModifiers)
    ensures
        r == modifiers_to_wire(modifiers),
{
    DesktopKeyModifiers {
        shift: modifiers.shift,
        ctrl: modifiers.control,
        alt: modifiers.alt,
        super_key: modifiers.super_key,
    }
}

/// `desktop_key_name`: the name a key travels under.
pub fn desktop_key_name(key: &Key) -> (r: String)
    ensures
        r@ == key_name(key@),
{
    match key {
        Key::Character(value) => value.clone(),
        Key::Other(name) => name.clone(),
        Key::Named(named) => {
            let s: &str = match named {
                NamedKey::Escape => "Escape",
                NamedKey::Space => "Space",
                NamedKey::Copy => "Copy",
                NamedKey::Cut => "Cut",
                NamedKey::Paste => "Paste",
                NamedKey::Undo => "Undo",
                NamedKey::Enter => "Enter",
                NamedKey::Tab => "Tab",
                NamedKey::Backspace => "Backspace",
                NamedKey::Delete => "Delete",
                NamedKey::PageUp => "PageUp",
                NamedKey::PageDown => "PageDown",
                NamedKey::ArrowUp => "ArrowUp",
                NamedKey::ArrowDown => "ArrowDown",
                NamedKey::ArrowLeft => "ArrowLeft",
                NamedKey::ArrowRight => "ArrowRight",
                NamedKey::Home => "Home",
                NamedKey::End => "End",
            };
            s.to_string()
        },
    }
}

/// `desktop_key_text`: the text of a character key.
pub fn desktop_key_text(key: &Key) -> (r: Option<String>)
    ensures
        opt_view(r) == key_text(key@),
{
    match key {
        Key::Character(value) => Some(value.clone()),
        _ => None,
    }
}

/// `desktop_key_event_from_winit`: the wire form of a key press.
pub fn desktop_key_event_from_winit(key: &Key, modifiers: ModifiersState, pressed: bool) -> (r:
    DesktopKeyEvent)
    ensures
        r.key@ == key_name(key@),
        opt_view(r.text) == key_text(key@),
        r.pressed == pressed,
        r.modifiers == modifiers_to_wire(modifiers),
{
    DesktopKeyEvent {
        key: desktop_key_name(key),
        text: desktop_key_text(key),
        pressed,
        modifiers: desktop_key_modifiers(modifiers),
    }
}

/// `desktop_key_event_to_key_input`: the app action of a key press received
/// from the host.
pub fn desktop_key_event_to_key_input(event: &DesktopKeyEvent) -> (r: KeyInput)
    ensures
        key_input_is(
            r,
            key_from_wire(event.key@, opt_view(event.text)),
            modifiers_from_wire(event.modifiers),
        ),
{
    let modifiers = desktop_key_modifiers_to_winit(event.modifiers);
    let text: Option<&str> = match &event.text {
        Some(t) => Some(t.as_str()),
        None => None,
    };
    let key = desktop_key_string_to_winit_key(event.key.as_str(), text);
    to_key_input(&key, modifiers)
}

/// The keys whose wire form rebuilds them: named keys a worker recognises by
/// name, and character keys whose text is not such a name.
pub open spec fn key_survives_wire(k: KeyView) -> bool {
    match k {
        KeyView::Named(n) => wire_named_key(named_key_name(n)) == Some(n),
        KeyView::Character(v) => wire_named_key(v) is None,
        KeyView::Other(_) => false,
    }
}

/// Sending a key press to a worker and rebuilding it there gives back the
/// key and the modifiers, so the worker binds it as the host would; of the
/// named keys, every one but copy, cut, paste and undo survives.
pub proof fn lemma_key_event_round_trip(k: KeyView, m: ModifiersState)
    requires
        key_survives_wire(k),
    ensures
        key_from_wire(key_name(k), key_text(k)) == k,
        modifiers_from_wire(modifiers_to_wire(m)) == m,
        forall|r: KeyInput|
            key_input_is(r, key_from_wire(key_name(k), key_text(k)), modifiers_from_wire(
                modifiers_to_wire(m),
            )) <==> key_input_is(r, k, m),
{
}

/// The named keys that survive the wire.
pub proof fn lemma_named_keys_on_wire(n: NamedKey)
    ensures
        key_survives_wire(KeyView::Named(n)) <==> !(n == NamedKey::Copy || n == NamedKey::Cut
            || n == NamedKey::Paste || n == NamedKey::Undo),
{
    reveal_strlit("Escape");
    reveal_strlit("Space");
    reveal_strlit("Copy");
    reveal_strlit("Cut");
    reveal_strlit("Paste");
    reveal_strlit("Undo");
    reveal_strlit("Enter");
    reveal_strlit("Tab");
    reveal_strlit("Backspace");
    reveal_strlit("Delete");
    reveal_strlit("PageUp");
    reveal_strlit("PageDown");
    reveal_strlit("ArrowUp");
    reveal_strlit("ArrowDown");
    reveal_strlit("ArrowLeft");
    reveal_strlit("ArrowRight");
    reveal_strlit("Home");
    reveal_strlit("End");
    assert("Escape"@.len() == 6);
    assert("Space"@.len() == 5);
    assert("Copy"@.len() == 4);
    assert("Cut"@.len() == 3);
    assert("Paste"@.len() == 5);
    assert("Undo"@.len() == 4);
    assert("Enter"@.len() == 5);
    assert("Tab"@.len() == 3);
    assert("Backspace"@.len() == 9);
    assert("Delete"@.len() == 6);
    assert("PageUp"@.len() == 6);
    assert("PageDown"@.len() == 8);
    assert("ArrowUp"@.len() == 7);
    assert("ArrowDown"@.len() == 9);
    assert("ArrowLeft"@.len() == 9);
    assert("ArrowRight"@.len() == 10);
    assert("Home"@.len() == 4);
    assert("End"@.len() == 3);
    match n {
        NamedKey::Copy => {
            assert("Copy"@[0] != "Home"@[0]);
        },
        NamedKey::Cut => {
            assert("Cut"@[0] != "Tab"@[0] && "Cut"@[0] != "End"@[0]);
        },
        NamedKey::Paste => {
            assert("Paste"@[0] != "Enter"@[0] && "Paste"@[0] != "Space"@[0]);
        },
        NamedKey::Undo => {
            assert("Undo"@[0] != "Home"@[0]);
        },
        NamedKey::Delete => {
            assert("Delete"@[0] != "Escape"@[0]);
        },
        NamedKey::PageUp => {
            assert("PageUp"@[0] != "Escape"@[0] && "PageUp"@[0] != "Delete"@[0]);
        },
        NamedKey::Space => {
            assert("Space"@[0] != "Enter"@[0]);
        },
        NamedKey::End => {
            assert("End"@[0] != "Tab"@[0]);
        },
        NamedKey::ArrowDown => {
            assert("ArrowDown"@[0] != "Backspace"@[0]);
        },
        NamedKey::ArrowLeft => {
            assert("ArrowLeft"@[0] != "Backspace"@[0] && "ArrowLeft"@[5] != "ArrowDown"@[5]);
        },
        _ => {},
    }
}

/// Page Up and Page Down scroll the body a page in opposite directions,
/// whatever modifiers are held: Page Up one page back (`1`), Page Down one
/// page forward (`-1`).
pub proof fn lemma_page_keys_scroll_opposite(m: ModifiersState, up: KeyInput, down: KeyInput)
    requires
        key_input_is(up, KeyView::Named(NamedKey::PageUp), m),
        key_input_is(down, KeyView::Named(NamedKey::PageDown), m),
    ensures
        up == KeyInput::ScrollBodyPages(1i32),
        down == KeyInput::ScrollBodyPages(-1i32),
        up matches KeyInput::ScrollBodyPages(a) && down matches KeyInput::ScrollBodyPages(b) && a
            == -b,
{
}

} // verus!
