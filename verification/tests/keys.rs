use jcode_desktop_core::keys::{
    desktop_clipboard_shortcut_modifier, desktop_key_event_from_winit,
    desktop_key_event_to_key_input, desktop_key_modifiers, desktop_key_modifiers_to_winit,
    desktop_key_name, desktop_key_string_to_winit_key, desktop_key_text, is_space_key,
    to_key_input, DesktopKeyEvent, DesktopKeyModifiers, Key, KeyInput, ModifiersState, NamedKey,
    PanelSizePreset,
};

fn mods(shift: bool, control: bool, alt: bool, super_key: bool) -> ModifiersState {
    ModifiersState {
        shift,
        control,
        alt,
        super_key,
    }
}

fn none() -> ModifiersState {
    ModifiersState::empty()
}

fn ctrl() -> ModifiersState {
    mods(false, true, false, false)
}

fn ch(text: &str) -> Key {
    Key::Character(text.to_string())
}

fn is_character(input: &KeyInput, text: &str) -> bool {
    matches!(input, KeyInput::Character(value) if value == text)
}

#[test]
fn named_keys_map_to_editing_actions() {
    assert!(matches!(to_key_input(&Key::Named(NamedKey::Escape), none()), KeyInput::Escape));
    assert!(is_character(&to_key_input(&Key::Named(NamedKey::Space), ctrl()), " "));
    assert!(matches!(to_key_input(&Key::Named(NamedKey::Enter), none()), KeyInput::SubmitDraft));
    assert!(matches!(to_key_input(&Key::Named(NamedKey::Enter), ctrl()), KeyInput::QueueDraft));
    assert!(matches!(
        to_key_input(&Key::Named(NamedKey::Enter), mods(true, false, false, false)),
        KeyInput::Enter
    ));
    assert!(matches!(
        to_key_input(&Key::Named(NamedKey::Tab), mods(true, true, false, false)),
        KeyInput::CycleModel(-1)
    ));
    assert!(matches!(to_key_input(&Key::Named(NamedKey::Tab), ctrl()), KeyInput::CycleModel(1)));
    assert!(matches!(to_key_input(&Key::Named(NamedKey::Tab), none()), KeyInput::Autocomplete));
    assert!(matches!(
        to_key_input(&Key::Named(NamedKey::Backspace), mods(false, false, true, false)),
        KeyInput::DeletePreviousWord
    ));
    assert!(matches!(to_key_input(&Key::Named(NamedKey::PageUp), none()), KeyInput::ScrollBodyPages(1)));
    assert!(matches!(
        to_key_input(&Key::Named(NamedKey::ArrowUp), mods(false, false, true, false)),
        KeyInput::JumpPrompt(-1)
    ));
    assert!(matches!(to_key_input(&Key::Named(NamedKey::ArrowUp), ctrl()), KeyInput::RetrieveQueuedDraft));
    assert!(matches!(
        to_key_input(&Key::Named(NamedKey::ArrowLeft), mods(false, true, true, false)),
        KeyInput::CycleReasoningEffort(-1)
    ));
    assert!(matches!(to_key_input(&Key::Named(NamedKey::Home), ctrl()), KeyInput::ScrollBodyToTop));
    assert!(matches!(to_key_input(&Key::Named(NamedKey::End), none()), KeyInput::MoveToLineEnd));
    assert!(matches!(to_key_input(&Key::Named(NamedKey::Copy), none()), KeyInput::CopyLatestResponse));
    assert!(matches!(to_key_input(&Key::Other("F5".to_string()), ctrl()), KeyInput::Other));
}

#[test]
fn character_shortcuts_follow_the_binding_table() {
    assert!(matches!(to_key_input(&ch("A"), ctrl()), KeyInput::MoveToLineStart));
    assert!(matches!(
        to_key_input(&ch("k"), mods(true, true, false, false)),
        KeyInput::CopyLatestCodeBlock
    ));
    assert!(matches!(to_key_input(&ch("k"), ctrl()), KeyInput::DeleteToLineEnd));
    assert!(matches!(
        to_key_input(&ch("k"), mods(false, false, false, true)),
        KeyInput::JumpPrompt(-1)
    ));
    assert!(matches!(to_key_input(&ch("c"), ctrl()), KeyInput::CancelGeneration));
    assert!(matches!(
        to_key_input(&ch("c"), mods(false, false, false, true)),
        KeyInput::CopyLatestResponse
    ));
    assert!(matches!(
        to_key_input(&ch("C"), mods(true, true, false, false)),
        KeyInput::CopyLatestResponse
    ));
    assert!(matches!(to_key_input(&ch("v"), mods(false, false, true, false)), KeyInput::PasteText));
    assert!(matches!(to_key_input(&ch("v"), ctrl()), KeyInput::PasteText));
    assert!(matches!(to_key_input(&ch("["), ctrl()), KeyInput::JumpPrompt(-1)));
    assert!(matches!(to_key_input(&ch("q"), mods(false, false, false, true)), KeyInput::ExitApp));
    assert!(matches!(
        to_key_input(&ch(";"), mods(false, false, false, true)),
        KeyInput::SpawnSelfDevSession
    ));
    assert!(matches!(to_key_input(&ch(";"), ctrl()), KeyInput::SpawnPanel));
    assert!(matches!(to_key_input(&ch("/"), ctrl()), KeyInput::HotkeyHelp));
    assert!(matches!(to_key_input(&ch("+"), ctrl()), KeyInput::AdjustTextScale(1)));
    assert!(matches!(to_key_input(&ch("0"), ctrl()), KeyInput::ResetTextScale));
    assert!(matches!(
        to_key_input(&ch("i"), mods(true, true, false, false)),
        KeyInput::ClearAttachedImages
    ));
    assert!(matches!(to_key_input(&ch("m"), ctrl()), KeyInput::CycleModel(1)));
    assert!(matches!(
        to_key_input(&ch("3"), ctrl()),
        KeyInput::SetPanelSize(PanelSizePreset::ThreeQuarter)
    ));
    assert!(matches!(to_key_input(&ch("g"), ctrl()), KeyInput::Other));
    assert!(matches!(to_key_input(&ch("ab"), ctrl()), KeyInput::Other));
}

#[test]
fn plain_characters_type_their_text() {
    assert!(is_character(&to_key_input(&ch("x"), none()), "x"));
    assert!(is_character(&to_key_input(&ch("X"), mods(true, false, false, false)), "X"));
    assert!(is_character(&to_key_input(&ch("é"), none()), "é"));
}

#[test]
fn clipboard_modifier_is_control_alt_or_super() {
    assert!(desktop_clipboard_shortcut_modifier(ctrl()));
    assert!(desktop_clipboard_shortcut_modifier(mods(false, false, true, false)));
    assert!(desktop_clipboard_shortcut_modifier(mods(false, false, false, true)));
    assert!(!desktop_clipboard_shortcut_modifier(mods(true, false, false, false)));
}

#[test]
fn space_key_is_named_space_or_a_space_character() {
    assert!(is_space_key(&Key::Named(NamedKey::Space)));
    assert!(is_space_key(&ch(" ")));
    assert!(!is_space_key(&ch("  ")));
    assert!(!is_space_key(&Key::Named(NamedKey::Enter)));
}

#[test]
fn wire_keys_rebuild_named_and_character_keys() {
    assert!(matches!(
        desktop_key_string_to_winit_key("ArrowLeft", None),
        Key::Named(NamedKey::ArrowLeft)
    ));
    assert!(matches!(
        desktop_key_string_to_winit_key("Space", Some(" ")),
        Key::Named(NamedKey::Space)
    ));
    assert!(matches!(desktop_key_string_to_winit_key("a", Some("A")), Key::Character(text) if text == "A"));
    assert!(matches!(desktop_key_string_to_winit_key("F5", None), Key::Character(text) if text == "F5"));
}

#[test]
fn key_names_and_text_travel_on_the_wire() {
    assert_eq!(desktop_key_name(&Key::Named(NamedKey::PageDown)), "PageDown");
    assert_eq!(desktop_key_name(&ch("z")), "z");
    assert_eq!(desktop_key_name(&Key::Other("F5".to_string())), "F5");
    assert_eq!(desktop_key_text(&ch("z")), Some("z".to_string()));
    assert_eq!(desktop_key_text(&Key::Named(NamedKey::Enter)), None);
}

#[test]
fn modifiers_round_trip_through_the_wire() {
    let state = mods(true, false, true, false);
    let wire = desktop_key_modifiers(state);
    assert_eq!(
        wire,
        DesktopKeyModifiers {
            shift: true,
            ctrl: false,
            alt: true,
            super_key: false
        }
    );
    assert_eq!(desktop_key_modifiers_to_winit(wire), state);
}

#[test]
fn key_press_forwarded_to_a_worker_binds_the_same() {
    let key = Key::Named(NamedKey::Tab);
    let event = desktop_key_event_from_winit(&key, ctrl(), true);
    assert_eq!(event.key, "Tab");
    assert!(event.pressed);
    assert!(matches!(desktop_key_event_to_key_input(&event), KeyInput::CycleModel(1)));

    let event = desktop_key_event_from_winit(&ch("w"), ctrl(), true);
    assert!(matches!(desktop_key_event_to_key_input(&event), KeyInput::DeletePreviousWord));

    // Copy does not survive the wire: it comes back as a character key.
    let event = desktop_key_event_from_winit(&Key::Named(NamedKey::Copy), none(), true);
    assert!(is_character(&desktop_key_event_to_key_input(&event), "Copy"));
}

#[test]
fn worker_key_event_with_text_types_it() {
    let event = DesktopKeyEvent {
        key: "a".to_string(),
        text: Some("a".to_string()),
        pressed: true,
        modifiers: DesktopKeyModifiers::default(),
    };
    assert!(is_character(&desktop_key_event_to_key_input(&event), "a"));
}
