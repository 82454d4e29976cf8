use jcode_desktop_core::branding::DESKTOP_PRODUCT_NAME;
use jcode_desktop_core::capture::{
    capture_key_input, desktop_help_text, gallery_screenshot_capture_request, CaptureSize,
};
use jcode_desktop_core::keys::KeyInput;

fn args(items: &[&str]) -> Vec<String> {
    items.iter().map(|item| item.to_string()).collect()
}

#[test]
fn capture_key_names_map_to_actions() {
    assert!(matches!(capture_key_input("tab"), Some(KeyInput::Autocomplete)));
    assert!(matches!(capture_key_input("scroll-up"), Some(KeyInput::ScrollBodyLines(-3))));
    assert!(matches!(capture_key_input("page-down"), Some(KeyInput::ScrollBodyPages(1))));
    assert!(matches!(capture_key_input("text-smaller"), Some(KeyInput::AdjustTextScale(-1))));
    assert!(matches!(capture_key_input("char:hello"), Some(KeyInput::Character(text)) if text == "hello"));
    assert!(matches!(capture_key_input("char:"), Some(KeyInput::Character(text)) if text.is_empty()));
    assert!(capture_key_input("Tab").is_none());
    assert!(capture_key_input("unknown").is_none());
}

#[test]
fn gallery_request_needs_an_output_directory() {
    assert!(gallery_screenshot_capture_request(&args(&["--capture-keys", "tab"]), None).is_none());
    assert!(gallery_screenshot_capture_request(&args(&["--capture-gallery-screens"]), None).is_none());
}

#[test]
fn gallery_request_reads_keys_and_size() {
    let request = gallery_screenshot_capture_request(
        &args(&[
            "--capture-gallery-screens=/tmp/shots",
            "--capture-keys",
            " tab, ,char:x ,enter,",
            "--capture-size= 800 x 600",
        ]),
        Some("welcome".to_string()),
    )
    .expect("request");
    assert_eq!(request.output_dir, "/tmp/shots");
    assert_eq!(request.state.as_deref(), Some("welcome"));
    assert_eq!(request.keys, vec!["tab", "char:x", "enter"]);
    assert_eq!(
        request.size,
        Some(CaptureSize {
            width: 800,
            height: 600
        })
    );
}

#[test]
fn gallery_request_ignores_a_malformed_size() {
    let request = gallery_screenshot_capture_request(
        &args(&["--capture-gallery-screens", "out", "--capture-size", "800by600"]),
        None,
    )
    .expect("request");
    assert_eq!(request.output_dir, "out");
    assert!(request.keys.is_empty());
    assert!(request.size.is_none());
    let request = gallery_screenshot_capture_request(
        &args(&["--capture-gallery-screens", "out", "--capture-size=5000000000x1"]),
        None,
    )
    .expect("request");
    assert!(request.size.is_none());
}

#[test]
fn help_text_starts_with_the_product_name() {
    let help = desktop_help_text();
    assert!(help.starts_with(DESKTOP_PRODUCT_NAME));
    assert!(help.contains("\nUsage:\n  jcode-desktop [OPTIONS]\n"));
    assert!(help.contains("  -h, --help                   Print this help"));
    assert!(help.ends_with("Print this help\n"));
    assert_eq!(help.lines().count(), 26);
}
