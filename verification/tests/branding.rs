use jcode_desktop_core::branding::{
    DESKTOP_PRODUCT_BASE_NAME, DESKTOP_PRODUCT_NAME, DESKTOP_RELEASE_CHANNEL,
};

#[test]
fn product_name_is_base_name_plus_release_channel() {
    assert_eq!(
        DESKTOP_PRODUCT_NAME,
        format!("{DESKTOP_PRODUCT_BASE_NAME} ({DESKTOP_RELEASE_CHANNEL})")
    );
}
