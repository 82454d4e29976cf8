//! User-facing branding of the desktop app.
use vstd::prelude::*;

verus! {

/// Release channel shown across user-facing desktop surfaces.
pub const DESKTOP_RELEASE_CHANNEL: &'static str = "Beta";

/// Product name without the release-channel suffix.
pub const DESKTOP_PRODUCT_BASE_NAME: &'static str = "Jcode Desktop";

/// Full user-facing product name, including the release channel.
pub const DESKTOP_PRODUCT_NAME: &'static str = "Jcode Desktop (Beta)";

} // verus!
