//! Platforms without background service management.
use vstd::prelude::*;

use crate::models::owned;
use crate::service::{unsupported_service_status, ServiceStatusResponse};

verus! {

pub fn get_service_status() -> (res: ServiceStatusResponse)
    ensures
        !res.supported && !res.installed && !res.running,
        res.label@.len() == 0 && res.plist_path@.len() == 0 && res.executable_path@.len() == 0,
        res.status_message@
            == "Background service management is only available on macOS, Windows, and Linux systemd hosts."@,
{
    unsupported_service_status(
        "Background service management is only available on macOS, Windows, and Linux systemd hosts.",
    )
}

/// The refusal of an install, restart or removal on such a platform.
pub fn unsupported_action_error() -> (res: String)
    ensures
        res@ == "Background service management isn't supported on this OS."@,
{
    owned("Background service management isn't supported on this OS.")
}

pub fn maybe_handle_service_management_cli() -> (res: Option<i32>)
    ensures
        res is None,
{
    None
}

} // verus!
