//! The client on systems other than Windows.

use vstd::prelude::*;

use crate::error::is_platform;
use crate::platform::RuntimeDiagnostics;
use crate::{text, AppRoutingMode, AppRoutingPolicy, ClientError};

verus! {

/// Describes a machine that runs another operating system.
#[must_use]
pub fn diagnose(platform: &'static str) -> (diagnostics: RuntimeDiagnostics)
    ensures
        diagnostics.platform == platform,
        !diagnostics.running_under_wine,
        !diagnostics.wintun_available,
        !diagnostics.elevated,
        diagnostics.message@
            == "Windows runtime is not available on this operating system; UI-only Wine smoke tests remain possible"@,
{
    RuntimeDiagnostics {
        platform,
        running_under_wine: false,
        wintun_available: false,
        elevated: false,
        message: text::owned(
            "Windows runtime is not available on this operating system; UI-only Wine smoke tests remain possible",
        ),
    }
}

/// Returns an unsupported-platform error without changing networking state.
///
/// # Errors
///
/// Always returns [`ClientError::Platform`].
pub fn run_with_stop() -> (result: Result<(), ClientError>)
    ensures
        result matches Err(e) && is_platform(
            e,
            "the MouseVPN Windows networking backend can only run on Windows"@,
        ),
{
    Err(ClientError::platform("the MouseVPN Windows networking backend can only run on Windows"))
}

/// Returns an unsupported-platform error without changing networking state.
///
/// # Errors
///
/// Always returns [`ClientError::Platform`].
pub fn repair_network() -> (result: Result<(), ClientError>)
    ensures
        result matches Err(e) && is_platform(e, "Windows network repair can only run on Windows"@),
{
    Err(ClientError::platform("Windows network repair can only run on Windows"))
}

/// Returns an unsupported-platform error without querying networking state.
///
/// # Errors
///
/// Always returns [`ClientError::Platform`].
pub fn network_report() -> (result: Result<String, ClientError>)
    ensures
        result matches Err(e) && is_platform(
            e,
            "Windows network diagnostics can only run on Windows"@,
        ),
{
    Err(ClientError::platform("Windows network diagnostics can only run on Windows"))
}

/// Accepts the one policy that needs no bypass, and refuses every other.
pub fn install_app_bypass(policy: &AppRoutingPolicy) -> (result: Result<(), ClientError>)
    ensures
        result is Ok <==> policy.apps@.len() == 0 && policy.mode is Exclude,
        result matches Err(e) ==> is_platform(
            e,
            "application bypass is only available on Windows"@,
        ),
{
    if policy.apps.len() == 0 && policy.mode == AppRoutingMode::Exclude {
        Ok(())
    } else {
        Err(ClientError::platform("application bypass is only available on Windows"))
    }
}

} // verus!
