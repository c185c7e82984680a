//! What the machine offers to the client.

use vstd::prelude::*;

use crate::error::is_platform;
use crate::{text, ClientError};

verus! {

pub const WINTUN_VERSION: &'static str = "0.14.1";

/// What a machine can run.
#[derive(Debug)]
pub struct RuntimeDiagnostics {
    pub platform: &'static str,
    pub running_under_wine: bool,
    pub wintun_available: bool,
    pub elevated: bool,
    pub message: String,
}

/// How the state of a Windows machine is worded.
pub open spec fn diagnosis_text(running_under_wine: bool, elevated: bool) -> Seq<char> {
    if running_under_wine {
        "Wine detected: headless checks are supported, but the Wintun driver is unavailable"@
    } else if elevated {
        "Windows runtime is ready (embedded Wintun "@ + WINTUN_VERSION@ + ")"@
    } else {
        "MouseVPN must be started as Administrator"@
    }
}

/// Describes a Windows machine, given whether the process runs under Wine and
/// whether it is elevated.
#[must_use]
pub fn diagnose(running_under_wine: bool, elevated: bool) -> (diagnostics: RuntimeDiagnostics)
    ensures
        diagnostics.platform@ == "windows"@,
        diagnostics.running_under_wine == running_under_wine,
        diagnostics.wintun_available == !running_under_wine,
        diagnostics.elevated == elevated,
        diagnostics.message@ == diagnosis_text(running_under_wine, elevated),
{
    let message = if running_under_wine {
        text::owned(
            "Wine detected: headless checks are supported, but the Wintun driver is unavailable",
        )
    } else if elevated {
        let mut message = text::owned("Windows runtime is ready (embedded Wintun ");
        message.append(WINTUN_VERSION);
        message.append(")");
        message
    } else {
        text::owned("MouseVPN must be started as Administrator")
    };
    RuntimeDiagnostics {
        platform: "windows",
        running_under_wine,
        wintun_available: !running_under_wine,
        elevated,
        message,
    }
}

/// Why a machine cannot run the tunnel.
pub open spec fn unsupported_text(running_under_wine: bool) -> Seq<char> {
    if running_under_wine {
        "Wintun cannot run under Wine; use Windows or a Windows VM for tunnel tests"@
    } else {
        "MouseVPN must be started as Administrator"@
    }
}

/// Refuses a machine that cannot run the tunnel.
pub fn ensure_supported_runtime(running_under_wine: bool, elevated: bool) -> (result: Result<
    (),
    ClientError,
>)
    ensures
        result is Ok <==> !running_under_wine && elevated,
        result matches Err(e) ==> is_platform(e, unsupported_text(running_under_wine)),
{
    if running_under_wine {
        return Err(
            ClientError::platform(
                "Wintun cannot run under Wine; use Windows or a Windows VM for tunnel tests",
            ),
        );
    }
    if !elevated {
        return Err(ClientError::platform("MouseVPN must be started as Administrator"));
    }
    Ok(())
}

/// The name of the adapter library in the runtime directory.
pub fn library_file() -> (name: String)
    ensures
        name@ == "wintun-"@ + WINTUN_VERSION@ + ".dll"@,
{
    let mut name = text::owned("wintun-");
    name.append(WINTUN_VERSION);
    name.append(".dll");
    name
}

/// The name the adapter library is written under before it is moved in place.
pub fn temporary_library_file(process_id: u32) -> (name: String)
    ensures
        name@ == "wintun-"@ + WINTUN_VERSION@ + ".tmp-"@ + text::decimal(process_id as nat),
{
    let mut name = text::owned("wintun-");
    name.append(WINTUN_VERSION);
    name.append(".tmp-");
    text::push_decimal(&mut name, process_id as u128);
    name
}

/// Whether the library in the runtime directory is the one that is wanted.
///
/// Comparing the length first keeps the common warm start from reading the
/// whole library back: `contents` is only read where the length agrees.
pub fn library_is_current(wanted: &[u8], length: Option<u64>, contents: Option<&[u8]>) -> (current:
    bool)
    ensures
        current == (length is Some && length->0 == wanted@.len() && contents is Some
            && contents->0@ == wanted@),
{
    match (length, contents) {
        (Some(n), Some(found)) => {
            if n != wanted.len() as u64 || found.len() != wanted.len() {
                return false;
            }
            let mut i: usize = 0;
            while i < wanted.len()
                invariant
                    i <= wanted.len(),
                    found.len() == wanted.len(),
                    contents == Some(found),
                    forall|j: int| 0 <= j < i ==> found@[j] == wanted@[j],
                decreases wanted.len() - i,
            {
                if found[i] != wanted[i] {
                    return false;
                }
                i = i + 1;
            }
            assert(found@ =~= wanted@);
            true
        },
        _ => false,
    }
}

/// A machine can run the tunnel exactly where its diagnosis says that it is
/// ready: not under Wine, and as an administrator.
pub proof fn only_ready_machines_are_supported(
    running_under_wine: bool,
    elevated: bool,
    result: Result<(), ClientError>,
    diagnostics: RuntimeDiagnostics,
)
    requires
        call_ensures(ensure_supported_runtime, (running_under_wine, elevated), result),
        call_ensures(diagnose, (running_under_wine, elevated), diagnostics),
    ensures
        result is Ok <==> !running_under_wine && elevated,
        diagnostics.wintun_available <==> !running_under_wine,
        result is Ok ==> diagnostics.message@ == "Windows runtime is ready (embedded Wintun "@
            + "0.14.1"@ + ")"@,
        !running_under_wine && !elevated ==> diagnostics.message@
            == "MouseVPN must be started as Administrator"@ && (result matches Err(e)
            && is_platform(e, diagnostics.message@)),
        running_under_wine ==> (result matches Err(e) && is_platform(
            e,
            "Wintun cannot run under Wine; use Windows or a Windows VM for tunnel tests"@,
        )),
{
}

/// The library in place is kept only where it is the wanted one byte for byte.
pub proof fn only_the_wanted_library_is_kept(
    wanted: &[u8],
    length: Option<u64>,
    contents: &[u8],
    current: bool,
    unread: bool,
)
    requires
        call_ensures(library_is_current, (wanted, length, Some(contents)), current),
        call_ensures(library_is_current, (wanted, length, None::<&[u8]>), unread),
    ensures
        current ==> contents@ == wanted@,
        contents@ == wanted@ && length is Some && length->0 == wanted@.len() ==> current,
        !unread,
{
}

} // verus!
