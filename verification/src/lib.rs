//! The MouseVPN client for desktop systems.

use vstd::prelude::*;

pub mod app_bypass;
pub mod app_exclusions;
pub mod app_paths;
pub mod assoc;
pub mod bytes;
pub mod capture;
pub mod clock;
pub mod commands;
pub mod connection;
pub mod counter;
pub mod diagnostics;
pub mod discovery;
pub mod divert;
pub mod error;
pub mod flow;
pub mod geo;
pub mod helper_log;
pub mod helper_runtime;
pub mod incoming;
pub mod installations;
pub mod ip;
pub mod killswitch;
pub mod liveness;
pub mod netcfg;
pub mod network;
pub mod network_events;
pub mod order;
pub mod package_sid;
pub mod packet;
pub mod packet_loop;
pub mod platform;
pub mod platform_stub;
pub mod profiles;
pub mod reliability;
pub mod runtime;
pub mod script;
pub mod script_laws;
pub mod session;
pub mod settings_file;
pub mod split_tunnel;
pub mod text;
pub mod tray;
pub mod trie;
pub mod wfp;
pub mod windivert;

pub use error::ClientError;

verus! {

/// Whether the listed applications are the ones that use the tunnel or the
/// ones that do not.
#[derive(Clone, Copy, Debug, PartialEq, Eq, Structural)]
pub enum AppRoutingMode {
    /// The listed applications bypass the tunnel.
    Exclude,
    /// Only the listed applications use the tunnel.
    Include,
}

impl Default for AppRoutingMode {
    fn default() -> (mode: AppRoutingMode)
        ensures
            mode is Exclude,
    {
        AppRoutingMode::Exclude
    }
}

/// Which applications a session routes.
#[derive(Debug)]
pub struct AppRoutingPolicy {
    pub mode: AppRoutingMode,
    /// Paths of executables.
    pub apps: Vec<String>,
    /// Security identifiers of packaged applications.
    pub package_sids: Vec<String>,
}

impl Default for AppRoutingPolicy {
    fn default() -> (policy: AppRoutingPolicy)
        ensures
            policy.mode is Exclude,
            policy.apps@.len() == 0,
            policy.package_sids@.len() == 0,
    {
        AppRoutingPolicy {
            mode: AppRoutingMode::Exclude,
            apps: Vec::new(),
            package_sids: Vec::new(),
        }
    }
}

/// Reports that `AppContainer` identities are unavailable outside Windows.
///
/// # Errors
///
/// Always returns [`ClientError::Platform`].
pub fn app_container_sid_string(_package_family_name: &str) -> (sid: Result<String, ClientError>)
    ensures
        sid matches Err(e) && error::is_platform(
            e,
            "Windows application package identities are unavailable on this platform"@,
        ),
{
    Err(
        ClientError::platform(
            "Windows application package identities are unavailable on this platform",
        ),
    )
}

/// `s` with forward slashes turned into backslashes.
pub open spec fn with_backslashes(s: Seq<char>) -> Seq<char> {
    text::replace_char(s, '/', seq!['\\'])
}

/// The regular DOS or UNC form of a Windows path.
pub open spec fn normalized_windows_path(path: Seq<char>) -> Seq<char> {
    let value = with_backslashes(path);
    if text::starts_with(value, "\\\\?\\UNC\\"@) {
        "\\\\"@ + text::after_prefix(value, "\\\\?\\UNC\\"@)
    } else if text::starts_with(value, "\\\\?\\"@) {
        text::after_prefix(value, "\\\\?\\"@)
    } else {
        value
    }
}

/// Converts extended-length canonical Windows paths into the regular DOS/UNC
/// form expected by Windows Firewall and WFP application APIs.
#[must_use]
pub fn normalize_windows_path(path: &str) -> (result: String)
    ensures
        result@ == normalized_windows_path(path@),
{
    proof {
        reveal_strlit("\\");
        assert("\\"@ =~= seq!['\\']);
    }
    let value = text::replaced_char(path, '/', "\\");
    if let Some(rest) = text::strip_prefix(value.as_str(), "\\\\?\\UNC\\") {
        String::from_str("\\\\").concat(rest.as_str())
    } else if let Some(rest) = text::strip_prefix(value.as_str(), "\\\\?\\") {
        rest
    } else {
        value
    }
}

/// Extended-length paths lose their prefix, shares keep their two backslashes,
/// and every slash becomes a backslash.
pub proof fn windows_paths_take_their_regular_form(rest: Seq<char>)
    ensures
        normalized_windows_path("\\\\?\\UNC\\"@ + rest) == "\\\\"@ + with_backslashes(rest),
        !text::starts_with(with_backslashes(rest), "UNC\\"@) ==> normalized_windows_path(
            "\\\\?\\"@ + rest,
        ) == with_backslashes(rest),
        !text::starts_with(with_backslashes(rest), "\\\\?\\"@) ==> normalized_windows_path(rest)
            == with_backslashes(rest),
        with_backslashes(rest).len() == rest.len(),
        forall|i: int|
            0 <= i < rest.len() ==> #[trigger] with_backslashes(rest)[i] == (if rest[i] == '/' {
                '\\'
            } else {
                rest[i]
            }),
{
    reveal_strlit("\\\\?\\UNC\\");
    reveal_strlit("\\\\?\\");
    reveal_strlit("\\\\");
    reveal_strlit("UNC\\");
    let long = "\\\\?\\UNC\\"@;
    let short = "\\\\?\\"@;
    lemma_backslashes(rest);
    lemma_backslashes(long + rest);
    lemma_backslashes(short + rest);
    assert(with_backslashes(long + rest) =~= long + with_backslashes(rest));
    assert(with_backslashes(short + rest) =~= short + with_backslashes(rest));
    text::prefixes_and_suffixes_come_off(with_backslashes(rest), long);
    text::prefixes_and_suffixes_come_off(with_backslashes(rest), short);
    let value = short + with_backslashes(rest);
    if text::starts_with(value, long) {
        assert(with_backslashes(rest).subrange(0, 4) =~= "UNC\\"@) by {
            assert(value.subrange(0, 8) == long);
            assert forall|i: int| 0 <= i < 4 implies with_backslashes(rest)[i] == long[4 + i] by {
                assert(value.subrange(0, 8)[4 + i] == value[4 + i]);
            }
        }
    }
    if text::starts_with(with_backslashes(rest), long) {
        let start = with_backslashes(rest).subrange(0, 8);
        assert(with_backslashes(rest).subrange(0, 4) =~= start.subrange(0, 4));
        assert(long.subrange(0, 4) =~= short);
    }
}

proof fn lemma_backslashes(s: Seq<char>)
    ensures
        with_backslashes(s).len() == s.len(),
        forall|i: int|
            0 <= i < s.len() ==> #[trigger] with_backslashes(s)[i] == (if s[i] == '/' {
                '\\'
            } else {
                s[i]
            }),
    decreases s.len(),
{
    if s.len() > 0 {
        lemma_backslashes(s.drop_last());
    }
}

} // verus!
