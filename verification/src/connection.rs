//! The state of the connection as it is shown, and what changes it.

use vstd::prelude::*;

use crate::session::SessionParameters;
use crate::{clock, text};

verus! {

/// The system the client runs on.
#[derive(Clone, Copy, Debug, PartialEq, Eq, Structural)]
pub enum Desktop {
    Windows,
    Linux,
}

/// The state of the connection: `disconnected`, `connecting`, `connected`,
/// `disconnecting` or `error`, and what is said of it.
#[derive(Debug)]
pub struct ConnectionSnapshot {
    pub state: String,
    pub message: String,
    pub profile_id: Option<String>,
}

/// A state of the connection as plain texts.
#[verifier::ext_equal]
pub struct SnapshotModel {
    pub state: Seq<char>,
    pub message: Seq<char>,
    pub profile_id: Option<Seq<char>>,
}

impl View for ConnectionSnapshot {
    type V = SnapshotModel;

    open spec fn view(&self) -> SnapshotModel {
        SnapshotModel {
            state: self.state@,
            message: self.message@,
            profile_id: match self.profile_id {
                Some(id) => Some(id@),
                None => None,
            },
        }
    }
}

/// The state while nothing runs.
pub open spec fn idle() -> SnapshotModel {
    SnapshotModel { state: "disconnected"@, message: "VPN выключен"@, profile_id: None }
}

impl Default for ConnectionSnapshot {
    fn default() -> (snapshot: ConnectionSnapshot)
        ensures
            snapshot@ == idle(),
    {
        ConnectionSnapshot {
            state: text::owned("disconnected"),
            message: text::owned("VPN выключен"),
            profile_id: None,
        }
    }
}

/// Whether a session runs, starts or stops in this state.
pub open spec fn is_active(state: Seq<char>) -> bool {
    state == "connecting"@ || state == "connected"@ || state == "disconnecting"@
}

fn active(state: &str) -> (yes: bool)
    ensures
        yes == is_active(state@),
{
    text::same(state, "connecting") || text::same(state, "connected") || text::same(
        state,
        "disconnecting",
    )
}

/// `current` with another state and message.
pub open spec fn restated(
    current: SnapshotModel,
    state: Seq<char>,
    message: Seq<char>,
) -> SnapshotModel {
    SnapshotModel { state, message, profile_id: current.profile_id }
}

/// The state while the profile `id` is being connected.
pub open spec fn connecting(desktop: Desktop, id: Seq<char>) -> SnapshotModel {
    SnapshotModel {
        state: "connecting"@,
        message: match desktop {
            Desktop::Windows => "Настраиваем Wintun и маршруты…"@,
            Desktop::Linux => "Ожидание разрешения PolicyKit…"@,
        },
        profile_id: Some(id),
    }
}

/// The state after a line of the helper on Windows.
pub open spec fn after_windows_line(
    current: SnapshotModel,
    line: Seq<char>,
    log_path: Option<Seq<char>>,
) -> SnapshotModel {
    if line == "MOUSEVPN_STATE=connected"@ {
        restated(current, "connected"@, "Защищённое соединение установлено"@)
    } else if line == "MOUSEVPN_STATE=reconnecting"@ {
        restated(current, "connecting"@, "Связь потеряна, переподключаемся…"@)
    } else if line == "MOUSEVPN_STATE=reconnected"@ {
        restated(current, "connected"@, "Соединение восстановлено"@)
    } else if line == "MOUSEVPN_STATE=restarting"@ || line == "MOUSEVPN_STATE=failed_closed"@ {
        restated(
            current,
            "connecting"@,
            if text::starts_with(current.message, "Восстанавливаем VPN:"@) {
                current.message
            } else {
                "Перезапускаем сетевой туннель без утечки трафика…"@
            },
        )
    } else if text::starts_with(line, "MOUSEVPN_RUNTIME_WARNING="@) {
        restated(
            current,
            "connecting"@,
            "Восстанавливаем VPN: "@ + text::after_prefix(line, "MOUSEVPN_RUNTIME_WARNING="@),
        )
    } else if text::starts_with(line, "MOUSEVPN_ERROR="@) {
        let message = text::after_prefix(line, "MOUSEVPN_ERROR="@);
        restated(
            current,
            "error"@,
            match log_path {
                Some(path) => message + "\nЖурнал: "@ + path,
                None => message,
            },
        )
    } else {
        current
    }
}

/// The state after a line of the helper on Linux.
pub open spec fn after_linux_line(current: SnapshotModel, line: Seq<char>) -> SnapshotModel {
    if line == "MOUSEVPN_STATE=connected"@ || text::contains_text(line, "MouseVPN connected"@) {
        restated(current, "connected"@, "Защищённое соединение установлено"@)
    } else if text::starts_with(line, "MOUSEVPN_ERROR="@) {
        restated(current, "error"@, text::after_prefix(line, "MOUSEVPN_ERROR="@))
    } else {
        current
    }
}

/// The state after a helper has exited.
pub open spec fn after_helper_exit(current: SnapshotModel, success: bool) -> SnapshotModel {
    if current.state == "disconnecting"@ || success {
        idle()
    } else if current.state != "error"@ {
        restated(current, "error"@, "VPN-процесс неожиданно завершился"@)
    } else {
        current
    }
}

impl ConnectionSnapshot {
    fn restate(&mut self, state: &str, message: &str)
        ensures
            final(self)@ == restated(old(self)@, state@, message@),
    {
        self.state = text::owned(state);
        self.message = text::owned(message);
    }

    /// The state in which the profile `id` is being connected.
    pub fn connecting(desktop: Desktop, id: &str) -> (snapshot: ConnectionSnapshot)
        ensures
            snapshot@ == connecting(desktop, id@),
    {
        ConnectionSnapshot {
            state: text::owned("connecting"),
            message: match desktop {
                Desktop::Windows => text::owned("Настраиваем Wintun и маршруты…"),
                Desktop::Linux => text::owned("Ожидание разрешения PolicyKit…"),
            },
            profile_id: Some(text::owned(id)),
        }
    }

    /// Takes over a line that the helper of connection `reader` wrote, while
    /// `current` is the number of the connection that is shown.
    ///
    /// A helper of an earlier connection may still be writing. It changes
    /// nothing any more.
    pub fn read_helper_status(
        &mut self,
        line: &str,
        current: u64,
        reader: u64,
        log_path: Option<&str>,
    )
        ensures
            final(self)@ == (if current != reader {
                old(self)@
            } else {
                after_windows_line(
                    old(self)@,
                    line@,
                    match log_path {
                        Some(path) => Some(path@),
                        None => None,
                    },
                )
            }),
    {
        if current != reader {
            return;
        }
        if text::same(line, "MOUSEVPN_STATE=connected") {
            self.restate("connected", "Защищённое соединение установлено");
        } else if text::same(line, "MOUSEVPN_STATE=reconnecting") {
            self.restate("connecting", "Связь потеряна, переподключаемся…");
        } else if text::same(line, "MOUSEVPN_STATE=reconnected") {
            self.restate("connected", "Соединение восстановлено");
        } else if text::same(line, "MOUSEVPN_STATE=restarting") || text::same(
            line,
            "MOUSEVPN_STATE=failed_closed",
        ) {
            self.state = text::owned("connecting");
            if !text::has_prefix(self.message.as_str(), "Восстанавливаем VPN:") {
                self.message = text::owned("Перезапускаем сетевой туннель без утечки трафика…");
            }
        } else if let Some(detail) = text::strip_prefix(line, "MOUSEVPN_RUNTIME_WARNING=") {
            let mut message = text::owned("Восстанавливаем VPN: ");
            message.append(detail.as_str());
            self.restate("connecting", message.as_str());
        } else if let Some(detail) = text::strip_prefix(line, "MOUSEVPN_ERROR=") {
            let mut message = detail;
            if let Some(path) = log_path {
                message.append("\nЖурнал: ");
                message.append(path);
            }
            self.restate("error", message.as_str());
        }
    }

    /// Takes over a line that the helper wrote on Linux.
    pub fn read_linux_helper_status(&mut self, line: &str)
        ensures
            final(self)@ == after_linux_line(old(self)@, line@),
    {
        if text::same(line, "MOUSEVPN_STATE=connected") || text::contains(
            line,
            "MouseVPN connected",
        ) {
            self.restate("connected", "Защищённое соединение установлено");
        } else if let Some(message) = text::strip_prefix(line, "MOUSEVPN_ERROR=") {
            self.restate("error", message.as_str());
        }
    }

    /// The helper has exited.
    pub fn helper_exited(&mut self, success: bool)
        ensures
            final(self)@ == after_helper_exit(old(self)@, success),
    {
        if text::same(self.state.as_str(), "disconnecting") || success {
            *self = ConnectionSnapshot::default();
        } else if !text::same(self.state.as_str(), "error") {
            self.restate("error", "VPN-процесс неожиданно завершился");
        }
    }

    /// The helper was told to stop.
    pub fn disconnecting(&mut self, desktop: Desktop)
        ensures
            final(self)@ == restated(
                old(self)@,
                "disconnecting"@,
                match desktop {
                    Desktop::Windows => "Восстанавливаем маршруты и DNS…"@,
                    Desktop::Linux => "Безопасно отключаем VPN…"@,
                },
            ),
    {
        match desktop {
            Desktop::Windows => self.restate("disconnecting", "Восстанавливаем маршруты и DNS…"),
            Desktop::Linux => self.restate("disconnecting", "Безопасно отключаем VPN…"),
        }
    }

    /// Something that was asked for from the tray failed.
    pub fn failed(&mut self, message: &str)
        ensures
            final(self)@ == restated(old(self)@, "error"@, message@),
    {
        self.restate("error", message);
    }

    /// Whether `id` is the profile shown.
    fn shows(&self, id: &str) -> (yes: bool)
        ensures
            yes == (self@.profile_id == Some(id@)),
    {
        match &self.profile_id {
            Some(shown) => text::same(shown.as_str(), id),
            None => false,
        }
    }

    /// Refuses to change the protocol of the profile that is in use.
    pub fn check_protocol_change(&self, id: &str) -> (result: Result<(), String>)
        ensures
            result is Err <==> self@.profile_id == Some(id@) && is_active(self@.state),
            result matches Err(message) ==> message@ == "Сначала отключите активный профиль"@,
    {
        if self.shows(id) && active(self.state.as_str()) {
            Err(text::owned("Сначала отключите активный профиль"))
        } else {
            Ok(())
        }
    }

    /// Refuses to delete the profile that is shown as anything but
    /// disconnected.
    pub fn check_deletion(&self, id: &str) -> (result: Result<(), String>)
        ensures
            result is Err <==> self@.profile_id == Some(id@) && self@.state != "disconnected"@,
            result matches Err(message) ==> message@ == "Сначала отключите активный профиль"@,
    {
        if self.shows(id) && !text::same(self.state.as_str(), "disconnected") {
            Err(text::owned("Сначала отключите активный профиль"))
        } else {
            Ok(())
        }
    }

    /// What the tray does when it is asked to switch the connection.
    pub fn toggle_action(&self) -> (action: ToggleAction)
        ensures
            self@.state == "disconnecting"@ ==> action is Wait,
            is_active(self@.state) && self@.state != "disconnecting"@ ==> action is Disconnect,
            !is_active(self@.state) ==> action is Connect,
    {
        if !active(self.state.as_str()) {
            ToggleAction::Connect
        } else if text::same(self.state.as_str(), "disconnecting") {
            ToggleAction::Wait
        } else {
            ToggleAction::Disconnect
        }
    }
}

/// What the tray does when it is asked to switch the connection.
#[derive(Clone, Copy, Debug, PartialEq, Eq, Structural)]
pub enum ToggleAction {
    Connect,
    Disconnect,
    /// The connection is already being closed.
    Wait,
}

/// The profile that the tray connects: the one used last if it still exists,
/// else the first.
pub fn profile_to_connect(
    remembered: Option<String>,
    remembered_exists: bool,
    first: Option<String>,
) -> (profile: Result<String, String>)
    ensures
        if remembered is Some && remembered_exists {
            profile matches Ok(id) && remembered == Some(id)
        } else if first is Some {
            profile matches Ok(id) && first == Some(id)
        } else {
            profile matches Err(message) && message@ == "Сначала добавьте профиль в окне MouseVPN"@
        },
{
    match remembered {
        Some(id) if remembered_exists => Ok(id),
        _ => match first {
            Some(id) => Ok(id),
            None => Err(text::owned("Сначала добавьте профиль в окне MouseVPN")),
        },
    }
}

/// Refuses to start a helper while one runs.
pub fn check_idle(helper_runs: bool) -> (result: Result<(), String>)
    ensures
        result is Err <==> helper_runs,
        result matches Err(message) ==> message@ == "VPN уже запущен"@,
{
    if helper_runs {
        Err(text::owned("VPN уже запущен"))
    } else {
        Ok(())
    }
}

/// Refuses to stop a helper that is not there or cannot be told.
pub fn check_stoppable(helper: bool, channel: bool) -> (result: Result<(), String>)
    ensures
        result is Ok <==> helper && channel,
        result matches Err(message) ==> message@ == (if !helper {
            "VPN уже выключен"@
        } else {
            "Канал управления VPN закрыт"@
        }),
{
    if !helper {
        Err(text::owned("VPN уже выключен"))
    } else if !channel {
        Err(text::owned("Канал управления VPN закрыт"))
    } else {
        Ok(())
    }
}

/// How often the exit looks for the end of the helper.
pub const EXIT_POLLS: u32 = 100;

/// How the exit goes on.
#[derive(Clone, Copy, Debug, PartialEq, Eq, Structural)]
pub enum ExitStep {
    /// The helper has ended and cleaned up.
    Finished,
    /// Wait a little, then look again.
    Wait,
    /// Wait a last time, then end the helper by force and repair the network in
    /// its place.
    WaitAndKill,
}

/// What follows the look number `polls`, counted from one.
pub fn exit_step(polls: u32, exited: bool) -> (step: ExitStep)
    ensures
        exited ==> step is Finished,
        !exited && polls < EXIT_POLLS ==> step is Wait,
        !exited && polls >= EXIT_POLLS ==> step is WaitAndKill,
{
    if exited {
        ExitStep::Finished
    } else if polls < EXIT_POLLS {
        ExitStep::Wait
    } else {
        ExitStep::WaitAndKill
    }
}

/// A line of a helper of an earlier connection changes nothing that is shown,
/// and no line ever changes which profile is shown.
pub proof fn lines_never_change_the_profile(
    current: SnapshotModel,
    line: Seq<char>,
    log_path: Option<Seq<char>>,
)
    ensures
        after_windows_line(current, line, log_path).profile_id == current.profile_id,
        after_linux_line(current, line).profile_id == current.profile_id,
{
}

/// A restart keeps the reason that was given for it: after a warning, the
/// announcements of the restart leave the message as it is.
pub proof fn a_restart_keeps_the_specific_error(
    current: SnapshotModel,
    detail: Seq<char>,
    log_path: Option<Seq<char>>,
)
    ensures
        ({
            let warned = after_windows_line(
                current,
                "MOUSEVPN_RUNTIME_WARNING="@ + detail,
                log_path,
            );
            let restarted = after_windows_line(warned, "MOUSEVPN_STATE=restarting"@, log_path);
            &&& warned.state == "connecting"@
            &&& warned.message == "Восстанавливаем VPN: "@ + detail
            &&& restarted == warned
        }),
{
    let prefix = "MOUSEVPN_RUNTIME_WARNING="@;
    let line = prefix + detail;
    reveal_strlit("MOUSEVPN_RUNTIME_WARNING=");
    reveal_strlit("MOUSEVPN_STATE=connected");
    reveal_strlit("MOUSEVPN_STATE=reconnecting");
    reveal_strlit("MOUSEVPN_STATE=reconnected");
    reveal_strlit("MOUSEVPN_STATE=restarting");
    reveal_strlit("MOUSEVPN_STATE=failed_closed");
    reveal_strlit("Восстанавливаем VPN:");
    reveal_strlit("Восстанавливаем VPN: ");
    assert(line[9] == 'R');
    assert(line.subrange(0, prefix.len() as int) =~= prefix);
    assert(text::after_prefix(line, prefix) =~= detail);
    let message = "Восстанавливаем VPN: "@ + detail;
    assert(message.subrange(0, 20) =~= "Восстанавливаем VPN:"@);
    assert("MOUSEVPN_STATE=reconnecting"@[17] == 'c');
    assert("MOUSEVPN_STATE=restarting"@[17] == 's');
    assert("MOUSEVPN_STATE=reconnected"@[17] == 'c');
    assert("MOUSEVPN_STATE=connected"@[15] == 'c');
    assert("MOUSEVPN_STATE=restarting"@[15] == 'r');
}

/// Once an error is shown, the end of the helper does not replace it by a
/// vaguer one.
pub proof fn an_exit_keeps_the_specific_error(current: SnapshotModel)
    requires
        current.state == "error"@,
    ensures
        after_helper_exit(current, false) == current,
{
    reveal_strlit("error");
    reveal_strlit("disconnecting");
    assert("error"@.len() == 5);
    assert("disconnecting"@.len() == 13);
}

// The helper process

/// The first and the longest wait before a session is started again.
pub const HELPER_BACKOFF_MIN: u128 = 1_000_000_000;

pub const HELPER_BACKOFF_MAX: u128 = 16_000_000_000;

/// How the helper goes on after a session.
#[derive(Debug)]
pub enum HelperNext {
    Finish,
    /// Write the lines, wait, and start the session again.
    Restart { lines: Vec<String> },
}

/// How the helper goes on after a session ended: it restarts a session that
/// failed, unless it was told to stop.
pub fn after_session(result: Result<(), String>, stopping: bool) -> (next: HelperNext)
    ensures
        result is Ok || stopping ==> next is Finish,
        result is Err && !stopping ==> (next matches HelperNext::Restart { lines }
            && text::texts(lines@) == seq![
            "MOUSEVPN_RUNTIME_WARNING="@ + result->Err_0@,
            "MOUSEVPN_STATE=restarting"@,
        ]),
{
    match result {
        Ok(_) => HelperNext::Finish,
        Err(error) => {
            if stopping {
                return HelperNext::Finish;
            }
            let mut warning = text::owned("MOUSEVPN_RUNTIME_WARNING=");
            warning.append(error.as_str());
            let mut lines: Vec<String> = Vec::new();
            lines.push(warning);
            lines.push(text::owned("MOUSEVPN_STATE=restarting"));
            assert(text::texts(lines@) =~= seq![
                "MOUSEVPN_RUNTIME_WARNING="@ + error@,
                "MOUSEVPN_STATE=restarting"@,
            ]);
            HelperNext::Restart { lines }
        },
    }
}

/// The wait after a wait of `backoff`.
pub open spec fn longer_backoff(backoff: u128) -> u128 {
    if backoff * 2 > HELPER_BACKOFF_MAX {
        HELPER_BACKOFF_MAX
    } else {
        (backoff * 2) as u128
    }
}

/// The wait after a wait of `backoff`: twice as long, up to a limit.
pub fn next_backoff(backoff: u128) -> (next: u128)
    ensures
        next == longer_backoff(backoff),
{
    if backoff > HELPER_BACKOFF_MAX / 2 {
        HELPER_BACKOFF_MAX
    } else {
        backoff * 2
    }
}

/// The wait before restart number `n`, counted from zero.
pub open spec fn backoff_before(n: nat) -> u128
    decreases n,
{
    if n == 0 {
        HELPER_BACKOFF_MIN
    } else {
        longer_backoff(backoff_before((n - 1) as nat))
    }
}

/// Restarts wait one second at first, never less than before, and never more
/// than sixteen seconds.
pub proof fn restarts_back_off(n: nat)
    ensures
        HELPER_BACKOFF_MIN <= backoff_before(n) <= HELPER_BACKOFF_MAX,
        backoff_before(n) <= backoff_before(n + 1),
        n >= 4 ==> backoff_before(n) == HELPER_BACKOFF_MAX,
    decreases n,
{
    reveal_with_fuel(backoff_before, 5);
    if n > 0 {
        restarts_back_off((n - 1) as nat);
    }
}

/// How a wait that can be interrupted goes on.
#[derive(Clone, Copy, Debug, PartialEq, Eq, Structural)]
pub enum WaitStep {
    Stopped,
    Expired,
    /// Sleep this long, in nanoseconds, and look again.
    Sleep(u128),
}

/// How long a wait sleeps before it looks for the request to stop.
pub const WAIT_POLL: u128 = 100_000_000;

/// How a wait until `deadline` goes on at `now`.
pub fn wait_for_stop(stopping: bool, now: u128, deadline: u128) -> (step: WaitStep)
    ensures
        stopping ==> step is Stopped,
        !stopping && now >= deadline ==> step is Expired,
        !stopping && now < deadline ==> step == WaitStep::Sleep(
            if deadline - now < WAIT_POLL {
                (deadline - now) as u128
            } else {
                WAIT_POLL
            },
        ),
{
    if stopping {
        return WaitStep::Stopped;
    }
    let remaining = clock::elapsed(deadline, now);
    if remaining == 0 {
        WaitStep::Expired
    } else if remaining < WAIT_POLL {
        WaitStep::Sleep(remaining)
    } else {
        WaitStep::Sleep(WAIT_POLL)
    }
}

/// What a handshake that succeeded is reported as.
pub fn handshake_line(parameters: &SessionParameters) -> (line: String)
    ensures
        line@ == "MouseVPN handshake succeeded: address="@ + crate::ip::ipv4_text(
            parameters.client_address,
        ) + "/"@ + text::decimal(parameters.prefix_len as nat) + " mtu="@ + text::decimal(
            parameters.mtu as nat,
        ) + " dns="@ + crate::ip::ipv4_text(parameters.dns),
{
    let mut line = text::owned("MouseVPN handshake succeeded: address=");
    line.append(parameters.client_address.text().as_str());
    line.append("/");
    text::push_decimal(&mut line, parameters.prefix_len as u128);
    line.append(" mtu=");
    text::push_decimal(&mut line, parameters.mtu as u128);
    line.append(" dns=");
    line.append(parameters.dns.text().as_str());
    line
}

/// Each announcement of the helper on Windows leads to one state, whatever was
/// shown before, and an error is shown with its reason and the place of the
/// log.
pub proof fn announcements_lead_to_their_state(
    current: SnapshotModel,
    detail: Seq<char>,
    path: Seq<char>,
)
    ensures
        after_windows_line(current, "MOUSEVPN_STATE=connected"@, None).state == "connected"@,
        after_windows_line(current, "MOUSEVPN_STATE=reconnected"@, None).state == "connected"@,
        after_windows_line(current, "MOUSEVPN_STATE=reconnecting"@, None).state == "connecting"@,
        after_windows_line(current, "MOUSEVPN_STATE=restarting"@, None).state == "connecting"@,
        after_windows_line(current, "MOUSEVPN_STATE=failed_closed"@, None).state == "connecting"@,
        after_windows_line(current, "MOUSEVPN_ERROR="@ + detail, None).state == "error"@,
        after_windows_line(current, "MOUSEVPN_ERROR="@ + detail, None).message == detail,
        after_windows_line(current, "MOUSEVPN_ERROR="@ + detail, Some(path)).message == detail
            + "\nЖурнал: "@ + path,
        after_windows_line(current, "MOUSEVPN_DIAG="@ + detail, Some(path)) == current,
{
    reveal_strlit("MOUSEVPN_STATE=connected");
    reveal_strlit("MOUSEVPN_STATE=reconnecting");
    reveal_strlit("MOUSEVPN_STATE=reconnected");
    reveal_strlit("MOUSEVPN_STATE=restarting");
    reveal_strlit("MOUSEVPN_STATE=failed_closed");
    reveal_strlit("MOUSEVPN_RUNTIME_WARNING=");
    reveal_strlit("MOUSEVPN_ERROR=");
    reveal_strlit("MOUSEVPN_DIAG=");
    let prefix = "MOUSEVPN_ERROR="@;
    let line = prefix + detail;
    assert(line[9] == 'E');
    assert(line.subrange(0, prefix.len() as int) =~= prefix);
    assert(text::after_prefix(line, prefix) =~= detail);
    assert("MOUSEVPN_RUNTIME_WARNING="@[9] == 'R');
    assert("MOUSEVPN_STATE=connected"@[9] == 'S');
    assert("MOUSEVPN_STATE=connected"@[15] == 'c');
    assert("MOUSEVPN_STATE=failed_closed"@[15] == 'f');
    assert("MOUSEVPN_STATE=restarting"@[15] == 'r');
    assert("MOUSEVPN_STATE=restarting"@[17] == 's');
    assert("MOUSEVPN_STATE=reconnected"@[17] == 'c');
    assert("MOUSEVPN_STATE=reconnecting"@[17] == 'c');
    assert("MOUSEVPN_STATE=reconnected"@[24] == 'e');
    assert("MOUSEVPN_STATE=reconnecting"@[24] == 'i');
    assert(!text::starts_with(line, "MOUSEVPN_RUNTIME_WARNING="@)) by {
        if text::starts_with(line, "MOUSEVPN_RUNTIME_WARNING="@) {
            assert(line.subrange(0, "MOUSEVPN_RUNTIME_WARNING="@.len() as int)[9] == 'R');
        }
    }
    let other = "MOUSEVPN_DIAG="@ + detail;
    assert(other[9] == 'D');
    assert(!text::starts_with(other, "MOUSEVPN_RUNTIME_WARNING="@)) by {
        if text::starts_with(other, "MOUSEVPN_RUNTIME_WARNING="@) {
            assert(other.subrange(0, "MOUSEVPN_RUNTIME_WARNING="@.len() as int)[9] == 'R');
        }
    }
    assert(!text::starts_with(other, "MOUSEVPN_ERROR="@)) by {
        if text::starts_with(other, "MOUSEVPN_ERROR="@) {
            assert(other.subrange(0, "MOUSEVPN_ERROR="@.len() as int)[9] == 'E');
        }
    }
}

/// The helper on Linux announces the connection in its own words or in those
/// of the protocol library, wherever in the line they stand.
pub proof fn linux_announcements_lead_to_their_state(
    current: SnapshotModel,
    before: Seq<char>,
    detail: Seq<char>,
)
    ensures
        after_linux_line(current, "MOUSEVPN_STATE=connected"@).state == "connected"@,
        after_linux_line(current, before + "MouseVPN connected"@ + detail).state == "connected"@,
        !text::contains_text("MOUSEVPN_ERROR="@ + detail, "MouseVPN connected"@)
            ==> after_linux_line(current, "MOUSEVPN_ERROR="@ + detail) == restated(
            current,
            "error"@,
            detail,
        ),
{
    let sought = "MouseVPN connected"@;
    let line = before + sought + detail;
    let at = before.len() as int;
    assert(line.subrange(at, at + sought.len()) =~= sought);
    assert(text::occurs_at(line, sought, at));
    reveal_strlit("MOUSEVPN_STATE=connected");
    reveal_strlit("MOUSEVPN_ERROR=");
    let prefix = "MOUSEVPN_ERROR="@;
    let failed = prefix + detail;
    assert(failed[9] == 'E');
    assert("MOUSEVPN_STATE=connected"@[9] == 'S');
    assert(failed.subrange(0, prefix.len() as int) =~= prefix);
    assert(text::after_prefix(failed, prefix) =~= detail);
}

/// A helper that ends as it was asked to, or without a failure, leaves the
/// client as if nothing had run. One that breaks off leaves an error.
pub proof fn a_helper_that_ended_as_asked_leaves_nothing(current: SnapshotModel)
    ensures
        after_helper_exit(current, true).state == "disconnected"@,
        after_helper_exit(current, true).profile_id is None,
        current.state == "disconnecting"@ ==> after_helper_exit(current, false)
            == after_helper_exit(current, true),
        current.state != "disconnecting"@ ==> after_helper_exit(current, false).state == "error"@,
        current.state != "disconnecting"@ ==> after_helper_exit(current, false).profile_id
            == current.profile_id,
        is_active("connected"@) && is_active("connecting"@) && is_active("disconnecting"@),
        !is_active("disconnected"@) && !is_active("error"@),
{
    reveal_strlit("error");
    reveal_strlit("disconnecting");
    reveal_strlit("disconnected");
    reveal_strlit("connected");
    reveal_strlit("connecting");
    assert("error"@.len() == 5);
    assert("disconnected"@.len() == 12);
    assert("disconnecting"@.len() == 13);
    assert("connected"@.len() == 9);
    assert("connecting"@.len() == 10);
}

/// Restart number `n` waits for two to the power `n` seconds, and sixteen from
/// the fifth on.
pub proof fn restarts_wait_for_powers_of_two(n: nat)
    ensures
        backoff_before(0) == 1_000_000_000,
        n < 4 ==> backoff_before(n + 1) == 2 * backoff_before(n),
        n >= 4 ==> backoff_before(n) == 16_000_000_000,
        EXIT_POLLS == 100,
        WAIT_POLL * 10 == 1_000_000_000,
{
    restarts_back_off(n);
    reveal_with_fuel(backoff_before, 6);
}

/// Each announcement is shown in its own words.
pub proof fn announcements_are_shown_in_words(current: SnapshotModel)
    requires
        !text::starts_with(current.message, "Восстанавливаем VPN:"@),
    ensures
        after_windows_line(current, "MOUSEVPN_STATE=connected"@, None).message
            == "Защищённое соединение установлено"@,
        after_windows_line(current, "MOUSEVPN_STATE=reconnecting"@, None).message
            == "Связь потеряна, переподключаемся…"@,
        after_windows_line(current, "MOUSEVPN_STATE=reconnected"@, None).message
            == "Соединение восстановлено"@,
        after_windows_line(current, "MOUSEVPN_STATE=restarting"@, None).message
            == "Перезапускаем сетевой туннель без утечки трафика…"@,
        after_linux_line(current, "MOUSEVPN_STATE=connected"@).message
            == "Защищённое соединение установлено"@,
        idle().message == "VPN выключен"@,
        current.state == "connected"@ ==> after_helper_exit(current, false).message
            == "VPN-процесс неожиданно завершился"@,
        connecting(Desktop::Windows, current.message).message == "Настраиваем Wintun и маршруты…"@,
        connecting(Desktop::Linux, current.message).message == "Ожидание разрешения PolicyKit…"@,
        connecting(Desktop::Linux, current.message).state == "connecting"@,
        connecting(Desktop::Linux, current.message).profile_id == Some(current.message),
{
    reveal_strlit("MOUSEVPN_STATE=connected");
    reveal_strlit("MOUSEVPN_STATE=reconnecting");
    reveal_strlit("MOUSEVPN_STATE=reconnected");
    reveal_strlit("MOUSEVPN_STATE=restarting");
    assert("MOUSEVPN_STATE=connected"@.len() == 24);
    assert("MOUSEVPN_STATE=reconnecting"@.len() == 27);
    assert("MOUSEVPN_STATE=reconnected"@.len() == 26);
    assert("MOUSEVPN_STATE=restarting"@.len() == 25);
    reveal_strlit("connected");
    reveal_strlit("disconnecting");
    reveal_strlit("error");
    assert("connected"@.len() == 9);
    assert("disconnecting"@.len() == 13);
    assert("error"@.len() == 5);
}

/// The tray connects what is off, disconnects what is on, and waits for what
/// is being switched off.
pub proof fn the_tray_switches_the_connection(snapshot: &ConnectionSnapshot, action: ToggleAction)
    requires
        call_ensures(ConnectionSnapshot::toggle_action, (snapshot,), action),
    ensures
        snapshot.state@ == "disconnected"@ || snapshot.state@ == "error"@ ==> action is Connect,
        snapshot.state@ == "connected"@ || snapshot.state@ == "connecting"@ ==> action
            is Disconnect,
        snapshot.state@ == "disconnecting"@ ==> action is Wait,
{
    reveal_strlit("error");
    reveal_strlit("disconnecting");
    reveal_strlit("disconnected");
    reveal_strlit("connected");
    reveal_strlit("connecting");
    assert("error"@.len() == 5);
    assert("disconnected"@.len() == 12);
    assert("disconnecting"@.len() == 13);
    assert("connected"@.len() == 9);
    assert("connecting"@.len() == 10);
}

/// A profile in use keeps its protocol and is not deleted. Any other can be
/// changed and deleted.
pub proof fn profiles_in_use_are_kept(
    snapshot: &ConnectionSnapshot,
    id: &str,
    changed: Result<(), String>,
    deleted: Result<(), String>,
)
    requires
        call_ensures(ConnectionSnapshot::check_protocol_change, (snapshot, id), changed),
        call_ensures(ConnectionSnapshot::check_deletion, (snapshot, id), deleted),
    ensures
        snapshot@.profile_id != Some(id@) ==> changed is Ok && deleted is Ok,
        snapshot@.profile_id == Some(id@) && snapshot.state@ == "connected"@ ==> changed is Err
            && deleted is Err,
        snapshot@.profile_id == Some(id@) && snapshot.state@ == "error"@ ==> changed is Ok
            && deleted is Err,
        snapshot.state@ == "disconnected"@ ==> changed is Ok && deleted is Ok,
{
    reveal_strlit("error");
    reveal_strlit("disconnecting");
    reveal_strlit("disconnected");
    reveal_strlit("connected");
    reveal_strlit("connecting");
    assert("error"@.len() == 5);
    assert("disconnected"@.len() == 12);
    assert("disconnecting"@.len() == 13);
    assert("connected"@.len() == 9);
    assert("connecting"@.len() == 10);
}

/// The tray connects the profile used last while it exists, and else the first.
pub proof fn the_last_profile_is_connected_again(
    remembered: String,
    first: String,
    kept: Result<String, String>,
    gone: Result<String, String>,
    fresh: Result<String, String>,
    none: Result<String, String>,
)
    requires
        call_ensures(profile_to_connect, (Some(remembered), true, Some(first)), kept),
        call_ensures(profile_to_connect, (Some(remembered), false, Some(first)), gone),
        call_ensures(profile_to_connect, (None::<String>, false, Some(first)), fresh),
        call_ensures(profile_to_connect, (Some(remembered), false, None::<String>), none),
    ensures
        kept == Ok::<String, String>(remembered),
        gone == Ok::<String, String>(first),
        fresh == Ok::<String, String>(first),
        none is Err,
{
}

/// The exit waits a hundred times for the helper to end before it ends it by
/// force.
pub proof fn the_exit_waits_a_hundred_times(polls: u32, step: ExitStep, ended: ExitStep)
    requires
        call_ensures(exit_step, (polls, false), step),
        call_ensures(exit_step, (polls, true), ended),
    ensures
        ended is Finished,
        step is WaitAndKill <==> polls >= 100,
        step is Wait <==> polls < 100,
{
}

/// A helper restarts a session that failed, unless it is to stop.
pub proof fn failed_sessions_are_restarted(
    result: Result<(), String>,
    stopping: bool,
    next: HelperNext,
)
    requires
        call_ensures(after_session, (result, stopping), next),
    ensures
        next is Restart <==> result is Err && !stopping,
        next matches HelperNext::Restart { lines } ==> lines@.len() == 2 && text::texts(lines@)[1]
            == "MOUSEVPN_STATE=restarting"@ && (result matches Err(e) && text::texts(lines@)[0]
            == "MOUSEVPN_RUNTIME_WARNING="@ + e@),
{
    if next is Restart {
        assert(text::texts(next->lines@).len() == 2);
    }
}

} // verus!
