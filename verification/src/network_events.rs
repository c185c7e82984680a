//! Reconnects when the network under the tunnel changes.

use vstd::prelude::*;

use crate::error::is_platform;
use crate::{clock, netcfg, ClientError};

verus! {

/// Requests closer together than this count as one.
pub const DEBOUNCE: u128 = 400_000_000;

/// The machine woke up without a user asking for it.
pub const PBT_APMRESUMEAUTOMATIC: u32 = 18;

/// What the notifications of the system have asked for.
#[derive(Clone, Copy, Debug, PartialEq, Eq, Structural)]
pub struct EventContext {
    pub reconnect_requested: bool,
    /// The index of the tunnel's own interface.
    pub tunnel_index: u32,
    pub last_request: Option<u128>,
}

impl EventContext {
    /// This context once a reconnect was asked for at `now`.
    pub open spec fn requested(&self, now: u128) -> EventContext {
        let due = match self.last_request {
            None => true,
            Some(previous) => clock::span(now, previous) >= DEBOUNCE,
        };
        if due {
            EventContext { reconnect_requested: true, last_request: Some(now), ..*self }
        } else {
            *self
        }
    }

    pub fn new(tunnel_index: u32) -> (context: EventContext)
        ensures
            context == (EventContext {
                reconnect_requested: false,
                tunnel_index,
                last_request: None,
            }),
    {
        EventContext { reconnect_requested: false, tunnel_index, last_request: None }
    }

    /// Asks for a reconnect, unless one was asked for a moment ago.
    pub fn request_reconnect(&mut self, now: u128)
        ensures
            *final(self) == old(self).requested(now),
    {
        let due = match self.last_request {
            None => true,
            Some(previous) => clock::elapsed(now, previous) >= DEBOUNCE,
        };
        if due {
            self.last_request = Some(now);
            self.reconnect_requested = true;
        }
    }

    /// An address changed on the interface `index`. Changes of the tunnel's
    /// own interface are ours and ask for nothing.
    pub fn address_changed(&mut self, index: u32, now: u128)
        ensures
            *final(self) == (if index != old(self).tunnel_index {
                old(self).requested(now)
            } else {
                *old(self)
            }),
    {
        if index != self.tunnel_index {
            self.request_reconnect(now);
        }
    }

    /// The power state changed.
    pub fn power_changed(&mut self, event: u32, now: u128)
        ensures
            *final(self) == (if event == PBT_APMRESUMEAUTOMATIC {
                old(self).requested(now)
            } else {
                *old(self)
            }),
    {
        if event == PBT_APMRESUMEAUTOMATIC {
            self.request_reconnect(now);
        }
    }

    /// Takes the request, if there is one.
    pub fn take_request(&mut self) -> (requested: bool)
        ensures
            requested == old(self).reconnect_requested,
            *final(self) == (EventContext { reconnect_requested: false, ..*old(self) }),
    {
        let requested = self.reconnect_requested;
        self.reconnect_requested = false;
        requested
    }
}

/// A burst of notifications asks for one reconnect: once it is taken, those
/// that follow within the debounce span ask for nothing.
pub proof fn a_burst_asks_once(context: EventContext, first: u128, next: u128)
    requires
        context.last_request is None,
        clock::span(next, first) < DEBOUNCE,
    ensures
        context.requested(first).reconnect_requested,
        (EventContext { reconnect_requested: false, ..context.requested(first) }).requested(next)
            == (EventContext { reconnect_requested: false, ..context.requested(first) }),
{
}

/// A notification counts exactly when it is the first, or comes 400 milliseconds
/// or more after the last one that counted. One that counts asks for a
/// reconnect and is remembered; any other changes nothing.
pub proof fn spaced_notifications_count(context: EventContext, now: u128)
    ensures
        context.last_request is None || (context.last_request matches Some(previous) && now
            >= previous + 400_000_000) ==> context.requested(now) == (EventContext {
            reconnect_requested: true,
            tunnel_index: context.tunnel_index,
            last_request: Some(now),
        }),
        (context.last_request matches Some(previous) && now < previous + 400_000_000)
            ==> context.requested(now) == context,
{
}

/// However often the system notifies, notifications 400 milliseconds apart or
/// more each ask for a reconnect, also once the one before was taken.
pub proof fn a_later_change_asks_again(context: EventContext, first: u128, next: u128)
    requires
        context.last_request matches Some(previous) ==> first >= previous + 400_000_000,
        next >= first + 400_000_000,
    ensures
        context.requested(first).reconnect_requested,
        (EventContext { reconnect_requested: false, ..context.requested(first) }).requested(
            next,
        ).reconnect_requested,
{
}

/// Windows reports an unattended wake-up as event 18.
pub proof fn resume_is_the_event_windows_sends()
    ensures
        PBT_APMRESUMEAUTOMATIC == 0x12,
{
}

/// The calls that subscribe to the notifications.
#[derive(Clone, Copy, Debug, PartialEq, Eq, Structural)]
pub enum SubscribeCall {
    ResolveIndex,
    AddressChanges,
    ResumeEvents,
}

/// What subscribing does next.
#[derive(Debug)]
pub enum SubscribeNext {
    Call(SubscribeCall),
    Done,
    /// Cancel the subscription to address changes where there is one, and
    /// report.
    Fail { cancel_addresses: bool, error: ClientError },
}

pub open spec fn subscribe_text(call: SubscribeCall) -> Seq<char> {
    match call {
        SubscribeCall::ResolveIndex => "resolve the Wintun interface index"@,
        SubscribeCall::AddressChanges => "subscribe to Windows address changes"@,
        SubscribeCall::ResumeEvents => "subscribe to Windows resume events"@,
    }
}

/// Decides what follows a call that returned `code`.
pub fn after_subscribe_call(call: SubscribeCall, code: u32) -> (next: SubscribeNext)
    ensures
        if code == 0 {
            match call {
                SubscribeCall::ResolveIndex => next == SubscribeNext::Call(
                    SubscribeCall::AddressChanges,
                ),
                SubscribeCall::AddressChanges => next == SubscribeNext::Call(
                    SubscribeCall::ResumeEvents,
                ),
                SubscribeCall::ResumeEvents => next is Done,
            }
        } else {
            &&& next matches SubscribeNext::Fail { cancel_addresses, error }
            &&& cancel_addresses == (call is ResumeEvents)
            &&& is_platform(error, netcfg::win32_error_text(subscribe_text(call), code))
        },
{
    match call {
        SubscribeCall::ResolveIndex => {
            if code == 0 {
                SubscribeNext::Call(SubscribeCall::AddressChanges)
            } else {
                SubscribeNext::Fail {
                    cancel_addresses: false,
                    error: netcfg::win32_error("resolve the Wintun interface index", code),
                }
            }
        },
        SubscribeCall::AddressChanges => {
            if code == 0 {
                SubscribeNext::Call(SubscribeCall::ResumeEvents)
            } else {
                SubscribeNext::Fail {
                    cancel_addresses: false,
                    error: netcfg::win32_error("subscribe to Windows address changes", code),
                }
            }
        },
        SubscribeCall::ResumeEvents => {
            if code == 0 {
                SubscribeNext::Done
            } else {
                SubscribeNext::Fail {
                    cancel_addresses: true,
                    error: netcfg::win32_error("subscribe to Windows resume events", code),
                }
            }
        },
    }
}

/// The tunnel is looked up, addresses are subscribed to and then the resume of
/// the machine. Only a failure of the last call has something to take back.
pub proof fn subscriptions_are_made_in_order(
    call: SubscribeCall,
    code: u32,
    done: SubscribeNext,
    failed: SubscribeNext,
)
    requires
        code != 0,
        call_ensures(after_subscribe_call, (call, 0u32), done),
        call_ensures(after_subscribe_call, (call, code), failed),
    ensures
        call is ResolveIndex ==> done == SubscribeNext::Call(SubscribeCall::AddressChanges),
        call is AddressChanges ==> done == SubscribeNext::Call(SubscribeCall::ResumeEvents),
        call is ResumeEvents ==> done is Done,
        failed matches SubscribeNext::Fail { cancel_addresses, error } && (cancel_addresses <==> call
            is ResumeEvents) && is_platform(
            error,
            "failed to "@ + (match call {
                SubscribeCall::ResolveIndex => "resolve the Wintun interface index"@,
                SubscribeCall::AddressChanges => "subscribe to Windows address changes"@,
                SubscribeCall::ResumeEvents => "subscribe to Windows resume events"@,
            }) + ": Windows error "@ + crate::text::decimal(code as nat),
        ),
{
}

} // verus!
