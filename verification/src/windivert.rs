//! The vocabulary of the `WinDivert` 2.2 driver.
//!
//! The driver itself is reached through its DLL. Here stand the layouts it
//! exchanges, the parameters it is given, and what each of its answers means.

use vstd::prelude::*;

use crate::error::is_platform;
use crate::{bytes, error, text, ClientError};

verus! {

/// Layer identifiers from `WINDIVERT_LAYER`.
pub const LAYER_NETWORK: u32 = 0;

pub const LAYER_FLOW: u32 = 2;

pub const LAYER_SOCKET: u32 = 3;

/// Event identifiers from `WINDIVERT_EVENT`.
pub const EVENT_FLOW_ESTABLISHED: u32 = 1;

pub const EVENT_FLOW_DELETED: u32 = 2;

pub const EVENT_SOCKET_CONNECT: u32 = 4;

pub const EVENT_SOCKET_CLOSE: u32 = 7;

/// Handle flags from `WINDIVERT_FLAG_*`.
pub const FLAG_SNIFF: u64 = 0x0001;

pub const FLAG_RECV_ONLY: u64 = 0x0004;

/// `WINDIVERT_SHUTDOWN_BOTH`.
pub const SHUTDOWN_BOTH: u32 = 0x3;

/// The largest packet `WinDivert` will hand back, from `WINDIVERT_MTU_MAX`.
pub const MTU_MAX: usize = 40 + 0xFFFF;

/// The most packets one batch can carry, from `WINDIVERT_BATCH_MAX`.
pub const BATCH_MAX: usize = 0xFF;

/// The size of a `WINDIVERT_ADDRESS` in bytes.
pub const ADDRESS_SIZE: u32 = 80;

/// `WINDIVERT_PARAM_*`.
pub const PARAM_QUEUE_LENGTH: u32 = 0;

pub const PARAM_QUEUE_TIME: u32 = 1;

pub const PARAM_QUEUE_SIZE: u32 = 2;

/// The queue the driver fills while user mode is busy elsewhere.
///
/// A split tunnel sits on the path of every connection the machine makes, and
/// a burst that outruns the capture loop is discarded by the driver. The
/// maxima cost pinned kernel memory only while the queue is actually full.
pub const QUEUE_LENGTH: u64 = 16_384;

pub const QUEUE_SIZE: u64 = 33_554_432;

/// Deliberately below the 16 s maximum: a packet held longer than this is one
/// the sender has already retransmitted.
pub const QUEUE_TIME: u64 = 4_000;

/// A shut-down handle has no more data to hand over.
pub const ERROR_NO_DATA: i32 = 232;

pub const ERROR_ACCESS_DENIED: i32 = 5;

pub const ERROR_INVALID_PARAMETER: i32 = 87;

pub const ERROR_INVALID_IMAGE_HASH: i32 = 577;

pub const ERROR_SERVICE_ALREADY_RUNNING: u32 = 1056;

pub const ERROR_SERVICE_DISABLED: i32 = 1058;

pub const ERROR_SERVICE_DOES_NOT_EXIST: u32 = 1060;

pub const ERROR_DRIVER_BLOCKED: i32 = 1275;

/// A `WinDivert` address, mirroring `WINDIVERT_ADDRESS`.
///
/// The layer, the event and eight one-bit properties share one word, allocated
/// from the least significant bit upwards.
#[derive(Clone, Copy)]
pub struct Address {
    pub timestamp: i64,
    pub bitfield: u32,
    pub reserved: u32,
    /// The `WINDIVERT_DATA_*` union, which [`Address::flow`] reads once the
    /// layer says what it holds.
    pub payload: [u8; 64],
}

/// `WINDIVERT_DATA_FLOW`.
#[derive(Clone, Copy)]
pub struct FlowData {
    pub endpoint_id: u64,
    pub parent_endpoint_id: u64,
    pub process_id: u32,
    pub local_addr: [u32; 4],
    pub remote_addr: [u32; 4],
    pub local_port: u16,
    pub remote_port: u16,
    pub protocol: u8,
}

pub open spec fn layer_of(bitfield: u32) -> u32 {
    bitfield % 256
}

pub open spec fn event_of(bitfield: u32) -> u32 {
    bitfield / 256 % 256
}

/// Bit 20 marks IPv6.
pub open spec fn ipv6_of(bitfield: u32) -> bool {
    bitfield / 1048576 % 2 == 1
}

/// Whether `flow` is what the union `payload` holds as flow data.
pub open spec fn is_flow_data(flow: FlowData, payload: Seq<u8>) -> bool {
    &&& flow.endpoint_id == bytes::le64(payload, 0)
    &&& flow.parent_endpoint_id == bytes::le64(payload, 8)
    &&& flow.process_id == bytes::le32(payload, 16)
    &&& flow.local_addr@ == seq![
        bytes::le32(payload, 20),
        bytes::le32(payload, 24),
        bytes::le32(payload, 28),
        bytes::le32(payload, 32),
    ]
    &&& flow.remote_addr@ == seq![
        bytes::le32(payload, 36),
        bytes::le32(payload, 40),
        bytes::le32(payload, 44),
        bytes::le32(payload, 48),
    ]
    &&& flow.local_port == bytes::le16(payload, 52)
    &&& flow.remote_port == bytes::le16(payload, 54)
    &&& flow.protocol == payload[56]
}

/// Four consecutive little-endian words.
fn read_words(payload: &[u8], at: usize) -> (words: [u32; 4])
    requires
        at + 16 <= payload.len(),
    ensures
        words@ == seq![
            bytes::le32(payload@, at as int),
            bytes::le32(payload@, at + 4),
            bytes::le32(payload@, at + 8),
            bytes::le32(payload@, at + 12),
        ],
{
    let words = [
        bytes::read_le32(payload, at),
        bytes::read_le32(payload, at + 4),
        bytes::read_le32(payload, at + 8),
        bytes::read_le32(payload, at + 12),
    ];
    assert(words@ =~= seq![
        bytes::le32(payload@, at as int),
        bytes::le32(payload@, at + 4),
        bytes::le32(payload@, at + 8),
        bytes::le32(payload@, at + 12),
    ]);
    words
}

impl Address {
    pub fn zeroed() -> (address: Address)
        ensures
            address.timestamp == 0,
            address.bitfield == 0,
            address.reserved == 0,
            address.payload@ == Seq::new(64, |i: int| 0u8),
    {
        let address = Address { timestamp: 0, bitfield: 0, reserved: 0, payload: [0; 64] };
        assert(address.payload@ =~= Seq::new(64, |i: int| 0u8));
        address
    }

    /// Describes an inbound network packet arriving on `interface_index`.
    ///
    /// Injecting a packet the stack never saw needs an address built by hand.
    /// The network layer and the packet event are both zero, and leaving the
    /// outbound bit clear is what marks the packet as arriving.
    pub fn for_inbound(interface_index: u32, sub_interface_index: u32) -> (address: Address)
        ensures
            address.timestamp == 0,
            address.bitfield == LAYER_NETWORK,
            address.reserved == 0,
            address.payload@ == bytes::le32_bytes(interface_index) + bytes::le32_bytes(
                sub_interface_index,
            ) + Seq::new(56, |i: int| 0u8),
    {
        let mut address = Address::zeroed();
        address.bitfield = LAYER_NETWORK;
        address.payload[0] = (interface_index % 256) as u8;
        address.payload[1] = (interface_index / 256 % 256) as u8;
        address.payload[2] = (interface_index / 65536 % 256) as u8;
        address.payload[3] = (interface_index / 16777216) as u8;
        address.payload[4] = (sub_interface_index % 256) as u8;
        address.payload[5] = (sub_interface_index / 256 % 256) as u8;
        address.payload[6] = (sub_interface_index / 65536 % 256) as u8;
        address.payload[7] = (sub_interface_index / 16777216) as u8;
        assert(address.payload@ =~= bytes::le32_bytes(interface_index) + bytes::le32_bytes(
            sub_interface_index,
        ) + Seq::new(56, |i: int| 0u8));
        address
    }

    pub fn layer(&self) -> (layer: u32)
        ensures
            layer == layer_of(self.bitfield),
    {
        self.bitfield % 256
    }

    pub fn event(&self) -> (event: u32)
        ensures
            event == event_of(self.bitfield),
    {
        self.bitfield / 256 % 256
    }

    pub fn ipv6(&self) -> (ipv6: bool)
        ensures
            ipv6 == ipv6_of(self.bitfield),
    {
        self.bitfield / 1048576 % 2 == 1
    }

    /// Reads the union as flow data.
    ///
    /// The socket layer shares this member's layout exactly, and both are read
    /// the same way. Any other layer returns `None`, so a mismatched one cannot
    /// be read as the wrong union member.
    pub fn flow(&self) -> (flow: Option<FlowData>)
        ensures
            flow is Some <==> layer_of(self.bitfield) == LAYER_FLOW || layer_of(self.bitfield)
                == LAYER_SOCKET,
            flow matches Some(f) ==> is_flow_data(f, self.payload@),
    {
        if self.layer() != LAYER_FLOW && self.layer() != LAYER_SOCKET {
            return None;
        }
        let payload: &[u8] = &self.payload;
        Some(
            FlowData {
                endpoint_id: bytes::read_le64(payload, 0),
                parent_endpoint_id: bytes::read_le64(payload, 8),
                process_id: bytes::read_le32(payload, 16),
                local_addr: read_words(payload, 20),
                remote_addr: read_words(payload, 36),
                local_port: bytes::read_le16(payload, 52),
                remote_port: bytes::read_le16(payload, 54),
                protocol: payload[56],
            },
        )
    }
}

/// One driver queue setting: the parameter, its value and its name.
pub struct QueueSetting {
    pub param: u32,
    pub value: u64,
    pub name: &'static str,
}

/// The settings that enlarge the driver-side queue behind a handle.
pub fn queue_settings() -> (settings: Vec<QueueSetting>)
    ensures
        settings@.len() == 3,
        settings@[0].param == PARAM_QUEUE_LENGTH && settings@[0].value == QUEUE_LENGTH
            && settings@[0].name@ == "length"@,
        settings@[1].param == PARAM_QUEUE_SIZE && settings@[1].value == QUEUE_SIZE
            && settings@[1].name@ == "size"@,
        settings@[2].param == PARAM_QUEUE_TIME && settings@[2].value == QUEUE_TIME
            && settings@[2].name@ == "time"@,
{
    vec![
        QueueSetting { param: PARAM_QUEUE_LENGTH, value: QUEUE_LENGTH, name: "length" },
        QueueSetting { param: PARAM_QUEUE_SIZE, value: QUEUE_SIZE, name: "size" },
        QueueSetting { param: PARAM_QUEUE_TIME, value: QUEUE_TIME, name: "time" },
    ]
}

/// What the driver library exports, in the order it is resolved.
pub open spec fn exports() -> Seq<Seq<char>> {
    seq![
        "WinDivertOpen"@,
        "WinDivertRecv"@,
        "WinDivertSend"@,
        "WinDivertShutdown"@,
        "WinDivertClose"@,
        "WinDivertHelperCalcChecksums"@,
        "WinDivertHelperCompileFilter"@,
        "WinDivertRecvEx"@,
        "WinDivertSendEx"@,
        "WinDivertSetParam"@,
        "WinDivertHelperParsePacket"@,
    ]
}

/// The names of the exports, in the order they are resolved.
pub fn export_names() -> (names: Vec<&'static str>)
    ensures
        names@.map_values(|name: &str| name@) == exports(),
{
    let names: Vec<&'static str> = vec![
        "WinDivertOpen",
        "WinDivertRecv",
        "WinDivertSend",
        "WinDivertShutdown",
        "WinDivertClose",
        "WinDivertHelperCalcChecksums",
        "WinDivertHelperCompileFilter",
        "WinDivertRecvEx",
        "WinDivertSendEx",
        "WinDivertSetParam",
        "WinDivertHelperParsePacket",
    ];
    assert(names@.map_values(|name: &str| name@) =~= exports());
    names
}

/// The entry points of the loaded library, in the order of [`export_names`].
///
/// `addresses` holds what the loader found for each name. The library is
/// refused for the first name that it does not export.
pub fn resolve_exports(addresses: &[Option<usize>]) -> (resolved: Result<Vec<usize>, ClientError>)
    requires
        addresses@.len() == 11,
    ensures
        resolved matches Ok(found) ==> found@.len() == 11 && forall|i: int|
            0 <= i < 11 ==> addresses@[i] == Some(#[trigger] found@[i]),
        resolved matches Err(e) ==> exists|i: int|
            #![trigger addresses@[i]]
            0 <= i < 11 && addresses@[i] is None && (forall|j: int|
                0 <= j < i ==> (#[trigger] addresses@[j]) is Some) && is_platform(
                e,
                "WinDivert.dll does not export "@ + exports()[i]
                    + "; expected the vendored 2.2 build"@,
            ),
        resolved is Ok <==> forall|i: int| 0 <= i < 11 ==> (#[trigger] addresses@[i]) is Some,
{
    let names = export_names();
    proof {
        let views = names@.map_values(|name: &str| name@);
        assert(views.len() == 11);
        assert forall|j: int| 0 <= j < 11 implies (#[trigger] names@[j])@ == exports()[j] by {
            assert(views[j] == names@[j]@);
        }
    }
    let mut found: Vec<usize> = Vec::new();
    let mut i: usize = 0;
    while i < 11
        invariant
            i <= 11,
            addresses@.len() == 11,
            names@.len() == 11,
            forall|j: int| 0 <= j < 11 ==> (#[trigger] names@[j])@ == exports()[j],
            found@.len() == i,
            forall|j: int| 0 <= j < i ==> addresses@[j] == Some(#[trigger] found@[j]),
            forall|j: int| 0 <= j < i ==> (#[trigger] addresses@[j]) is Some,
        decreases 11 - i,
    {
        match addresses[i] {
            Some(address) => {
                found.push(address);
            },
            None => {
                let mut message = text::owned("WinDivert.dll does not export ");
                message.append(names[i]);
                message.append("; expected the vendored 2.2 build");
                return Err(ClientError::Platform(message));
            },
        }
        i = i + 1;
    }
    Ok(found)
}

/// A text with a zero character in it cannot be handed to the driver.
pub fn check_filter_text(filter: &str) -> (result: Result<(), ClientError>)
    ensures
        result is Ok <==> !text::contains_char(filter@, '\0'),
        result matches Err(e) ==> is_platform(
            e,
            "WinDivert filter contained an interior NUL"@,
        ),
{
    let chars = text::chars_of(filter);
    let at = text::index_of(&chars, '\0');
    proof {
        text::lemma_first_index(chars@, '\0');
        if at < chars@.len() {
            assert(chars@[at as int] == '\0');
        }
    }
    if at < chars.len() {
        Err(ClientError::platform("WinDivert filter contained an interior NUL"))
    } else {
        Ok(())
    }
}

/// The error for a filter that the driver's compiler rejects.
///
/// `detail` is the reason it gave, where it gave one.
pub fn filter_rejected(position: u32, detail: Option<&str>, filter: &str) -> (error: ClientError)
    ensures
        is_platform(
            error,
            "WinDivert rejected the capture filter at position "@ + text::decimal(position as nat)
                + ": "@ + (match detail {
                Some(reason) => reason@,
                None => "no reason reported"@,
            }) + "; filter was: "@ + filter@,
        ),
{
    let mut message = text::owned("WinDivert rejected the capture filter at position ");
    text::push_decimal(&mut message, position as u128);
    message.append(": ");
    match detail {
        Some(reason) => {
            message.append(reason);
        },
        None => {
            message.append("no reason reported");
        },
    }
    message.append("; filter was: ");
    message.append(filter);
    ClientError::Platform(message)
}

/// The wording of the documented failures to open a handle.
pub open spec fn open_error_text(code: Option<i32>, detail: Seq<char>) -> Seq<char> {
    if code == Some(ERROR_ACCESS_DENIED) {
        "MouseVPN must be started as Administrator to open WinDivert"@
    } else if code == Some(ERROR_INVALID_IMAGE_HASH) {
        "Windows refused the WinDivert driver signature; the vendored WinDivert64.sys is damaged or was replaced"@
    } else if code == Some(ERROR_DRIVER_BLOCKED) {
        "Windows blocked the WinDivert driver, usually via the vulnerable driver blocklist or a security policy"@
    } else {
        "failed to open a WinDivert handle: "@ + detail
    }
}

/// Turns the documented failures to open a handle into actionable messages.
pub fn open_error(code: Option<i32>, detail: &str) -> (error: ClientError)
    ensures
        is_platform(error, open_error_text(code, detail@)),
{
    match code {
        Some(c) => {
            if c == ERROR_ACCESS_DENIED {
                return ClientError::platform(
                    "MouseVPN must be started as Administrator to open WinDivert",
                );
            }
            if c == ERROR_INVALID_IMAGE_HASH {
                return ClientError::platform(
                    "Windows refused the WinDivert driver signature; the vendored WinDivert64.sys is damaged or was replaced",
                );
            }
            if c == ERROR_DRIVER_BLOCKED {
                return ClientError::platform(
                    "Windows blocked the WinDivert driver, usually via the vulnerable driver blocklist or a security policy",
                );
            }
        },
        None => {},
    }
    ClientError::platform_with("failed to open a WinDivert handle: ", detail)
}

/// What opening a handle does next.
#[derive(Debug)]
pub enum OpenAction {
    /// Ask the filter compiler why the driver refused the filter.
    CheckFilter,
    /// Repair the registration of the driver service.
    RepairService,
    /// Try to open the handle once more.
    Retry,
    /// Give up.
    Fail(ClientError),
    /// Hand out the handle that was opened.
    Done,
}

/// What an attempt to open a handle, or one of the remedies, came to.
#[derive(Debug)]
pub enum OpenEvent {
    /// The driver returned a handle.
    Opened,
    /// The driver refused with this code, worded as given.
    Refused { code: Option<i32>, detail: String },
    /// The filter compiler accepted the filter.
    FilterAccepted,
    /// The filter compiler rejected the filter.
    FilterRejected(ClientError),
    /// The service registration was repaired.
    Repaired,
    /// The service registration could not be repaired.
    NotRepaired(ClientError),
}

/// How far opening a handle has got.
#[derive(Debug)]
pub enum OpenState {
    /// The first attempt is under way.
    Opening,
    /// The filter is being checked after a refusal.
    CheckingFilter { detail: String },
    /// The service registration is being repaired.
    Repairing,
    /// The one retry is under way.
    Retrying,
    /// Nothing more will be tried.
    Settled,
}

/// Advances the opening of a handle.
///
/// The most common cause of an invalid parameter is a filter the driver will
/// not accept, and the filter compiler can say exactly why. A service left
/// disabled by an earlier process is repaired, and the open is retried once.
/// An event that does not belong to the state settles nothing and is ignored.
pub fn advance_open(state: OpenState, event: OpenEvent) -> (next: (OpenState, Option<OpenAction>))
    ensures
        match (state, event) {
            (OpenState::Opening, OpenEvent::Opened) | (OpenState::Retrying, OpenEvent::Opened) => {
                next.0 is Settled && next.1 matches Some(OpenAction::Done)
            },
            (OpenState::Opening, OpenEvent::Refused { code, detail }) => {
                if code == Some(ERROR_INVALID_PARAMETER) {
                    &&& next.0 matches OpenState::CheckingFilter { detail: d }
                    &&& d@ == detail@
                    &&& next.1 matches Some(OpenAction::CheckFilter)
                } else if code == Some(ERROR_SERVICE_DISABLED) {
                    next.0 is Repairing && next.1 matches Some(OpenAction::RepairService)
                } else {
                    &&& next.0 is Settled
                    &&& next.1 matches Some(OpenAction::Fail(e))
                    &&& is_platform(e, open_error_text(code, detail@))
                }
            },
            (OpenState::CheckingFilter { detail }, OpenEvent::FilterAccepted) => {
                &&& next.0 is Settled
                &&& next.1 matches Some(OpenAction::Fail(e))
                &&& is_platform(e, open_error_text(Some(ERROR_INVALID_PARAMETER), detail@))
            },
            (OpenState::CheckingFilter { .. }, OpenEvent::FilterRejected(error)) => {
                &&& next.0 is Settled
                &&& next.1 matches Some(OpenAction::Fail(e))
                &&& e == error
            },
            (OpenState::Repairing, OpenEvent::Repaired) => {
                next.0 is Retrying && next.1 matches Some(OpenAction::Retry)
            },
            (OpenState::Repairing, OpenEvent::NotRepaired(error)) => {
                &&& next.0 is Settled
                &&& next.1 matches Some(OpenAction::Fail(e))
                &&& is_platform(
                    e,
                    "failed to open WinDivert (Windows error 1058) and automatic driver recovery failed: "@
                        + error::error_text(error),
                )
            },
            (OpenState::Retrying, OpenEvent::Refused { code, detail }) => {
                &&& next.0 is Settled
                &&& next.1 matches Some(OpenAction::Fail(e))
                &&& is_platform(e, open_error_text(code, detail@))
            },
            _ => next.0 == state && next.1 is None,
        },
{
    match (state, event) {
        (OpenState::Opening, OpenEvent::Opened) => (OpenState::Settled, Some(OpenAction::Done)),
        (OpenState::Retrying, OpenEvent::Opened) => (OpenState::Settled, Some(OpenAction::Done)),
        (OpenState::Opening, OpenEvent::Refused { code, detail }) => match code {
            Some(c) => {
                if c == ERROR_INVALID_PARAMETER {
                    (OpenState::CheckingFilter { detail }, Some(OpenAction::CheckFilter))
                } else if c == ERROR_SERVICE_DISABLED {
                    (OpenState::Repairing, Some(OpenAction::RepairService))
                } else {
                    (OpenState::Settled, Some(OpenAction::Fail(open_error(code, detail.as_str()))))
                }
            },
            None => (OpenState::Settled, Some(OpenAction::Fail(open_error(code, detail.as_str())))),
        },
        (OpenState::CheckingFilter { detail }, OpenEvent::FilterAccepted) => (
            OpenState::Settled,
            Some(OpenAction::Fail(open_error(Some(ERROR_INVALID_PARAMETER), detail.as_str()))),
        ),
        (OpenState::CheckingFilter { detail: _ }, OpenEvent::FilterRejected(error)) => (
            OpenState::Settled,
            Some(OpenAction::Fail(error)),
        ),
        (OpenState::Repairing, OpenEvent::Repaired) => (
            OpenState::Retrying,
            Some(OpenAction::Retry),
        ),
        (OpenState::Repairing, OpenEvent::NotRepaired(error)) => (
            OpenState::Settled,
            Some(
                OpenAction::Fail(
                    ClientError::platform_with(
                        "failed to open WinDivert (Windows error 1058) and automatic driver recovery failed: ",
                        error.message().as_str(),
                    ),
                ),
            ),
        ),
        (OpenState::Retrying, OpenEvent::Refused { code, detail }) => (
            OpenState::Settled,
            Some(OpenAction::Fail(open_error(code, detail.as_str()))),
        ),
        (state, _) => (state, None),
    }
}

/// The calls that repair the driver service, in order.
#[derive(Clone, Copy, Debug, PartialEq, Eq, Structural)]
pub enum RepairCall {
    OpenManager,
    OpenService,
    /// Restores the demand-start mode and the path of the driver beside the
    /// library.
    RestoreConfiguration,
    StartDriver,
}

/// What the repair does next.
#[derive(Debug)]
pub enum RepairNext {
    Call(RepairCall),
    /// Close what was opened, the service before the manager, and report.
    Finish { close_service: bool, close_manager: bool, outcome: Result<(), ClientError> },
}

/// Whether the manager is open once `call` has been made.
pub open spec fn manager_open(call: RepairCall, failed: bool) -> bool {
    !(call is OpenManager && failed)
}

/// Whether the service is open once `call` has been made.
pub open spec fn service_open(call: RepairCall, failed: bool) -> bool {
    match call {
        RepairCall::OpenManager => false,
        RepairCall::OpenService => !failed,
        _ => true,
    }
}

/// Why `call` failing with `code`, worded `detail`, ends the repair.
pub open spec fn repair_failure_text(call: RepairCall, code: u32, detail: Seq<char>) -> Seq<char> {
    match call {
        RepairCall::OpenManager => "failed to open the Windows Service Control Manager: "@ + detail,
        RepairCall::OpenService => if code == ERROR_SERVICE_DOES_NOT_EXIST {
            "WinDivert service is not registered; WinDivertOpen should install it automatically, so automatic recovery was not attempted"@
        } else {
            "failed to open the WinDivert service: Windows error "@ + text::decimal(code as nat)
        },
        RepairCall::RestoreConfiguration =>
            "failed to restore WinDivert service configuration: "@ + detail,
        RepairCall::StartDriver => "failed to start the WinDivert driver after repair: Windows error "@
            + text::decimal(code as nat),
    }
}

/// Decides what follows a repair call that was made with the given result.
///
/// `failure` holds the Windows error of a call that failed, and its wording.
/// A driver that already runs is as good as one that was started. Whatever the
/// calls came to, exactly the handles that were opened are closed.
pub fn after_repair_call(call: RepairCall, failure: Option<(u32, &str)>) -> (next: RepairNext)
    ensures
        match failure {
            None => match call {
                RepairCall::OpenManager => next == RepairNext::Call(RepairCall::OpenService),
                RepairCall::OpenService => next == RepairNext::Call(
                    RepairCall::RestoreConfiguration,
                ),
                RepairCall::RestoreConfiguration => next == RepairNext::Call(
                    RepairCall::StartDriver,
                ),
                RepairCall::StartDriver => next == (RepairNext::Finish {
                    close_service: true,
                    close_manager: true,
                    outcome: Ok(()),
                }),
            },
            Some((code, detail)) => if call is StartDriver && code
                == ERROR_SERVICE_ALREADY_RUNNING {
                next == (RepairNext::Finish {
                    close_service: true,
                    close_manager: true,
                    outcome: Ok(()),
                })
            } else {
                &&& next matches RepairNext::Finish { close_service, close_manager, outcome: Err(e) }
                &&& close_service == service_open(call, true)
                &&& close_manager == manager_open(call, true)
                &&& is_platform(e, repair_failure_text(call, code, detail@))
            },
        },
{
    match failure {
        None => match call {
            RepairCall::OpenManager => RepairNext::Call(RepairCall::OpenService),
            RepairCall::OpenService => RepairNext::Call(RepairCall::RestoreConfiguration),
            RepairCall::RestoreConfiguration => RepairNext::Call(RepairCall::StartDriver),
            RepairCall::StartDriver => RepairNext::Finish {
                close_service: true,
                close_manager: true,
                outcome: Ok(()),
            },
        },
        Some((code, detail)) => match call {
            RepairCall::OpenManager => RepairNext::Finish {
                close_service: false,
                close_manager: false,
                outcome: Err(
                    ClientError::platform_with(
                        "failed to open the Windows Service Control Manager: ",
                        detail,
                    ),
                ),
            },
            RepairCall::OpenService => RepairNext::Finish {
                close_service: false,
                close_manager: true,
                outcome: Err(
                    if code == ERROR_SERVICE_DOES_NOT_EXIST {
                        ClientError::platform(
                            "WinDivert service is not registered; WinDivertOpen should install it automatically, so automatic recovery was not attempted",
                        )
                    } else {
                        ClientError::platform_code(
                            "failed to open the WinDivert service: Windows error ",
                            code,
                        )
                    },
                ),
            },
            RepairCall::RestoreConfiguration => RepairNext::Finish {
                close_service: true,
                close_manager: true,
                outcome: Err(
                    ClientError::platform_with(
                        "failed to restore WinDivert service configuration: ",
                        detail,
                    ),
                ),
            },
            RepairCall::StartDriver => {
                let outcome = if code == ERROR_SERVICE_ALREADY_RUNNING {
                    Ok(())
                } else {
                    Err(
                        ClientError::platform_code(
                            "failed to start the WinDivert driver after repair: Windows error ",
                            code,
                        ),
                    )
                };
                RepairNext::Finish { close_service: true, close_manager: true, outcome }
            },
        },
    }
}

/// The length of the first packet in a batch of `total` bytes.
///
/// A batch carries no framing, so the driver is asked where the first packet
/// ends. `parsed` says that it could tell, and `remainder` how many bytes
/// follow the packet. `None` means that the rest of the batch can no longer be
/// located and must be abandoned.
pub fn first_packet_len(total: usize, parsed: bool, remainder: u32) -> (length: Option<usize>)
    ensures
        length is Some <==> parsed && total <= u32::MAX && remainder < total,
        length matches Some(l) ==> l == total - remainder,
{
    if total > u32::MAX as usize || !parsed || remainder as usize >= total {
        None
    } else {
        Some(total - remainder as usize)
    }
}

/// What a failed receive means.
///
/// A shutdown drains the queue and then reports no more data. That is an
/// orderly stop, not a failure.
pub fn receive_failure(code: Option<i32>, detail: &str, batch: bool) -> (outcome: Result<
    (),
    ClientError,
>)
    ensures
        outcome is Ok <==> code == Some(ERROR_NO_DATA),
        outcome matches Err(e) ==> is_platform(
            e,
            (if batch {
                "WinDivert batch receive failed: "@
            } else {
                "WinDivert receive failed: "@
            }) + detail@,
        ),
{
    match code {
        Some(c) => {
            if c == ERROR_NO_DATA {
                return Ok(());
            }
        },
        None => {},
    }
    if batch {
        Err(ClientError::platform_with("WinDivert batch receive failed: ", detail))
    } else {
        Err(ClientError::platform_with("WinDivert receive failed: ", detail))
    }
}

/// How many bytes and how many addresses a batch receive filled.
///
/// The driver reports addresses as a byte count. Were it ever a packet count,
/// the division would come to zero and every packet would be discarded in
/// silence, so packets without a single address are an error.
pub fn received_batch(received: u32, address_bytes: u32) -> (batch: Result<
    (usize, usize),
    ClientError,
>)
    ensures
        batch is Err <==> received != 0 && address_bytes < ADDRESS_SIZE,
        batch matches Ok((length, count)) ==> length == received && count == address_bytes
            / ADDRESS_SIZE,
        batch matches Err(e) ==> is_platform(
            e,
            "WinDivert returned "@ + text::decimal(received as nat)
                + " byte(s) of packets against "@ + text::decimal(address_bytes as nat)
                + " byte(s) of addresses, which is not a whole number of addresses; the WinDivert.dll beside MouseVPN does not match the expected 2.2 ABI"@,
        ),
{
    let filled = address_bytes / ADDRESS_SIZE;
    if filled == 0 && received != 0 {
        let mut message = text::owned("WinDivert returned ");
        text::push_decimal(&mut message, received as u128);
        message.append(" byte(s) of packets against ");
        text::push_decimal(&mut message, address_bytes as u128);
        message.append(
            " byte(s) of addresses, which is not a whole number of addresses; the WinDivert.dll beside MouseVPN does not match the expected 2.2 ABI",
        );
        return Err(ClientError::Platform(message));
    }
    Ok((received as usize, filled as usize))
}

/// The byte counts a batch of packets and its addresses are sent with.
///
/// `Ok(None)` means that there is nothing to send.
pub fn batch_lengths(packet_bytes: usize, addresses: usize) -> (lengths: Result<
    Option<(u32, u32)>,
    ClientError,
>)
    ensures
        match lengths {
            Ok(None) => packet_bytes == 0 || addresses == 0,
            Ok(Some((p, a))) => packet_bytes > 0 && addresses > 0 && p == packet_bytes && a
                == addresses * ADDRESS_SIZE,
            Err(e) => packet_bytes > 0 && addresses > 0 && if packet_bytes > u32::MAX {
                is_platform(e, "packet batch is too large for WinDivert"@)
            } else {
                &&& addresses * ADDRESS_SIZE > u32::MAX
                &&& is_platform(e, "address batch is too large for WinDivert"@)
            },
        },
{
    if packet_bytes == 0 || addresses == 0 {
        return Ok(None);
    }
    if packet_bytes > u32::MAX as usize {
        return Err(ClientError::platform("packet batch is too large for WinDivert"));
    }
    if addresses > (u32::MAX / ADDRESS_SIZE) as usize {
        return Err(ClientError::platform("address batch is too large for WinDivert"));
    }
    Ok(Some((packet_bytes as u32, addresses as u32 * ADDRESS_SIZE)))
}

/// Where the driver library is expected, given what stands beside the program.
///
/// The library installs the driver from its own directory, so a library
/// without the driver beside it is refused here rather than later with a much
/// less obvious error.
pub fn check_library(directory: &str, library_present: bool, driver_present: bool) -> (result:
    Result<(), ClientError>)
    ensures
        result is Ok <==> library_present && driver_present,
        result matches Err(e) ==> if !library_present {
            is_platform(
                e,
                "WinDivert.dll is missing from "@ + directory@
                    + "; reinstall MouseVPN to restore it"@,
            )
        } else {
            is_platform(
                e,
                "WinDivert64.sys is missing from "@ + directory@
                    + "; the split tunnel driver cannot start"@,
            )
        },
{
    if !library_present {
        let mut message = text::owned("WinDivert.dll is missing from ");
        message.append(directory);
        message.append("; reinstall MouseVPN to restore it");
        return Err(ClientError::Platform(message));
    }
    if !driver_present {
        let mut message = text::owned("WinDivert64.sys is missing from ");
        message.append(directory);
        message.append("; the split tunnel driver cannot start");
        return Err(ClientError::Platform(message));
    }
    Ok(())
}

/// The layer is the lowest byte of the word, the event the next one, and bit
/// twenty marks IPv6.
pub proof fn the_word_is_read_from_its_lowest_bit(bitfield: u32)
    ensures
        layer_of(bitfield) == bitfield & 0xff,
        event_of(bitfield) == (bitfield >> 8) & 0xff,
        ipv6_of(bitfield) <==> bitfield & 0x0010_0000 != 0,
{
    assert(bitfield % 256 == bitfield & 0xff) by (bit_vector);
    assert(bitfield / 256 % 256 == (bitfield >> 8) & 0xff) by (bit_vector);
    assert((bitfield / 1048576 % 2 == 1) <==> (bitfield & 0x0010_0000 != 0)) by (bit_vector);
}

/// Flow data is read at the socket and the flow layer alone, each field from
/// its place and least significant byte first.
pub proof fn flow_data_stands_in_its_place(
    address: &Address,
    flow: Option<FlowData>,
    layer: u32,
)
    requires
        call_ensures(Address::flow, (address,), flow),
        layer == address.bitfield % 256,
    ensures
        flow is Some <==> layer == 2 || layer == 3,
        flow matches Some(f) ==> ({
            let p = address.payload@;
            &&& f.process_id == p[16] + 256 * p[17] + 65536 * p[18] + 16777216 * p[19]
            &&& f.local_port == p[52] + 256 * p[53]
            &&& f.remote_port == p[54] + 256 * p[55]
            &&& f.protocol == p[56]
            &&& f.local_addr@[0] == p[20] + 256 * p[21] + 65536 * p[22] + 16777216 * p[23]
            &&& f.local_addr@[1] == p[24] + 256 * p[25] + 65536 * p[26] + 16777216 * p[27]
            &&& f.local_addr@[2] == p[28] + 256 * p[29] + 65536 * p[30] + 16777216 * p[31]
            &&& f.local_addr@[3] == p[32] + 256 * p[33] + 65536 * p[34] + 16777216 * p[35]
            &&& f.remote_addr@[0] == p[36] + 256 * p[37] + 65536 * p[38] + 16777216 * p[39]
            &&& f.remote_addr@[1] == p[40] + 256 * p[41] + 65536 * p[42] + 16777216 * p[43]
            &&& f.remote_addr@[2] == p[44] + 256 * p[45] + 65536 * p[46] + 16777216 * p[47]
            &&& f.remote_addr@[3] == p[48] + 256 * p[49] + 65536 * p[50] + 16777216 * p[51]
            &&& f.endpoint_id % 256 == p[0]
            &&& f.parent_endpoint_id % 256 == p[8]
        }),
{
    if flow is Some {
        let p = address.payload@;
        lemma_low_byte(p, 0);
        lemma_low_byte(p, 8);
    }
}

proof fn lemma_low_byte(s: Seq<u8>, at: int)
    ensures
        bytes::le64(s, at) % 256 == s[at],
{
    let low = bytes::le32(s, at) as int;
    let high = bytes::le32(s, at + 4) as int;
    assert(low % 256 == s[at]);
    assert((low + high * 0x1_0000_0000) % 256 == low % 256);
}

/// Failures to open a handle that have a known cause are told in words that
/// help, whatever the system says of them.
pub proof fn known_refusals_are_explained(detail: Seq<char>, code: i32)
    ensures
        open_error_text(Some(5), detail)
            == "MouseVPN must be started as Administrator to open WinDivert"@,
        open_error_text(Some(577), detail)
            == "Windows refused the WinDivert driver signature; the vendored WinDivert64.sys is damaged or was replaced"@,
        open_error_text(Some(1275), detail)
            == "Windows blocked the WinDivert driver, usually via the vulnerable driver blocklist or a security policy"@,
        code != 5 && code != 577 && code != 1275 ==> open_error_text(Some(code), detail)
            == "failed to open a WinDivert handle: "@ + detail,
        open_error_text(None, detail) == "failed to open a WinDivert handle: "@ + detail,
{
}

/// A first refusal leads to the remedy that its code asks for, a second one
/// ends the attempt: a service is repaired once and an open retried once.
pub proof fn an_open_is_retried_once(
    code: Option<i32>,
    detail: String,
    first: (OpenState, Option<OpenAction>),
    again: (OpenState, Option<OpenAction>),
    repaired: (OpenState, Option<OpenAction>),
)
    requires
        call_ensures(
            advance_open,
            (OpenState::Opening, OpenEvent::Refused { code, detail }),
            first,
        ),
        call_ensures(
            advance_open,
            (OpenState::Retrying, OpenEvent::Refused { code, detail }),
            again,
        ),
        call_ensures(advance_open, (OpenState::Repairing, OpenEvent::Repaired), repaired),
    ensures
        first.1 matches Some(OpenAction::CheckFilter) <==> code == Some(87i32),
        first.1 matches Some(OpenAction::RepairService) <==> code == Some(1058i32),
        code != Some(87i32) && code != Some(1058i32) ==> first.0 is Settled,
        again.0 is Settled,
        again.1 matches Some(OpenAction::Fail(_)),
        repaired.0 is Retrying,
        repaired.1 matches Some(OpenAction::Retry),
{
}

/// The service is opened, restored and started in this order. Whatever fails,
/// exactly what was opened is closed, and a driver that runs already is no
/// failure.
pub proof fn a_repair_closes_what_it_opened(
    call: RepairCall,
    code: u32,
    detail: &str,
    done: RepairNext,
    failed: RepairNext,
)
    requires
        call_ensures(after_repair_call, (call, None::<(u32, &str)>), done),
        call_ensures(after_repair_call, (call, Some((code, detail))), failed),
    ensures
        call is OpenManager ==> done == RepairNext::Call(RepairCall::OpenService),
        call is OpenService ==> done == RepairNext::Call(RepairCall::RestoreConfiguration),
        call is RestoreConfiguration ==> done == RepairNext::Call(RepairCall::StartDriver),
        call is StartDriver ==> done is Finish,
        failed is Finish,
        failed matches RepairNext::Finish { close_service, close_manager, outcome } ==> {
            &&& close_manager <==> !(call is OpenManager)
            &&& close_service <==> call is RestoreConfiguration || call is StartDriver
            &&& outcome is Ok <==> call is StartDriver && code == 1056
        },
        call is OpenService && code != 1060 ==> repair_failure_text(call, code, detail@)
            == "failed to open the WinDivert service: Windows error "@ + text::decimal(
            code as nat,
        ),
        call is OpenService && code == 1060 ==> repair_failure_text(call, code, detail@)
            == "WinDivert service is not registered; WinDivertOpen should install it automatically, so automatic recovery was not attempted"@,
{
}

/// A batch holds one address of eighty bytes for every packet: as many are
/// read as fit in what the driver filled, and as many are sent as there are.
pub proof fn addresses_are_eighty_bytes(
    received: u32,
    address_bytes: u32,
    batch: Result<(usize, usize), ClientError>,
    packet_bytes: usize,
    addresses: usize,
    lengths: Result<Option<(u32, u32)>, ClientError>,
)
    requires
        call_ensures(received_batch, (received, address_bytes), batch),
        call_ensures(batch_lengths, (packet_bytes, addresses), lengths),
    ensures
        batch is Err <==> received > 0 && address_bytes < 80,
        batch matches Ok((length, count)) ==> length == received && 80 * count <= address_bytes
            < 80 * (count + 1),
        lengths matches Ok(Some((p, a))) ==> p == packet_bytes && a == 80 * addresses,
        packet_bytes > 0 && addresses > 0 && packet_bytes <= u32::MAX && 80 * addresses <= u32::MAX
            ==> (lengths matches Ok(Some(_))),
{
}

/// The first packet of a batch ends where the rest begins.
pub proof fn the_rest_follows_the_first_packet(
    total: usize,
    remainder: u32,
    length: Option<usize>,
    unknown: Option<usize>,
)
    requires
        call_ensures(first_packet_len, (total, true, remainder), length),
        call_ensures(first_packet_len, (total, false, remainder), unknown),
        total <= u32::MAX,
    ensures
        length matches Some(l) ==> l + remainder == total && l > 0,
        length is Some <==> remainder < total,
        unknown is None,
{
}

/// The numbers that the driver knows its layers, events, flags and settings by.
pub proof fn the_driver_is_spoken_to_in_its_numbers(
    settings: Vec<QueueSetting>,
    code: Option<i32>,
    detail: &str,
    batch: bool,
    outcome: Result<(), ClientError>,
)
    requires
        call_ensures(queue_settings, (), settings),
        call_ensures(receive_failure, (code, detail, batch), outcome),
    ensures
        LAYER_NETWORK == 0 && LAYER_FLOW == 2 && LAYER_SOCKET == 3,
        EVENT_FLOW_ESTABLISHED == 1 && EVENT_FLOW_DELETED == 2,
        EVENT_SOCKET_CONNECT == 4 && EVENT_SOCKET_CLOSE == 7,
        FLAG_SNIFF == 1 && FLAG_RECV_ONLY == 4 && SHUTDOWN_BOTH == 3,
        MTU_MAX == 65_575 && BATCH_MAX == 255,
        settings@.len() == 3,
        settings@[0].param == 0 && settings@[0].value == 16_384,
        settings@[1].param == 2 && settings@[1].value == 32 * 1024 * 1024,
        settings@[2].param == 1 && settings@[2].value == 4_000,
        outcome is Ok <==> code == Some(232i32),
{
}

/// The entry points of the library are resolved under the names it exports.
pub proof fn entry_points_have_their_names()
    ensures
        exports().len() == 11,
        exports()[0] == "WinDivertOpen"@ && exports()[1] == "WinDivertRecv"@,
        exports()[2] == "WinDivertSend"@ && exports()[3] == "WinDivertShutdown"@,
        exports()[4] == "WinDivertClose"@ && exports()[5] == "WinDivertHelperCalcChecksums"@,
        exports()[6] == "WinDivertHelperCompileFilter"@ && exports()[7] == "WinDivertRecvEx"@,
        exports()[8] == "WinDivertSendEx"@ && exports()[9] == "WinDivertSetParam"@,
        exports()[10] == "WinDivertHelperParsePacket"@,
{
}

} // verus!
