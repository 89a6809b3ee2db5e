//! The window-manager side of the session: request packets, framing of
//! the response stream, and what an IPC failure means for the supervisor.

use vstd::prelude::*;

use crate::chrome::LayoutNodeSnapshot;
use crate::protocol::{OutputId, Rect, SurfaceId, TransactionCommit, TransactionId, WorkspaceId};
use crate::runtime::SessionRuntimeObservation;

verus! {

/// The fixed length of an IPC frame header; the payload length sits in
/// bytes 16..20, little-endian.
pub const SOPHIA_IPC_HEADER_LEN: usize = 24;

/// The largest payload an IPC frame may carry.
pub const SOPHIA_IPC_MAX_PAYLOAD_LEN: usize = 1048576;

/// How long the session waits for a WM response.
#[derive(Clone, Copy, Debug, PartialEq, Eq, Structural)]
pub struct WmSocketTransportConfig {
    pub response_timeout_msec: u64,
}

/// A 250 ms response timeout.
impl Default for WmSocketTransportConfig {
    fn default() -> (config: WmSocketTransportConfig)
        ensures
            config.response_timeout_msec == 250,
    {
        WmSocketTransportConfig { response_timeout_msec: 250 }
    }
}

/// Asks the WM to place a new surface.
#[derive(Clone, Copy, Debug, PartialEq, Eq, Structural)]
pub struct WmManageSurface {
    pub node: LayoutNodeSnapshot,
    pub output: OutputId,
    pub workspace: WorkspaceId,
    pub bounds: Rect,
}

/// Asks the WM to lay out a whole workspace again.
#[derive(Clone, Debug, PartialEq, Eq)]
pub struct WmRelayoutWorkspace {
    pub output: OutputId,
    pub workspace: WorkspaceId,
    pub bounds: Rect,
    pub nodes: Vec<LayoutNodeSnapshot>,
}

/// What the session asks the WM.
#[derive(Clone, Debug, PartialEq, Eq)]
pub enum WmRequestKind {
    ManageSurface(WmManageSurface),
    RelayoutWorkspace(WmRelayoutWorkspace),
    SurfaceRemoved { surface: SurfaceId, workspace: WorkspaceId },
}

/// One engine-minted WM request.
#[derive(Clone, Debug, PartialEq, Eq)]
pub struct WmRequestPacket {
    pub transaction: TransactionId,
    pub kind: WmRequestKind,
}

/// Why an IPC frame could not be encoded or decoded.
#[derive(Clone, Copy, Debug, PartialEq, Eq, Structural)]
pub enum IpcCodecError {
    PayloadTooLarge(usize),
    InvalidHeader,
    InvalidPayload,
}

/// Why a WM request failed.
#[derive(Clone, Debug, PartialEq, Eq)]
pub enum WmIpcError {
    Codec(IpcCodecError),
    Io(String),
    TransactionMismatch { expected: TransactionId, actual: TransactionId },
}

/// The little-endian `u32` in `bytes[at..at + 4]`.
pub open spec fn le_u32(bytes: Seq<u8>, at: int) -> int {
    bytes[at] + bytes[at + 1] * 0x100 + bytes[at + 2] * 0x1_0000 + bytes[at + 3] * 0x100_0000
}

/// The payload length a response header announces, refused before any
/// payload is read when it exceeds the limit.
pub fn wm_response_payload_len(header: &[u8]) -> (len: Result<usize, WmIpcError>)
    requires
        header@.len() == SOPHIA_IPC_HEADER_LEN,
    ensures
        match len {
            Ok(n) => n == le_u32(header@, 16) && n <= SOPHIA_IPC_MAX_PAYLOAD_LEN,
            Err(e) => le_u32(header@, 16) > SOPHIA_IPC_MAX_PAYLOAD_LEN && e == WmIpcError::Codec(
                IpcCodecError::PayloadTooLarge(le_u32(header@, 16) as usize),
            ),
        },
{
    let value: u64 = header[16] as u64 + header[17] as u64 * 0x100 + header[18] as u64 * 0x1_0000
        + header[19] as u64 * 0x100_0000;
    if value > SOPHIA_IPC_MAX_PAYLOAD_LEN as u64 {
        assert(value <= 0xffff_ffff);
        return Err(WmIpcError::Codec(IpcCodecError::PayloadTooLarge(value as usize)));
    }
    Ok(value as usize)
}

/// A response belongs to the request only when it carries its transaction.
pub fn check_wm_response_transaction(request: TransactionId, response: TransactionId) -> (checked: Result<
    (),
    WmIpcError,
>)
    ensures
        match checked {
            Ok(()) => request == response,
            Err(e) => request != response && e == (WmIpcError::TransactionMismatch {
                expected: request,
                actual: response,
            }),
        },
{
    if request.raw != response.raw {
        Err(WmIpcError::TransactionMismatch { expected: request, actual: response })
    } else {
        Ok(())
    }
}

/// A layout commit with the IPC failure, if any, that produced it.
#[derive(Clone, Debug, PartialEq, Eq)]
pub struct WmTransactionUpdate {
    pub commit: TransactionCommit,
    pub ipc_error: Option<WmIpcError>,
}

/// Why the WM must restart.
#[derive(Clone, Debug, PartialEq, Eq)]
pub enum WmRestartReason {
    IpcFailure(WmIpcError),
}

/// What the supervisor should do with the WM.
#[derive(Clone, Debug, PartialEq, Eq)]
pub enum WmRuntimeAction {
    KeepRunning,
    RestartWm { reason: WmRestartReason },
}

fn clone_ipc_error(e: &WmIpcError) -> (c: WmIpcError)
    ensures
        c == *e,
{
    match e {
        WmIpcError::Codec(c) => WmIpcError::Codec(*c),
        WmIpcError::Io(s) => WmIpcError::Io(s.clone()),
        WmIpcError::TransactionMismatch { expected, actual } => WmIpcError::TransactionMismatch {
            expected: *expected,
            actual: *actual,
        },
    }
}

impl WmTransactionUpdate {
    /// An IPC failure restarts the WM; a rejected but well-formed layout
    /// does not.
    pub fn runtime_action(&self) -> (action: WmRuntimeAction)
        ensures
            action == match self.ipc_error {
                Some(e) => WmRuntimeAction::RestartWm { reason: WmRestartReason::IpcFailure(e) },
                None => WmRuntimeAction::KeepRunning,
            },
    {
        match &self.ipc_error {
            Some(error) => WmRuntimeAction::RestartWm {
                reason: WmRestartReason::IpcFailure(clone_ipc_error(error)),
            },
            None => WmRuntimeAction::KeepRunning,
        }
    }
}

/// A WM update as a runtime observation: ready, or restart requested.
pub fn runtime_observation_from_wm_transaction_update(update: &WmTransactionUpdate) -> (observation:
    SessionRuntimeObservation)
    ensures
        observation == if update.ipc_error is Some {
            SessionRuntimeObservation::WmRestartRequested
        } else {
            SessionRuntimeObservation::WmLayoutReady
        },
{
    match update.runtime_action() {
        WmRuntimeAction::KeepRunning => SessionRuntimeObservation::WmLayoutReady,
        WmRuntimeAction::RestartWm { .. } => SessionRuntimeObservation::WmRestartRequested,
    }
}

/// The WM update of a tick, if one arrived.
#[derive(Clone, Debug, PartialEq, Eq)]
pub struct LiveWmRuntimeAdapter {
    pub update: Option<WmTransactionUpdate>,
}

impl LiveWmRuntimeAdapter {
    pub fn from_transaction_update(update: WmTransactionUpdate) -> (adapter: LiveWmRuntimeAdapter)
        ensures
            adapter.update == Some(update),
    {
        LiveWmRuntimeAdapter { update: Some(update) }
    }

    /// Without an update the layout is ready.
    pub fn layout_observation(&self) -> (observation: SessionRuntimeObservation)
        ensures
            observation == match self.update {
                Some(u) => if u.ipc_error is Some {
                    SessionRuntimeObservation::WmRestartRequested
                } else {
                    SessionRuntimeObservation::WmLayoutReady
                },
                None => SessionRuntimeObservation::WmLayoutReady,
            },
    {
        match &self.update {
            Some(u) => runtime_observation_from_wm_transaction_update(u),
            None => SessionRuntimeObservation::WmLayoutReady,
        }
    }
}

} // verus!
