//! The part of the async CAN glue that decides rather than waits: the client
//! configuration for a timeout, the conversion between SDO frames and
//! `can_transport` frames, and when a failed transfer is worth retrying.
//! The waiting and sending itself is left to the caller's runtime.

use vstd::prelude::*;

use can_transport::{CanFrame, CanId, CanIoError, FrameKind};

use crate::abort::SdoAbortCode;
use crate::client::{SdoConfig, DEFAULT_CLIENT_TIMEOUT};
use crate::error::SdoError;
use crate::frame::SdoFrame;

verus! {

#[verifier::external_type_specification]
#[verifier::external_body]
pub struct ExCanFrame(CanFrame);

#[verifier::external_type_specification]
#[verifier::external_body]
pub struct ExCanIoError(CanIoError);

/// The identifier of a CAN frame, as plain values.
#[derive(Debug, Clone, Copy, PartialEq, Eq, Structural)]
pub enum CanIdValue {
    /// 11-bit standard identifier.
    Standard(u16),
    /// 29-bit extended identifier.
    Extended(u32),
}

/// The kind of a CAN frame, as plain values.
#[derive(Debug, Clone, Copy, PartialEq, Eq, Structural)]
pub enum FrameKindValue {
    /// Classic CAN data frame.
    Data,
    /// CAN-FD data frame.
    Fd { brs: bool },
    /// Remote transmission request.
    Remote,
}

/// The identifier `CanFrame::id` reports for a frame.
pub uninterp spec fn can_frame_id(f: CanFrame) -> CanIdValue;

/// The kind `CanFrame::kind` reports for a frame.
pub uninterp spec fn can_frame_kind(f: CanFrame) -> FrameKindValue;

/// The payload `CanFrame::data` reports for a frame.
pub uninterp spec fn can_frame_data(f: CanFrame) -> Seq<u8>;

/// Calls `CanFrame::id`; the result is the frame's identifier, given as
/// plain values.
#[verifier::external_body]
fn frame_id(f: &CanFrame) -> (id: CanIdValue)
    ensures
        id == can_frame_id(*f),
{
    match f.id() {
        CanId::Standard(id) => CanIdValue::Standard(id),
        CanId::Extended(id) => CanIdValue::Extended(id),
    }
}

/// Calls `CanFrame::kind`; the result is the frame's kind, given as plain
/// values.
#[verifier::external_body]
fn frame_kind(f: &CanFrame) -> (kind: FrameKindValue)
    ensures
        kind == can_frame_kind(*f),
{
    match f.kind() {
        FrameKind::Data => FrameKindValue::Data,
        FrameKind::Fd { brs } => FrameKindValue::Fd { brs },
        FrameKind::Remote => FrameKindValue::Remote,
    }
}

/// Calls `CanFrame::data`; the result is the frame's payload.
#[verifier::external_body]
fn frame_data(f: &CanFrame) -> (data: &[u8])
    ensures
        data@ == can_frame_data(*f),
{
    f.data()
}

/// Calls `CanFrame::new_data` with a standard identifier. For a payload of
/// at most eight bytes the crate's source returns `Ok` with a classic data
/// frame that reports exactly that identifier and payload; nothing more is
/// claimed of the frame.
#[verifier::external_body]
fn new_classic_frame(cob_id: u16, data: &[u8; 8]) -> (r: Result<CanFrame, CanIoError>)
    ensures
        r is Ok,
        r matches Ok(f) ==> {
            &&& can_frame_id(f) == CanIdValue::Standard(cob_id)
            &&& can_frame_kind(f) == FrameKindValue::Data
            &&& can_frame_data(f) == data@
        },
{
    CanFrame::new_data(CanId::Standard(cob_id), data)
}

/// Whether `r` is the SDO frame of a CAN frame with this kind, identifier
/// and payload.
pub open spec fn is_sdo_of_parts(r: Option<SdoFrame>, kind: FrameKindValue, id: CanIdValue, data: Seq<u8>) -> bool {
    match (kind, id) {
        (FrameKindValue::Data, CanIdValue::Standard(cob_id)) => if data.len() == 8 {
            r matches Some(f) && f.cob_id == cob_id && f.data@ == data
        } else {
            r is None
        },
        _ => r is None,
    }
}

/// The SDO frame of a CAN frame with this kind, identifier and payload, if
/// it is one.
pub fn sdo_frame_from_parts(kind: FrameKindValue, id: CanIdValue, data: &[u8]) -> (r: Option<SdoFrame>)
    ensures
        is_sdo_of_parts(r, kind, id, data@),
{
    match kind {
        FrameKindValue::Data => {},
        _ => {
            return None;
        },
    }
    let cob_id = match id {
        CanIdValue::Standard(cob_id) => cob_id,
        CanIdValue::Extended(_) => {
            return None;
        },
    };
    if data.len() != 8 {
        return None;
    }
    let bytes = [data[0], data[1], data[2], data[3], data[4], data[5], data[6], data[7]];
    assert(bytes@ =~= data@);
    Some(SdoFrame::new(cob_id, bytes))
}

/// The SDO frame a received CAN frame carries, if it is one.
pub fn can_to_sdo(f: &CanFrame) -> (r: Option<SdoFrame>)
    ensures
        is_sdo_of_parts(r, can_frame_kind(*f), can_frame_id(*f), can_frame_data(*f)),
{
    let kind = frame_kind(f);
    let id = frame_id(f);
    let data = frame_data(f);
    sdo_frame_from_parts(kind, id, data)
}

/// The CAN frame that carries an SDO frame: a classic data frame with the
/// SDO frame's COB-ID as standard identifier and its eight bytes.
pub fn sdo_to_can(f: SdoFrame) -> (r: Result<CanFrame, CanIoError>)
    ensures
        r is Ok,
        r matches Ok(cf) ==> {
            &&& can_frame_id(cf) == CanIdValue::Standard(f.cob_id)
            &&& can_frame_kind(cf) == FrameKindValue::Data
            &&& can_frame_data(cf) == f.data@
        },
{
    new_classic_frame(f.cob_id, &f.data)
}

/// An SDO frame survives the trip through a CAN frame unchanged.
pub proof fn lemma_can_roundtrip(f: SdoFrame, cf: CanFrame, r: Option<SdoFrame>)
    requires
        can_frame_id(cf) == CanIdValue::Standard(f.cob_id),
        can_frame_kind(cf) == FrameKindValue::Data,
        can_frame_data(cf) == f.data@,
        is_sdo_of_parts(r, can_frame_kind(cf), can_frame_id(cf), can_frame_data(cf)),
    ensures
        r == Some(f),
{
    broadcast use vstd::array::group_array_axioms;

    let g = r->0;
    assert forall|i: int| 0 <= i < 8 implies g.data[i] == f.data[i] by {
        assert(g.data@[i] == f.data@[i]);
    }
    assert(g.data =~= f.data);
}

/// The client configuration for a response timeout of `timeout_ns`
/// nanoseconds (truncated to 64 bits), or the default timeout.
pub fn config_from(timeout_ns: Option<u128>) -> (cfg: SdoConfig)
    ensures
        cfg.timeout == match timeout_ns {
            Some(ns) => ns as u64,
            None => DEFAULT_CLIENT_TIMEOUT,
        },
{
    match timeout_ns {
        Some(ns) => SdoConfig { timeout: ns as u64 },
        None => SdoConfig { timeout: DEFAULT_CLIENT_TIMEOUT },
    }
}

/// Why an async SDO transfer failed: the protocol, or the CAN transport.
#[derive(Debug)]
pub enum AsyncSdoError {
    Sdo(SdoError),
    Io(CanIoError),
}

/// Whether a failure is worth a retry: a response timeout, or a transport
/// error.
pub open spec fn spec_is_transient(e: AsyncSdoError) -> bool {
    match e {
        AsyncSdoError::Sdo(SdoError::ClientAborted(SdoAbortCode::ProtocolTimeout)) => true,
        AsyncSdoError::Io(_) => true,
        _ => false,
    }
}

pub fn is_transient(e: &AsyncSdoError) -> (r: bool)
    ensures
        r == spec_is_transient(*e),
{
    match e {
        AsyncSdoError::Sdo(SdoError::ClientAborted(SdoAbortCode::ProtocolTimeout)) => true,
        AsyncSdoError::Io(_) => true,
        _ => false,
    }
}

/// After the `attempt`-th attempt failed with `e`, whether to try again:
/// only for a transient failure, and at most `retries` attempts in all (at
/// least one).
pub fn should_retry(attempt: u8, retries: u8, e: &AsyncSdoError) -> (r: bool)
    ensures
        r == (attempt < (if retries == 0 { 1 } else { retries }) && spec_is_transient(*e)),
{
    let max = if retries == 0 { 1 } else { retries };
    !(attempt >= max || !is_transient(e))
}

} // verus!
