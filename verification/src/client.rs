//! Sans-IO CANopen SDO client (master) state machine, CiA 301.
//!
//! [`SdoClient::begin_upload`] and [`SdoClient::begin_download`] start a
//! transfer; [`SdoClient::handle_frame`] is fed each incoming TSDO frame,
//! [`SdoClient::poll_transmit`] hands out the frame to send and
//! [`SdoClient::poll_timeout`] / [`SdoClient::handle_timeout`] deal with the
//! response deadline. One transfer is in flight at a time.

pub mod enc;

use vstd::prelude::*;

use crate::abort::{is_canonical, lemma_from_raw_of_raw, spec_abort_from_raw, SdoAbortCode};
use crate::bytes::{copy_bytes, push_bytes};
use crate::error::SdoError;
use crate::frame::{
    lemma_cob_id_roundtrip, opt_frame, spec_node_of_tsdo, spec_rsdo_id, spec_tsdo_id, FrameView,
    SdoFrame,
};
use crate::wire::{
    self, le_u32_at4, lemma_abort_frame_fields, lemma_cs_constants, lemma_segment_len_field, spec_abort_frame, spec_expedited_len,
    spec_index_of, spec_segment_last, spec_segment_len, spec_toggle, CCS_INIT_DOWNLOAD, CS_ABORT, CS_MASK, SCS_DOWNLOAD_SEGMENT, SCS_INIT_DOWNLOAD, SCS_INIT_UPLOAD,
    SCS_UPLOAD_SEGMENT, TOGGLE_BIT,
};
use self::enc::{
    spec_download_segment, spec_init_download_expedited, spec_init_download_segmented,
    spec_init_upload, spec_upload_segment_request,
};

verus! {

// ===================== the model =====================

/// Tunable client behaviour.
#[derive(Debug, Clone, Copy)]
pub struct SdoConfig {
    /// How long to wait for any single server response before aborting with
    /// `ProtocolTimeout`, in the caller's monotonic time unit.
    pub timeout: u64,
}

/// The default response timeout: 150 ms in nanoseconds.
pub const DEFAULT_CLIENT_TIMEOUT: u64 = 150_000_000;

impl Default for SdoConfig {
    fn default() -> (cfg: Self)
        ensures
            cfg.timeout == DEFAULT_CLIENT_TIMEOUT,
    {
        Self { timeout: DEFAULT_CLIENT_TIMEOUT }
    }
}

/// What a successful transfer produced.
#[derive(Debug, Clone, PartialEq, Eq)]
pub enum SdoOutcome {
    /// An upload (read from the server) finished with these bytes.
    UploadCompleted(Vec<u8>),
    /// A download (write to the server) finished.
    DownloadCompleted,
}

/// [`SdoOutcome`] as plain values.
pub enum OutcomeView {
    UploadCompleted(Seq<u8>),
    DownloadCompleted,
}

impl View for SdoOutcome {
    type V = OutcomeView;

    open spec fn view(&self) -> OutcomeView {
        match self {
            SdoOutcome::UploadCompleted(v) => OutcomeView::UploadCompleted(v@),
            SdoOutcome::DownloadCompleted => OutcomeView::DownloadCompleted,
        }
    }
}

/// The result of feeding the client, as plain values.
pub type ClientResult = Result<Option<OutcomeView>, SdoError>;

/// The view of a client result.
pub open spec fn result_view(r: Result<Option<SdoOutcome>, SdoError>) -> ClientResult {
    match r {
        Ok(Some(o)) => Ok(Some(o@)),
        Ok(None) => Ok(None),
        Err(e) => Err(e),
    }
}

/// Where an upload stands.
#[derive(Debug, Clone, Copy, PartialEq, Eq, Structural)]
pub enum UploadPhase {
    /// Waiting for the server's initiate-upload response.
    AwaitingInit,
    /// Waiting for the next upload segment.
    AwaitingSegment,
}

/// Where a download stands.
#[derive(Debug, Clone, Copy, PartialEq, Eq, Structural)]
pub enum DownloadPhase {
    /// Waiting for the server's initiate-download response.
    AwaitingInit { expedited: bool },
    /// Waiting for the acknowledgement of the segment just sent.
    AwaitingSegmentAck { last: bool },
}

/// The transfer a client has in flight.
pub enum ClientTransfer {
    Idle,
    Uploading {
        node_id: u8,
        idx: u16,
        sub: u8,
        /// Payload bytes received so far.
        received: Seq<u8>,
        /// The total size the server announced, if it did.
        expected_len: Option<u32>,
        /// The toggle of the next segment request.
        next_toggle: bool,
        upload_phase: UploadPhase,
    },
    Downloading {
        node_id: u8,
        idx: u16,
        sub: u8,
        /// The whole payload to write.
        data: Seq<u8>,
        /// How many payload bytes have been sent so far.
        sent_pos: nat,
        /// The toggle of the next segment to send.
        next_toggle: bool,
        download_phase: DownloadPhase,
    },
}

/// An SDO client as plain values.
pub struct ClientModel {
    /// The response timeout.
    pub timeout: u64,
    pub transfer: ClientTransfer,
    /// The frame waiting to be sent.
    pub pending_tx: Option<FrameView>,
    /// When the outstanding response is due.
    pub deadline: Option<u64>,
}

impl ClientModel {
    /// The client's invariant: a deadline runs exactly while a transfer is in
    /// flight, and a download never sends past its payload.
    pub open spec fn wf(self) -> bool {
        &&& (self.deadline is Some <==> !(self.transfer is Idle))
        &&& match self.transfer {
            ClientTransfer::Downloading { data, sent_pos, download_phase: phase, .. } => {
                &&& sent_pos <= data.len()
                &&& data.len() >= 1
                &&& match phase {
                    DownloadPhase::AwaitingInit { expedited } => sent_pos == 0 && expedited == (
                    data.len() <= 4),
                    DownloadPhase::AwaitingSegmentAck { last } => last == (sent_pos == data.len()),
                }
            },
            _ => true,
        }
    }

    pub open spec fn is_idle(self) -> bool {
        self.transfer is Idle
    }

    /// Whether `now` plus the timeout fits the clock.
    pub open spec fn time_fits(self, now: u64) -> bool {
        now + self.timeout <= u64::MAX
    }
}

// ---------------- transitions ----------------

/// Queue `bytes` for `node_id` and arm the response deadline.
pub open spec fn spec_queue_request(m: ClientModel, node_id: u8, bytes: Seq<u8>, now: u64) -> ClientModel {
    ClientModel {
        pending_tx: Some(FrameView { cob_id: spec_rsdo_id(node_id), data: bytes }),
        deadline: Some((now + m.timeout) as u64),
        ..m
    }
}

/// Drop the transfer, anything queued and the deadline.
pub open spec fn spec_clear(m: ClientModel) -> ClientModel {
    ClientModel { transfer: ClientTransfer::Idle, pending_tx: None, deadline: None, ..m }
}

/// Queue an abort frame for (`idx`, `sub`) at `node_id` and drop the
/// transfer.
pub open spec fn spec_queue_abort(m: ClientModel, node_id: u8, idx: u16, sub: u8, code: SdoAbortCode) -> ClientModel {
    ClientModel {
        transfer: ClientTransfer::Idle,
        pending_tx: Some(
            FrameView { cob_id: spec_rsdo_id(node_id), data: spec_abort_frame(idx, sub, code) },
        ),
        deadline: None,
        ..m
    }
}

/// Abort the transfer in flight with `code`, if there is one.
pub open spec fn spec_abort_with(m: ClientModel, code: SdoAbortCode) -> ClientModel {
    match m.transfer {
        ClientTransfer::Idle => m,
        ClientTransfer::Uploading { node_id, idx, sub, .. } => spec_queue_abort(
            m,
            node_id,
            idx,
            sub,
            code,
        ),
        ClientTransfer::Downloading { node_id, idx, sub, .. } => spec_queue_abort(
            m,
            node_id,
            idx,
            sub,
            code,
        ),
    }
}

/// Whether a node id is usable: 1 to 127.
pub open spec fn valid_node_id(node_id: u8) -> bool {
    1 <= node_id <= 127
}

/// `begin_upload`: start reading (`idx`, `sub`) from `node_id`.
pub open spec fn spec_begin_upload(m: ClientModel, node_id: u8, idx: u16, sub: u8, now: u64) -> (ClientModel, Result<(), SdoError>) {
    if !valid_node_id(node_id) {
        (m, Err(SdoError::InvalidArgument("node id must be 1..=127")))
    } else if !m.is_idle() {
        (m, Err(SdoError::Busy))
    } else {
        let t = ClientTransfer::Uploading {
            node_id,
            idx,
            sub,
            received: Seq::empty(),
            expected_len: None,
            next_toggle: false,
            upload_phase: UploadPhase::AwaitingInit,
        };
        (spec_queue_request(ClientModel { transfer: t, ..m }, node_id, spec_init_upload(idx, sub), now), Ok(()))
    }
}

/// The initiate-download request for `data`: expedited for up to four bytes,
/// otherwise segmented with the size indicated.
pub open spec fn spec_init_download_request(idx: u16, sub: u8, data: Seq<u8>) -> Seq<u8> {
    if data.len() <= 4 {
        spec_init_download_expedited(idx, sub, data)
    } else {
        spec_init_download_segmented(idx, sub, data.len() as u32)
    }
}

/// `begin_download`: start writing `data` to (`idx`, `sub`) at `node_id`.
pub open spec fn spec_begin_download(m: ClientModel, node_id: u8, idx: u16, sub: u8, data: Seq<u8>, now: u64) -> (ClientModel, Result<(), SdoError>) {
    if !valid_node_id(node_id) {
        (m, Err(SdoError::InvalidArgument("node id must be 1..=127")))
    } else if data.len() == 0 {
        (m, Err(SdoError::InvalidArgument("download payload empty")))
    } else if !m.is_idle() {
        (m, Err(SdoError::Busy))
    } else {
        let t = ClientTransfer::Downloading {
            node_id,
            idx,
            sub,
            data,
            sent_pos: 0,
            next_toggle: false,
            download_phase: DownloadPhase::AwaitingInit { expedited: data.len() <= 4 },
        };
        (
            spec_queue_request(
                ClientModel { transfer: t, ..m },
                node_id,
                spec_init_download_request(idx, sub, data),
                now,
            ),
            Ok(()),
        )
    }
}

/// `handle_timeout`: abort with `ProtocolTimeout` once the deadline passed.
pub open spec fn spec_client_timeout(m: ClientModel, now: u64) -> (ClientModel, ClientResult) {
    match m.deadline {
        None => (m, Ok(None)),
        Some(dl) => if now < dl {
            (m, Ok(None))
        } else {
            (
                spec_abort_with(m, SdoAbortCode::ProtocolTimeout),
                Err(SdoError::ClientAborted(SdoAbortCode::ProtocolTimeout)),
            )
        },
    }
}

/// Whether an abort frame from `node` names the transfer in flight.
pub open spec fn spec_matches_in_flight(t: ClientTransfer, node: u8, d: Seq<u8>) -> bool {
    match t {
        ClientTransfer::Idle => false,
        ClientTransfer::Uploading { node_id, idx, sub, .. } => node_id == node && idx
            == spec_index_of(d) && sub == d[3],
        ClientTransfer::Downloading { node_id, idx, sub, .. } => node_id == node && idx
            == spec_index_of(d) && sub == d[3],
    }
}

/// The upload arm of `handle_frame`, for a frame from `node`.
pub open spec fn spec_upload_on_frame(m: ClientModel, node: u8, d: Seq<u8>, now: u64) -> (ClientModel, ClientResult)
    recommends
        m.transfer is Uploading,
{
    match m.transfer {
    ClientTransfer::Uploading { node_id, idx, sub, received, expected_len, next_toggle, upload_phase: phase } => {
    let cmd = d[0];
    let scs = cmd & CS_MASK;
    if node != node_id {
        (m, Ok(None))
    } else {
        match phase {
            UploadPhase::AwaitingInit => {
                if scs != SCS_INIT_UPLOAD || spec_index_of(d) != idx || d[3] != sub {
                    (m, Ok(None))
                } else if cmd & 2 != 0 {
                    // expedited: the value is inline
                    let len = spec_expedited_len(cmd);
                    (spec_clear(m), Ok(Some(OutcomeView::UploadCompleted(d.subrange(4, 4 + len)))))
                } else {
                    let expected = if cmd & 1 != 0 {
                        Some(le_u32_at4(d))
                    } else {
                        expected_len
                    };
                    let t = ClientTransfer::Uploading {
                        node_id,
                        idx,
                        sub,
                        received,
                        expected_len: expected,
                        next_toggle,
                        upload_phase: UploadPhase::AwaitingSegment,
                    };
                    (
                        spec_queue_request(
                            ClientModel { transfer: t, ..m },
                            node_id,
                            spec_upload_segment_request(next_toggle),
                            now,
                        ),
                        Ok(None),
                    )
                }
            },
            UploadPhase::AwaitingSegment => {
                if scs != SCS_UPLOAD_SEGMENT {
                    (m, Ok(None))
                } else if spec_toggle(cmd) != next_toggle {
                    (
                        spec_queue_abort(m, node_id, idx, sub, SdoAbortCode::ToggleBitNotAlternated),
                        Err(SdoError::ClientAborted(SdoAbortCode::ToggleBitNotAlternated)),
                    )
                } else {
                    let received2 = received + d.subrange(1, 1 + spec_segment_len(cmd));
                    if spec_segment_last(cmd) {
                        if expected_len is Some && received2.len() != expected_len->0 {
                            (
                                spec_queue_abort(
                                    m,
                                    node_id,
                                    idx,
                                    sub,
                                    SdoAbortCode::DataTypeLengthMismatch,
                                ),
                                Err(SdoError::ClientAborted(SdoAbortCode::DataTypeLengthMismatch)),
                            )
                        } else {
                            (spec_clear(m), Ok(Some(OutcomeView::UploadCompleted(received2))))
                        }
                    } else {
                        let t = ClientTransfer::Uploading {
                            node_id,
                            idx,
                            sub,
                            received: received2,
                            expected_len,
                            next_toggle: !next_toggle,
                            upload_phase: phase,
                        };
                        (
                            spec_queue_request(
                                ClientModel { transfer: t, ..m },
                                node_id,
                                spec_upload_segment_request(!next_toggle),
                                now,
                            ),
                            Ok(None),
                        )
                    }
                }
            },
        }
    }
    },
    _ => (m, Ok(None)),
    }
}

/// Send the next download segment (up to seven bytes) and wait for its ack.
pub open spec fn spec_next_download_segment(m: ClientModel, now: u64) -> ClientModel
    recommends
        m.transfer is Downloading,
{
    match m.transfer {
    ClientTransfer::Downloading { node_id, idx, sub, data, sent_pos, next_toggle, download_phase: _ } => {
    let remaining = data.len() - sent_pos;
    let chunk = if remaining < 7 {
        remaining
    } else {
        7
    };
    let last = remaining <= 7;
    let bytes = spec_download_segment(
        next_toggle,
        data.subrange(sent_pos as int, sent_pos + chunk),
        last,
    );
    let t = ClientTransfer::Downloading {
        node_id,
        idx,
        sub,
        data,
        sent_pos: (sent_pos + chunk) as nat,
        next_toggle: !next_toggle,
        download_phase: DownloadPhase::AwaitingSegmentAck { last },
    };
    spec_queue_request(ClientModel { transfer: t, ..m }, node_id, bytes, now)
    },
    _ => m,
    }
}

/// The download arm of `handle_frame`, for a frame from `node`.
pub open spec fn spec_download_on_frame(m: ClientModel, node: u8, d: Seq<u8>, now: u64) -> (ClientModel, ClientResult)
    recommends
        m.transfer is Downloading,
{
    match m.transfer {
    ClientTransfer::Downloading { node_id, idx, sub, data, sent_pos, next_toggle, download_phase: phase } => {
    let cmd = d[0];
    let scs = cmd & CS_MASK;
    if node != node_id {
        (m, Ok(None))
    } else {
        match phase {
            DownloadPhase::AwaitingInit { expedited } => {
                if scs != SCS_INIT_DOWNLOAD || spec_index_of(d) != idx || d[3] != sub {
                    (m, Ok(None))
                } else if expedited {
                    (spec_clear(m), Ok(Some(OutcomeView::DownloadCompleted)))
                } else {
                    (spec_next_download_segment(m, now), Ok(None))
                }
            },
            DownloadPhase::AwaitingSegmentAck { last } => {
                if scs != SCS_DOWNLOAD_SEGMENT {
                    (m, Ok(None))
                } else if spec_toggle(cmd) == next_toggle {
                    // the ack must echo the toggle of the segment just sent
                    (
                        spec_queue_abort(m, node_id, idx, sub, SdoAbortCode::ToggleBitNotAlternated),
                        Err(SdoError::ClientAborted(SdoAbortCode::ToggleBitNotAlternated)),
                    )
                } else if last {
                    (spec_clear(m), Ok(Some(OutcomeView::DownloadCompleted)))
                } else {
                    (spec_next_download_segment(m, now), Ok(None))
                }
            },
        }
    }
    },
    _ => (m, Ok(None)),
    }
}

/// `handle_frame`: react to an incoming frame.
///
/// Frames that are not TSDO frames, or not for the transfer in flight, are
/// ignored. A server abort for the transfer ends it; otherwise the transfer
/// advances.
pub open spec fn spec_client_on_frame(m: ClientModel, f: FrameView, now: u64) -> (ClientModel, ClientResult) {
    match spec_node_of_tsdo(f.cob_id) {
        None => (m, Ok(None)),
        Some(node) => {
            let d = f.data;
            if d[0] & CS_MASK == CS_ABORT {
                if !spec_matches_in_flight(m.transfer, node, d) {
                    (m, Ok(None))
                } else {
                    (
                        spec_clear(m),
                        Err(SdoError::ServerAborted(spec_abort_from_raw(le_u32_at4(d)))),
                    )
                }
            } else {
                match m.transfer {
                    ClientTransfer::Idle => (m, Ok(None)),
                    ClientTransfer::Uploading { .. } => spec_upload_on_frame(m, node, d, now),
                    ClientTransfer::Downloading { .. } => spec_download_on_frame(m, node, d, now),
                }
            }
        },
    }
}

/// `poll_transmit`: hand out the queued frame.
pub open spec fn spec_take_pending(m: ClientModel) -> ClientModel {
    ClientModel { pending_tx: None, ..m }
}


// ===================== the state machine =====================

#[derive(Debug)]
struct UploadCtx {
    node_id: u8,
    idx: u16,
    sub: u8,
    received: Vec<u8>,
    expected_len: Option<u32>,
    /// Toggle to send in the next segment request.
    next_toggle: bool,
    phase: UploadPhase,
}

#[derive(Debug)]
struct DownloadCtx {
    node_id: u8,
    idx: u16,
    sub: u8,
    data: Vec<u8>,
    /// How many payload bytes have been sent so far.
    sent_pos: usize,
    /// Toggle to use in the next segment sent.
    next_toggle: bool,
    phase: DownloadPhase,
}

#[derive(Debug)]
enum State {
    Idle,
    Uploading(UploadCtx),
    Downloading(DownloadCtx),
}

spec fn upload_model(c: UploadCtx) -> ClientTransfer {
    ClientTransfer::Uploading {
        node_id: c.node_id,
        idx: c.idx,
        sub: c.sub,
        received: c.received@,
        expected_len: c.expected_len,
        next_toggle: c.next_toggle,
        upload_phase: c.phase,
    }
}

spec fn download_model(c: DownloadCtx) -> ClientTransfer {
    ClientTransfer::Downloading {
        node_id: c.node_id,
        idx: c.idx,
        sub: c.sub,
        data: c.data@,
        sent_pos: c.sent_pos as nat,
        next_toggle: c.next_toggle,
        download_phase: c.phase,
    }
}

spec fn state_model(s: State) -> ClientTransfer {
    match s {
        State::Idle => ClientTransfer::Idle,
        State::Uploading(c) => upload_model(c),
        State::Downloading(c) => download_model(c),
    }
}

/// SDO client state machine. Construct once and reuse it for any number of
/// sequential transfers.
#[derive(Debug)]
pub struct SdoClient {
    cfg: SdoConfig,
    state: State,
    pending_tx: Option<SdoFrame>,
    deadline: Option<u64>,
}

impl View for SdoClient {
    type V = ClientModel;

    closed spec fn view(&self) -> ClientModel {
        ClientModel {
            timeout: self.cfg.timeout,
            transfer: state_model(self.state),
            pending_tx: opt_frame(self.pending_tx),
            deadline: self.deadline,
        }
    }
}

fn validate_node_id(node_id: u8) -> (r: Result<(), SdoError>)
    ensures
        r is Ok <==> valid_node_id(node_id),
        r is Err ==> r == Err::<(), SdoError>(SdoError::InvalidArgument("node id must be 1..=127")),
{
    if node_id == 0 || node_id > 127 {
        Err(SdoError::InvalidArgument("node id must be 1..=127"))
    } else {
        Ok(())
    }
}

impl SdoClient {
    pub fn new(cfg: SdoConfig) -> (c: Self)
        ensures
            c@ == (ClientModel {
                timeout: cfg.timeout,
                transfer: ClientTransfer::Idle,
                pending_tx: None,
                deadline: None,
            }),
            c@.wf(),
    {
        Self { cfg, state: State::Idle, pending_tx: None, deadline: None }
    }

    /// Whether no transfer is in flight.
    pub fn is_idle(&self) -> (r: bool)
        ensures
            r == self@.is_idle(),
    {
        match self.state {
            State::Idle => true,
            _ => false,
        }
    }

    // ----- transfer kick-off -----

    /// Start reading (`idx`, `sub`) from `node_id`; the initiate-upload
    /// request is queued for `poll_transmit`.
    pub fn begin_upload(&mut self, node_id: u8, idx: u16, sub: u8, now: u64) -> (r: Result<(), SdoError>)
        requires
            old(self)@.wf(),
            old(self)@.time_fits(now),
        ensures
            (final(self)@, r) == spec_begin_upload(old(self)@, node_id, idx, sub, now),
            final(self)@.wf(),
    {
        validate_node_id(node_id)?;
        if !self.is_idle() {
            return Err(SdoError::Busy);
        }
        self.state = State::Uploading(UploadCtx {
            node_id,
            idx,
            sub,
            received: Vec::new(),
            expected_len: None,
            next_toggle: false,
            phase: UploadPhase::AwaitingInit,
        });
        self.queue_request(node_id, enc::init_upload(idx, sub), now);
        Ok(())
    }

    /// Start writing `data` to (`idx`, `sub`) at `node_id`: expedited for up
    /// to four bytes, segmented otherwise. The initiate-download request is
    /// queued for `poll_transmit`.
    pub fn begin_download(&mut self, node_id: u8, idx: u16, sub: u8, data: &[u8], now: u64) -> (r: Result<(), SdoError>)
        requires
            old(self)@.wf(),
            old(self)@.time_fits(now),
        ensures
            (final(self)@, r) == spec_begin_download(old(self)@, node_id, idx, sub, data@, now),
            final(self)@.wf(),
    {
        validate_node_id(node_id)?;
        if data.len() == 0 {
            return Err(SdoError::InvalidArgument("download payload empty"));
        }
        if !self.is_idle() {
            return Err(SdoError::Busy);
        }
        let expedited = data.len() <= 4;
        let init_bytes = if expedited {
            enc::init_download_expedited(idx, sub, data)
        } else {
            enc::init_download_segmented(idx, sub, data.len() as u32)
        };
        self.state = State::Downloading(DownloadCtx {
            node_id,
            idx,
            sub,
            data: copy_bytes(data),
            sent_pos: 0,
            next_toggle: false,
            phase: DownloadPhase::AwaitingInit { expedited },
        });
        self.queue_request(node_id, init_bytes, now);
        Ok(())
    }

    // ----- sans-io driving -----

    /// Take the frame waiting to be sent, if any.
    pub fn poll_transmit(&mut self) -> (f: Option<SdoFrame>)
        ensures
            opt_frame(f) == old(self)@.pending_tx,
            final(self)@ == spec_take_pending(old(self)@),
    {
        self.pending_tx.take()
    }

    /// When the outstanding response is due, if one is.
    pub fn poll_timeout(&self) -> (dl: Option<u64>)
        ensures
            dl == self@.deadline,
    {
        self.deadline
    }

    /// Tell the client the time is `now`: past the deadline, the transfer is
    /// aborted with `ProtocolTimeout` and the abort frame queued.
    pub fn handle_timeout(&mut self, now: u64) -> (r: Result<Option<SdoOutcome>, SdoError>)
        requires
            old(self)@.wf(),
        ensures
            (final(self)@, result_view(r)) == spec_client_timeout(old(self)@, now),
            final(self)@.wf(),
    {
        let deadline = match self.deadline {
            Some(dl) => dl,
            None => {
                return Ok(None);
            },
        };
        if now < deadline {
            return Ok(None);
        }
        self.abort_with(SdoAbortCode::ProtocolTimeout);
        Err(SdoError::ClientAborted(SdoAbortCode::ProtocolTimeout))
    }

    /// Feed an incoming frame. `Ok(Some(..))` when the transfer completed,
    /// `Ok(None)` when it goes on or the frame is not for it, `Err` when it
    /// was aborted.
    pub fn handle_frame(&mut self, frame: SdoFrame, now: u64) -> (r: Result<Option<SdoOutcome>, SdoError>)
        requires
            old(self)@.wf(),
            old(self)@.time_fits(now),
        ensures
            (final(self)@, result_view(r)) == spec_client_on_frame(old(self)@, frame@, now),
            final(self)@.wf(),
    {
        let frame_node = match SdoFrame::node_of_tsdo(frame.cob_id) {
            Some(n) => n,
            None => {
                return Ok(None);
            },
        };
        let cmd = frame.data[0];
        let cs = cmd & CS_MASK;

        if cs == CS_ABORT {
            if !self.matches_in_flight(frame_node, &frame.data) {
                return Ok(None);
            }
            let code = SdoAbortCode::from_raw(
                wire::u32_from_le(frame.data[4], frame.data[5], frame.data[6], frame.data[7]),
            );
            self.clear_transfer();
            return Err(SdoError::ServerAborted(code));
        }
        match self.take_state() {
            State::Idle => Ok(None),
            State::Uploading(ctx) => self.advance_upload(ctx, frame_node, cmd, &frame.data, now),
            State::Downloading(ctx) => self.advance_download(ctx, frame_node, cmd, &frame.data, now),
        }
    }

    /// Abort the transfer in flight with `code`: the abort frame is queued
    /// for `poll_transmit`. Does nothing when idle.
    pub fn abort(&mut self, code: SdoAbortCode)
        requires
            old(self)@.wf(),
        ensures
            final(self)@ == spec_abort_with(old(self)@, code),
            final(self)@.wf(),
    {
        self.abort_with(code);
    }

    // ----- internal: state-machine arms -----

    fn take_state(&mut self) -> (s: State)
        ensures
            s == old(self).state,
            final(self).state == State::Idle,
            final(self).cfg == old(self).cfg,
            final(self).pending_tx == old(self).pending_tx,
            final(self).deadline == old(self).deadline,
    {
        let mut s = State::Idle;
        core::mem::swap(&mut s, &mut self.state);
        s
    }

    fn advance_upload(&mut self, ctx: UploadCtx, frame_node: u8, cmd: u8, data: &[u8; 8], now: u64) -> (r: Result<Option<SdoOutcome>, SdoError>)
        requires
            old(self).state == State::Idle,
            cmd == data@[0],
            (ClientModel { transfer: upload_model(ctx), ..old(self)@ }).wf(),
            old(self)@.time_fits(now),
        ensures
            (final(self)@, result_view(r)) == spec_upload_on_frame(
                ClientModel { transfer: upload_model(ctx), ..old(self)@ },
                frame_node,
                data@,
                now,
            ),
    {
        let mut ctx = ctx;
        if frame_node != ctx.node_id {
            self.state = State::Uploading(ctx);
            return Ok(None);
        }
        let scs = cmd & CS_MASK;
        match ctx.phase {
            UploadPhase::AwaitingInit => {
                let frame_idx = wire::index_of(data);
                let frame_sub = wire::subindex_of(data);
                if scs != SCS_INIT_UPLOAD || frame_idx != ctx.idx || frame_sub != ctx.sub {
                    self.state = State::Uploading(ctx);
                    return Ok(None);
                }
                let e = (cmd & 0b10) != 0;
                let s = (cmd & 0b01) != 0;
                if e {
                    let len = wire::expedited_len(cmd);
                    let mut out: Vec<u8> = Vec::new();
                    push_bytes(&mut out, data, 4, len);
                    assert(out@ =~= data@.subrange(4, 4 + len));
                    self.clear_transfer();
                    Ok(Some(SdoOutcome::UploadCompleted(out)))
                } else {
                    if s {
                        ctx.expected_len = Some(wire::u32_from_le(data[4], data[5], data[6], data[7]));
                    }
                    let toggle = ctx.next_toggle;
                    let node_id = ctx.node_id;
                    ctx.phase = UploadPhase::AwaitingSegment;
                    self.state = State::Uploading(ctx);
                    self.queue_request(node_id, enc::upload_segment_request(toggle), now);
                    Ok(None)
                }
            },
            UploadPhase::AwaitingSegment => {
                if scs != SCS_UPLOAD_SEGMENT {
                    self.state = State::Uploading(ctx);
                    return Ok(None);
                }
                let frame_toggle = (cmd & TOGGLE_BIT) != 0;
                if frame_toggle != ctx.next_toggle {
                    self.queue_abort(ctx.node_id, ctx.idx, ctx.sub, SdoAbortCode::ToggleBitNotAlternated);
                    return Err(SdoError::ClientAborted(SdoAbortCode::ToggleBitNotAlternated));
                }
                let (payload_len, c) = wire::decode_segment(cmd);
                push_bytes(&mut ctx.received, data, 1, payload_len);
                if c {
                    if let Some(exp) = ctx.expected_len {
                        if ctx.received.len() as u64 != exp as u64 {
                            self.queue_abort(ctx.node_id, ctx.idx, ctx.sub, SdoAbortCode::DataTypeLengthMismatch);
                            return Err(SdoError::ClientAborted(SdoAbortCode::DataTypeLengthMismatch));
                        }
                    }
                    let out = ctx.received;
                    self.clear_transfer();
                    Ok(Some(SdoOutcome::UploadCompleted(out)))
                } else {
                    ctx.next_toggle = !ctx.next_toggle;
                    let toggle = ctx.next_toggle;
                    let node_id = ctx.node_id;
                    self.state = State::Uploading(ctx);
                    self.queue_request(node_id, enc::upload_segment_request(toggle), now);
                    Ok(None)
                }
            },
        }
    }

    fn advance_download(&mut self, ctx: DownloadCtx, frame_node: u8, cmd: u8, data: &[u8; 8], now: u64) -> (r: Result<Option<SdoOutcome>, SdoError>)
        requires
            old(self).state == State::Idle,
            cmd == data@[0],
            (ClientModel { transfer: download_model(ctx), ..old(self)@ }).wf(),
            old(self)@.time_fits(now),
        ensures
            (final(self)@, result_view(r)) == spec_download_on_frame(
                ClientModel { transfer: download_model(ctx), ..old(self)@ },
                frame_node,
                data@,
                now,
            ),
    {
        if frame_node != ctx.node_id {
            self.state = State::Downloading(ctx);
            return Ok(None);
        }
        let scs = cmd & CS_MASK;
        match ctx.phase {
            DownloadPhase::AwaitingInit { expedited } => {
                let frame_idx = wire::index_of(data);
                let frame_sub = wire::subindex_of(data);
                if scs != SCS_INIT_DOWNLOAD || frame_idx != ctx.idx || frame_sub != ctx.sub {
                    self.state = State::Downloading(ctx);
                    return Ok(None);
                }
                if expedited {
                    self.clear_transfer();
                    Ok(Some(SdoOutcome::DownloadCompleted))
                } else {
                    self.queue_next_download_segment(ctx, now);
                    Ok(None)
                }
            },
            DownloadPhase::AwaitingSegmentAck { last } => {
                if scs != SCS_DOWNLOAD_SEGMENT {
                    self.state = State::Downloading(ctx);
                    return Ok(None);
                }
                let frame_toggle = (cmd & TOGGLE_BIT) != 0;
                // The ack carries the toggle of the segment just sent, the
                // value before `next_toggle` was flipped.
                let expected = !ctx.next_toggle;
                if frame_toggle != expected {
                    self.queue_abort(ctx.node_id, ctx.idx, ctx.sub, SdoAbortCode::ToggleBitNotAlternated);
                    return Err(SdoError::ClientAborted(SdoAbortCode::ToggleBitNotAlternated));
                }
                if last {
                    self.clear_transfer();
                    Ok(Some(SdoOutcome::DownloadCompleted))
                } else {
                    self.queue_next_download_segment(ctx, now);
                    Ok(None)
                }
            },
        }
    }

    fn queue_next_download_segment(&mut self, ctx: DownloadCtx, now: u64)
        requires
            old(self).state == State::Idle,
            ctx.sent_pos <= ctx.data@.len(),
            old(self)@.time_fits(now),
        ensures
            final(self)@ == spec_next_download_segment(
                ClientModel { transfer: download_model(ctx), ..old(self)@ },
                now,
            ),
    {
        let mut ctx = ctx;
        let remaining = ctx.data.len() - ctx.sent_pos;
        let chunk_len = if remaining < 7 { remaining } else { 7 };
        let last = remaining <= 7;
        let toggle = ctx.next_toggle;
        let payload = &ctx.data.as_slice()[ctx.sent_pos..ctx.sent_pos + chunk_len];
        let bytes = enc::download_segment(toggle, payload, last);
        ctx.sent_pos = ctx.sent_pos + chunk_len;
        ctx.next_toggle = !ctx.next_toggle;
        ctx.phase = DownloadPhase::AwaitingSegmentAck { last };
        let node_id = ctx.node_id;
        self.state = State::Downloading(ctx);
        self.queue_request(node_id, bytes, now);
    }

    // ----- internal helpers -----

    fn queue_request(&mut self, node_id: u8, bytes: [u8; 8], now: u64)
        requires
            old(self)@.time_fits(now),
        ensures
            final(self)@ == spec_queue_request(old(self)@, node_id, bytes@, now),
            final(self).state == old(self).state,
            final(self).cfg == old(self).cfg,
    {
        self.pending_tx = Some(SdoFrame::new(SdoFrame::rsdo_id(node_id), bytes));
        self.deadline = Some(now + self.cfg.timeout);
    }

    fn clear_transfer(&mut self)
        ensures
            final(self)@ == spec_clear(old(self)@),
    {
        self.state = State::Idle;
        self.pending_tx = None;
        self.deadline = None;
    }

    fn abort_with(&mut self, code: SdoAbortCode)
        ensures
            final(self)@ == spec_abort_with(old(self)@, code),
    {
        let (node_id, idx, sub) = match &self.state {
            State::Idle => {
                return ;
            },
            State::Uploading(u) => (u.node_id, u.idx, u.sub),
            State::Downloading(d) => (d.node_id, d.idx, d.sub),
        };
        self.queue_abort(node_id, idx, sub, code);
    }

    fn queue_abort(&mut self, node_id: u8, idx: u16, sub: u8, code: SdoAbortCode)
        ensures
            final(self)@ == spec_queue_abort(old(self)@, node_id, idx, sub, code),
    {
        self.pending_tx = Some(SdoFrame::new(SdoFrame::rsdo_id(node_id), wire::abort(idx, sub, code)));
        self.deadline = None;
        self.state = State::Idle;
    }

    fn matches_in_flight(&self, frame_node: u8, data: &[u8; 8]) -> (r: bool)
        ensures
            r == spec_matches_in_flight(self@.transfer, frame_node, data@),
    {
        let frame_idx = wire::index_of(data);
        let frame_sub = wire::subindex_of(data);
        match &self.state {
            State::Idle => false,
            State::Uploading(u) => u.node_id == frame_node && u.idx == frame_idx && u.sub == frame_sub,
            State::Downloading(d) => d.node_id == frame_node && d.idx == frame_idx && d.sub == frame_sub,
        }
    }
}


// ===================== laws =====================

/// One transfer at a time: starting an upload or a download while one is in
/// flight (with otherwise valid arguments) is refused with `Busy` and leaves
/// the client unchanged.
pub proof fn lemma_client_busy(m: ClientModel, node_id: u8, idx: u16, sub: u8, data: Seq<u8>, now: u64)
    requires
        !m.is_idle(),
        valid_node_id(node_id),
        data.len() >= 1,
    ensures
        spec_begin_upload(m, node_id, idx, sub, now) == (m, Err::<(), SdoError>(SdoError::Busy)),
        spec_begin_download(m, node_id, idx, sub, data, now) == (m, Err::<(), SdoError>(SdoError::Busy)),
{
}

/// A timeout that is not yet due changes nothing.
pub proof fn lemma_client_timeout_not_due(m: ClientModel, now: u64)
    requires
        m.deadline is None || now < m.deadline->0,
    ensures
        spec_client_timeout(m, now) == (m, Ok::<Option<OutcomeView>, SdoError>(None)),
{
}

/// A timeout that is due ends the transfer in flight: the client is idle,
/// an abort frame with `ProtocolTimeout` for the object of the transfer is
/// queued to its node, and no deadline runs.
pub proof fn lemma_client_timeout_due(m: ClientModel, now: u64)
    requires
        m.wf(),
        m.deadline is Some,
        now >= m.deadline->0,
    ensures
        ({
            let (m2, r) = spec_client_timeout(m, now);
            &&& r == Err::<Option<OutcomeView>, SdoError>(
                SdoError::ClientAborted(SdoAbortCode::ProtocolTimeout),
            )
            &&& m2.is_idle()
            &&& m2.deadline is None
            &&& m2.wf()
            &&& (match m.transfer {
                ClientTransfer::Uploading { node_id, idx, sub, .. } => m2.pending_tx == Some(
                    FrameView {
                        cob_id: spec_rsdo_id(node_id),
                        data: spec_abort_frame(idx, sub, SdoAbortCode::ProtocolTimeout),
                    },
                ),
                ClientTransfer::Downloading { node_id, idx, sub, .. } => m2.pending_tx == Some(
                    FrameView {
                        cob_id: spec_rsdo_id(node_id),
                        data: spec_abort_frame(idx, sub, SdoAbortCode::ProtocolTimeout),
                    },
                ),
                ClientTransfer::Idle => false,
            })
        }),
{
}

/// Frames that are not TSDO frames are ignored, and so is everything while
/// no transfer is in flight.
pub proof fn lemma_client_ignores(m: ClientModel, f: FrameView, now: u64)
    requires
        spec_node_of_tsdo(f.cob_id) is None || m.is_idle(),
    ensures
        spec_client_on_frame(m, f, now) == (m, Ok::<Option<OutcomeView>, SdoError>(None)),
{
}

/// A server abort for the transfer in flight ends it with the server's
/// code: the client is idle, sends nothing, and no deadline runs.
pub proof fn lemma_client_server_abort(m: ClientModel, node: u8, idx: u16, sub: u8, code: SdoAbortCode, now: u64)
    requires
        valid_node_id(node),
        is_canonical(code),
        match m.transfer {
            ClientTransfer::Uploading { node_id, idx: i, sub: s, .. } => node_id == node && i == idx
                && s == sub,
            ClientTransfer::Downloading { node_id, idx: i, sub: s, .. } => node_id == node && i
                == idx && s == sub,
            ClientTransfer::Idle => false,
        },
    ensures
        ({
            let f = FrameView { cob_id: spec_tsdo_id(node), data: spec_abort_frame(idx, sub, code) };
            let (m2, r) = spec_client_on_frame(m, f, now);
            &&& r == Err::<Option<OutcomeView>, SdoError>(SdoError::ServerAborted(code))
            &&& m2 == spec_clear(m)
        }),
{
    lemma_cob_id_roundtrip(node);
    lemma_abort_frame_fields(idx, sub, code);
    lemma_from_raw_of_raw(code);
}


/// The object of the transfer in flight: node, index and sub-index.
pub open spec fn transfer_object(t: ClientTransfer) -> Option<(u8, u16, u8)> {
    match t {
        ClientTransfer::Idle => None,
        ClientTransfer::Uploading { node_id, idx, sub, .. } => Some((node_id, idx, sub)),
        ClientTransfer::Downloading { node_id, idx, sub, .. } => Some((node_id, idx, sub)),
    }
}

/// Every way a frame ends a transfer leaves the client idle with no
/// deadline: when the client aborts, the abort frame with that code for the
/// object of the transfer is queued; when the server aborted or the transfer
/// completed, nothing is queued.
pub proof fn lemma_client_frame_outcomes(m: ClientModel, f: FrameView, now: u64)
    requires
        m.wf(),
    ensures
        ({
            let (m2, r) = spec_client_on_frame(m, f, now);
            &&& r matches Err(SdoError::ClientAborted(code)) ==> {
                &&& m2.is_idle()
                &&& m2.deadline is None
                &&& transfer_object(m.transfer) matches Some((node_id, idx, sub))
                &&& m2.pending_tx == Some(
                    FrameView { cob_id: spec_rsdo_id(node_id), data: spec_abort_frame(idx, sub, code) },
                )
            }
            &&& (r matches Err(SdoError::ServerAborted(_)) || r matches Ok(Some(_))) ==> {
                &&& m2.is_idle()
                &&& m2.deadline is None
                &&& m2.pending_tx is None
            }
            &&& r matches Err(e) ==> (e is ClientAborted || e is ServerAborted)
            &&& m2.wf()
        }),
{
}

/// The response deadline follows the requests. Every call keeps the timeout;
/// starting a transfer arms the deadline at `now` plus the timeout; a frame
/// either changes nothing, or queues a request and arms the deadline at `now`
/// plus the timeout, or ends the transfer and clears it; a timeout or an
/// abort changes nothing or clears it; taking the queued frame leaves it. So
/// over any run, a running deadline is the `now` of the call that last
/// queued a request, plus the timeout.
pub proof fn lemma_client_deadline(m: ClientModel, node_id: u8, idx: u16, sub: u8, data: Seq<u8>, f: FrameView, code: SdoAbortCode, now: u64)
    ensures
        ({
            let (m2, r) = spec_begin_upload(m, node_id, idx, sub, now);
            &&& r is Ok ==> m2.deadline == Some((now + m.timeout) as u64) && m2.timeout == m.timeout
            &&& r is Err ==> m2 == m
        }),
        ({
            let (m2, r) = spec_begin_download(m, node_id, idx, sub, data, now);
            &&& r is Ok ==> m2.deadline == Some((now + m.timeout) as u64) && m2.timeout == m.timeout
            &&& r is Err ==> m2 == m
        }),
        ({
            let (m2, r) = spec_client_on_frame(m, f, now);
            &&& m2.timeout == m.timeout
            &&& r == Ok::<Option<OutcomeView>, SdoError>(None) ==> (m2 == m || (m2.deadline == Some(
                (now + m.timeout) as u64,
            ) && m2.pending_tx is Some))
            &&& r != Ok::<Option<OutcomeView>, SdoError>(None) ==> m2.deadline is None
        }),
        ({
            let (m2, r) = spec_client_timeout(m, now);
            m2 == m || (m2.deadline is None && m2.timeout == m.timeout)
        }),
        spec_abort_with(m, code) == m || (spec_abort_with(m, code).deadline is None
            && spec_abort_with(m, code).timeout == m.timeout),
        spec_take_pending(m).deadline == m.deadline,
        spec_take_pending(m).timeout == m.timeout,
{
}

/// A segmented download of `data` to (`idx`, `sub`) at `node`, with `k`
/// segments acknowledged (the initiate request for `k == 0`), waiting for
/// that acknowledgement.
pub open spec fn download_at(m: ClientModel, node: u8, idx: u16, sub: u8, data: Seq<u8>, k: nat) -> bool {
    &&& data.len() > 4
    &&& 7 * k < data.len()
    &&& m.transfer == (ClientTransfer::Downloading {
        node_id: node,
        idx,
        sub,
        data,
        sent_pos: 7 * k,
        next_toggle: k % 2 == 1,
        download_phase: if k == 0 {
            DownloadPhase::AwaitingInit { expedited: false }
        } else {
            DownloadPhase::AwaitingSegmentAck { last: false }
        },
    })
}

/// Whether `f` acknowledges the `k`-th step of a download of (`idx`, `sub`)
/// from `node`: the initiate-download response for `k == 0`, else a segment
/// acknowledgement echoing the toggle of segment `k - 1`.
pub open spec fn acknowledges(f: FrameView, node: u8, idx: u16, sub: u8, k: nat) -> bool {
    &&& spec_node_of_tsdo(f.cob_id) == Some(node)
    &&& if k == 0 {
        &&& f.data[0] & CS_MASK == SCS_INIT_DOWNLOAD
        &&& spec_index_of(f.data) == idx
        &&& f.data[3] == sub
    } else {
        &&& f.data[0] & CS_MASK == SCS_DOWNLOAD_SEGMENT
        &&& spec_toggle(f.data[0]) == ((k - 1) as nat % 2 == 1)
    }
}

/// A segmented download (more than four bytes) starts waiting for the
/// acknowledgement of its initiate request, with no segment sent.
pub proof fn lemma_download_starts(m: ClientModel, node: u8, idx: u16, sub: u8, data: Seq<u8>, now: u64)
    requires
        m.is_idle(),
        valid_node_id(node),
        data.len() > 4,
    ensures
        download_at(spec_begin_download(m, node, idx, sub, data, now).0, node, idx, sub, data, 0),
{
}

/// The `k`-th segment of a download: once step `k` is acknowledged, the
/// client queues, to the node's RSDO, segment `k` with toggle `k % 2 == 1`,
/// the payload bytes `7k .. min(7k + 7, len)` and the "last" flag exactly
/// when `7k + 7 >= len`; it then waits for segment `k + 1`, or for the final
/// acknowledgement with the whole payload sent. So the segments' payloads
/// concatenate to the data, and only the last one is flagged.
pub proof fn lemma_download_segment_k(m: ClientModel, node: u8, idx: u16, sub: u8, data: Seq<u8>, k: nat, f: FrameView, now: u64)
    requires
        download_at(m, node, idx, sub, data, k),
        acknowledges(f, node, idx, sub, k),
    ensures
        ({
            let (m2, r) = spec_client_on_frame(m, f, now);
            let end: int = if 7 * k + 7 < data.len() {
                (7 * k + 7) as int
            } else {
                data.len() as int
            };
            let last = 7 * k + 7 >= data.len();
            &&& r == Ok::<Option<OutcomeView>, SdoError>(None)
            &&& m2.pending_tx == Some(
                FrameView {
                    cob_id: spec_rsdo_id(node),
                    data: spec_download_segment(k % 2 == 1, data.subrange((7 * k) as int, end), last),
                },
            )
            &&& m2.deadline == Some((now + m.timeout) as u64)
            &&& !last ==> download_at(m2, node, idx, sub, data, k + 1)
            &&& last ==> m2.transfer == (ClientTransfer::Downloading {
                node_id: node,
                idx,
                sub,
                data,
                sent_pos: data.len(),
                next_toggle: k % 2 == 0,
                download_phase: DownloadPhase::AwaitingSegmentAck { last: true },
            })
        }),
{
    lemma_cs_constants();
    assert(SCS_INIT_DOWNLOAD != CS_ABORT && SCS_DOWNLOAD_SEGMENT != CS_ABORT);
    if k > 0 {
        assert(((k - 1) as nat % 2 == 1) == !(k % 2 == 1));
    }
    assert((k + 1) % 2 == 1 <==> !(k % 2 == 1));
}

/// A segmented initiate-upload response that does not indicate the size
/// (bit 1 `e` and bit 0 `s` clear) leaves the upload with no expected
/// length: the client keeps what it received, requests the first segment
/// with the toggle it holds, and will accept a value of any length.
pub proof fn lemma_upload_unsized_response(m: ClientModel, f: FrameView, now: u64)
    requires
        m.transfer matches ClientTransfer::Uploading { node_id, idx, sub, expected_len, upload_phase, .. }
            && upload_phase == UploadPhase::AwaitingInit && expected_len is None
            && spec_node_of_tsdo(f.cob_id) == Some(node_id) && spec_index_of(f.data) == idx
            && f.data[3] == sub,
        f.data.len() == 8,
        f.data[0] & 0xE3 == 0x40,
    ensures
        ({
            let (m2, r) = spec_client_on_frame(m, f, now);
            &&& r == Ok::<Option<OutcomeView>, SdoError>(None)
            &&& match m.transfer {
                ClientTransfer::Uploading { node_id, idx, sub, received, next_toggle, .. } => {
                    &&& m2.transfer == (ClientTransfer::Uploading {
                        node_id,
                        idx,
                        sub,
                        received,
                        expected_len: None,
                        next_toggle,
                        upload_phase: UploadPhase::AwaitingSegment,
                    })
                    &&& m2.pending_tx == Some(
                        FrameView {
                            cob_id: spec_rsdo_id(node_id),
                            data: spec_upload_segment_request(next_toggle),
                        },
                    )
                },
                _ => false,
            }
        }),
{
    let c = f.data[0];
    assert(c & 0xE0 == 0x40 && c & 2 == 0 && c & 1 == 0) by (bit_vector)
        requires
            c & 0xE3 == 0x40,
    ;
}

/// The final segment of an upload (bit 0 `c` set, command specifier 0, the
/// expected toggle) completes it with exactly the bytes received before it
/// followed by its own `7 - n` payload bytes, `n` being bits 1..4 of the
/// command byte, whenever no size was announced or the total matches the
/// announced size; the client ends idle with nothing queued.
pub proof fn lemma_upload_final_segment(m: ClientModel, f: FrameView, now: u64)
    requires
        m.transfer matches ClientTransfer::Uploading { node_id, expected_len, next_toggle, upload_phase, received, .. }
            && upload_phase == UploadPhase::AwaitingSegment
            && spec_node_of_tsdo(f.cob_id) == Some(node_id)
            && (f.data[0] & 0x10 == 0x10) == next_toggle
            && (expected_len is None || expected_len->0 == received.len() + 7 - ((f.data[0] >> 1) & 7)),
        f.data.len() == 8,
        f.data[0] & 0xE0 == 0x00,
        f.data[0] & 1 == 1,
    ensures
        ({
            let (m2, r) = spec_client_on_frame(m, f, now);
            let payload = f.data.subrange(1, 8 - ((f.data[0] >> 1) & 7));
            &&& m.transfer matches ClientTransfer::Uploading { received, .. } && r == Ok::<
                Option<OutcomeView>,
                SdoError,
            >(Some(OutcomeView::UploadCompleted(received + payload)))
            &&& m2.is_idle()
            &&& m2.pending_tx is None
            &&& m2.deadline is None
        }),
{
    let c = f.data[0];
    lemma_segment_len_field(c);
    assert(c & 0xE0 != 0x80) by (bit_vector)
        requires
            c & 0xE0 == 0x00,
    ;
}

/// The requests a client sends, byte by byte (CiA 301): to node `n` on
/// COB-ID `0x600 + n`; an initiate-upload is `0x40`, the index
/// little-endian, the sub-index and four zero bytes; an initiate-download of
/// up to four bytes is expedited (`0x20` with `e` and `s` set, `n = 4 -
/// len`, the data in bytes 4..), of more is segmented (`0x21`, the size
/// little-endian in bytes 4..8); a segment request is `0x60` with the
/// toggle in bit 4 and seven zero bytes.
pub proof fn lemma_client_request_bytes(m: ClientModel, node: u8, idx: u16, sub: u8, data: Seq<u8>, toggle: bool, now: u64)
    requires
        m.is_idle(),
        valid_node_id(node),
    ensures
        ({
            let (m2, r) = spec_begin_upload(m, node, idx, sub, now);
            &&& r is Ok
            &&& m2.pending_tx matches Some(f) && {
                &&& f.cob_id == 0x600 + node
                &&& f.data == seq![0x40u8, (idx % 256) as u8, (idx / 256) as u8, sub, 0u8, 0u8, 0u8, 0u8]
            }
        }),
        data.len() >= 1 ==> {
            let (m2, r) = spec_begin_download(m, node, idx, sub, data, now);
            &&& r is Ok
            &&& m2.pending_tx matches Some(f) && {
                let d = f.data;
                &&& f.cob_id == 0x600 + node
                &&& d.len() == 8
                &&& d[0] & 0xE0 == 0x20
                &&& d[1] as int == idx as int % 256
                &&& d[2] as int == idx as int / 256
                &&& d[3] == sub
                &&& data.len() <= 4 ==> {
                    &&& d[0] & 3 == 3
                    &&& (d[0] >> 2) & 3 == 4 - data.len()
                    &&& d.subrange(4, 4 + data.len() as int) == data
                }
                &&& (data.len() > 4 && data.len() <= u32::MAX) ==> {
                    &&& d[0] & 3 == 1
                    &&& le_u32_at4(d) == data.len()
                }
            }
        },
        spec_upload_segment_request(toggle) == seq![
            if toggle { 0x70u8 } else { 0x60u8 },
            0u8,
            0u8,
            0u8,
            0u8,
            0u8,
            0u8,
            0u8,
        ],
{
    crate::frame::lemma_cob_id_values(node, 0);
    lemma_cs_constants();
    crate::wire::lemma_frame_bytes(CCS_INIT_DOWNLOAD, idx, sub, data, data.len() as u32, 0);
    assert((0x60u8 | 0x10u8) == 0x70u8 && (0x60u8 | 0u8) == 0x60u8) by (bit_vector);
    assert(spec_init_upload(idx, sub) =~= seq![0x40u8, (idx % 256) as u8, (idx / 256) as u8, sub, 0u8, 0u8, 0u8, 0u8]);
    assert(spec_upload_segment_request(toggle) =~= seq![
        if toggle { 0x70u8 } else { 0x60u8 },
        0u8,
        0u8,
        0u8,
        0u8,
        0u8,
        0u8,
        0u8,
    ]);
}

} // verus!
