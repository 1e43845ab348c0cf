//! Sans-IO CANopen SDO server (node side), CiA 301.
//!
//! The mirror image of the client: a state machine that answers a single SDO
//! master against a caller-provided [`ObjectDictionary`]. `N` bounds the
//! largest object the server transfers, in bytes.
//!
//! [`SdoServer::handle_frame`] is fed each incoming RSDO request,
//! [`SdoServer::poll_transmit`] hands out the response or abort frame, and
//! [`SdoServer::poll_timeout`] / [`SdoServer::handle_timeout`] abort a
//! stalled segmented transfer.

use vstd::prelude::*;

use crate::abort::SdoAbortCode;
use crate::bytes::push_bytes;
use crate::error::SdoError;
use crate::frame::{opt_frame, spec_node_of_rsdo, spec_tsdo_id, FrameView, SdoFrame};
use crate::wire::{
    self, le_u32_at4, spec_abort_frame, spec_expedited_init_frame, spec_expedited_len,
    spec_header, spec_index_of, spec_segment_cmd, spec_segment_frame, spec_segment_last,
    spec_segment_len, spec_segmented_init_frame, spec_toggle, zeros, CCS_DOWNLOAD_SEGMENT,
    CCS_INIT_DOWNLOAD, CCS_INIT_UPLOAD, CCS_UPLOAD_SEGMENT, CS_ABORT, CS_MASK,
    SCS_DOWNLOAD_SEGMENT, SCS_INIT_DOWNLOAD, SCS_INIT_UPLOAD, SCS_UPLOAD_SEGMENT, TOGGLE_BIT,
};

verus! {

/// The object dictionary the server answers requests against.
///
/// The server does the SDO framing (expedited or segmented, toggles,
/// aborts); all access to the objects goes through these two methods. The
/// server relies on nothing that they return: a count larger than the buffer
/// is answered with an `OutOfMemory` abort. The server keeps its own record
/// of the calls it makes (`ServerModel::od_log`), each with its answer.
pub trait ObjectDictionary {
    /// Read the value at (`index`, `sub`) into `buf` and return its length
    /// (at most `buf.len()`), or an abort code such as `ObjectDoesNotExist`,
    /// `ReadWriteOnly`, or `OutOfMemory` for a value larger than `buf`.
    fn read(&mut self, index: u16, sub: u8, buf: &mut [u8]) -> Result<usize, SdoAbortCode>;

    /// Write `data` to (`index`, `sub`), or return an abort code such as
    /// `WriteReadOnly` or `InvalidValue`.
    fn write(&mut self, index: u16, sub: u8, data: &[u8]) -> Result<(), SdoAbortCode>;
}

/// Server tunables.
#[derive(Debug, Clone, Copy)]
pub struct ServerConfig {
    /// This node's id (1..=127); the server answers RSDO `0x600 + node_id`.
    pub node_id: u8,
    /// How long to wait for the next frame of a segmented transfer before
    /// aborting it, in the caller's monotonic time unit; `0` disables it.
    pub timeout: u64,
}

/// The default segmented-transfer timeout: one second in nanoseconds.
pub const DEFAULT_SERVER_TIMEOUT: u64 = 1_000_000_000;

impl ServerConfig {
    /// The configuration for `node_id` with the default one-second timeout.
    pub fn new(node_id: u8) -> (cfg: Self)
        ensures
            cfg.node_id == node_id,
            cfg.timeout == DEFAULT_SERVER_TIMEOUT,
    {
        Self { node_id, timeout: DEFAULT_SERVER_TIMEOUT }
    }
}

// ===================== the model =====================

/// The transfer a server has in progress.
pub enum ServerTransfer {
    Idle,
    /// Serving a segmented upload (read): `value` is the object, `sent`
    /// bytes of it are on the wire, `toggle` is expected next.
    Uploading { idx: u16, sub: u8, value: Seq<u8>, sent: nat, toggle: bool },
    /// Receiving a segmented download (write): `received` so far, `expected`
    /// total if the client announced it, `toggle` expected next.
    Downloading { idx: u16, sub: u8, received: Seq<u8>, expected: Option<usize>, toggle: bool },
}

/// An SDO server as plain values.
pub struct ServerModel {
    pub node_id: u8,
    pub timeout: u64,
    /// The largest object, in bytes (`N`).
    pub capacity: nat,
    pub transfer: ServerTransfer,
    pub pending_tx: Option<FrameView>,
    pub deadline: Option<u64>,
    /// The calls the server made into its object dictionary, oldest first,
    /// each with the dictionary's answer.
    pub od_log: Seq<OdEvent>,
}

impl ServerModel {
    /// The server's invariant: a deadline runs only during a segmented
    /// transfer and never with a zero timeout, and no buffer outgrows the
    /// capacity.
    pub open spec fn wf(self) -> bool {
        &&& (self.deadline is Some ==> !(self.transfer is Idle))
        &&& (self.timeout == 0 ==> self.deadline is None)
        &&& match self.transfer {
            ServerTransfer::Idle => true,
            ServerTransfer::Uploading { value, sent, .. } => sent <= value.len()
                <= self.capacity,
            ServerTransfer::Downloading { received, expected, .. } => {
                &&& received.len() <= self.capacity
                &&& (expected is Some ==> expected->0 <= self.capacity)
            },
        }
    }

    pub open spec fn is_idle(self) -> bool {
        self.transfer is Idle
    }

    /// Whether `now` plus the timeout fits the clock.
    pub open spec fn time_fits(self, now: u64) -> bool {
        now + self.timeout <= u64::MAX
    }
}

/// A call the server makes into the object dictionary.
pub enum OdCall {
    NoCall,
    Read { idx: u16, sub: u8 },
    Write { idx: u16, sub: u8, data: Seq<u8> },
}

/// What the object dictionary answered: the result of `read` with the buffer
/// it filled, and the result of `write`. A step uses the part that belongs to
/// the call it made.
pub struct OdReply {
    pub read: Result<usize, SdoAbortCode>,
    pub buf: Seq<u8>,
    pub write: Result<(), SdoAbortCode>,
}

/// One call made into the object dictionary and what it answered: a read of
/// (`idx`, `sub`) that returned `read` and left `buf` in the buffer, or a
/// write of `data` to (`idx`, `sub`) that returned `written`.
pub enum OdEvent {
    Read { idx: u16, sub: u8, read: Result<usize, SdoAbortCode>, buf: Seq<u8> },
    Write { idx: u16, sub: u8, data: Seq<u8>, written: Result<(), SdoAbortCode> },
}

/// A reply for the steps that make no call; they do not look at it.
pub open spec fn no_reply() -> OdReply {
    OdReply { read: Ok(0), buf: Seq::empty(), write: Ok(()) }
}

/// Whether `ev` is a record of the call `call`: the same kind of call, on the
/// same object, writing the same data.
pub open spec fn answers(call: OdCall, ev: OdEvent) -> bool {
    match (call, ev) {
        (OdCall::Read { idx, sub }, OdEvent::Read { idx: i, sub: s, .. }) => idx == i && sub == s,
        (OdCall::Write { idx, sub, data }, OdEvent::Write { idx: i, sub: s, data: d, .. }) => idx
            == i && sub == s && data == d,
        _ => false,
    }
}

/// The reply a recorded call carries.
pub open spec fn reply_of(ev: OdEvent) -> OdReply {
    match ev {
        OdEvent::Read { read, buf, .. } => OdReply { read, buf, write: Ok(()) },
        OdEvent::Write { written, .. } => OdReply { read: Ok(0), buf: Seq::empty(), write: written },
    }
}

/// Whether going from `pre` to `post` with result `r` is the step `steps`
/// as it happened: a step that makes no call into the dictionary leaves its
/// record alone; a step that makes a call adds exactly one record, of that
/// call, and goes on with the answer recorded there.
pub open spec fn spec_traced(pre: ServerModel, steps: spec_fn(OdReply) -> ServerStep, post: ServerModel, r: Result<(), SdoError>) -> bool {
    let call = steps(no_reply()).call;
    match call {
        OdCall::NoCall => post == steps(no_reply()).post && r == steps(no_reply()).result,
        _ => {
            let ev = post.od_log.last();
            &&& post.od_log == pre.od_log.push(ev)
            &&& answers(call, ev)
            &&& post == (ServerModel { od_log: post.od_log, ..steps(reply_of(ev)).post })
            &&& r == steps(reply_of(ev)).result
        },
    }
}

/// One step of the server: the new state, the result, and the call made
/// into the object dictionary.
pub struct ServerStep {
    pub post: ServerModel,
    pub result: Result<(), SdoError>,
    pub call: OdCall,
}

/// A step that makes no call into the object dictionary.
pub open spec fn step(post: ServerModel, result: Result<(), SdoError>) -> ServerStep {
    ServerStep { post, result, call: OdCall::NoCall }
}

/// Drop the transfer, the deadline and anything queued.
pub open spec fn spec_reset(m: ServerModel) -> ServerModel {
    ServerModel { transfer: ServerTransfer::Idle, deadline: None, pending_tx: None, ..m }
}

/// Queue a response with no deadline.
pub open spec fn spec_queue(m: ServerModel, bytes: Seq<u8>) -> ServerModel {
    ServerModel {
        pending_tx: Some(FrameView { cob_id: spec_tsdo_id(m.node_id), data: bytes }),
        deadline: None,
        ..m
    }
}

/// Queue a response and arm the segmented-transfer deadline (unless the
/// timeout is 0).
pub open spec fn spec_queue_with_deadline(m: ServerModel, bytes: Seq<u8>, now: u64) -> ServerModel {
    ServerModel {
        pending_tx: Some(FrameView { cob_id: spec_tsdo_id(m.node_id), data: bytes }),
        deadline: if m.timeout > 0 {
            Some((now + m.timeout) as u64)
        } else {
            None
        },
        ..m
    }
}

/// Abort with `code`: drop the transfer, queue the abort frame for
/// (`idx`, `sub`) and report `ClientAborted(code)`.
pub open spec fn spec_server_abort(m: ServerModel, idx: u16, sub: u8, code: SdoAbortCode) -> (ServerModel, Result<(), SdoError>) {
    (
        ServerModel {
            transfer: ServerTransfer::Idle,
            deadline: None,
            pending_tx: Some(
                FrameView { cob_id: spec_tsdo_id(m.node_id), data: spec_abort_frame(idx, sub, code) },
            ),
            ..m
        },
        Err(SdoError::ClientAborted(code)),
    )
}

/// The acknowledgement of an initiate-download.
pub open spec fn spec_init_download_ack(idx: u16, sub: u8) -> Seq<u8> {
    spec_header(SCS_INIT_DOWNLOAD, idx, sub) + zeros(4)
}

/// The acknowledgement of a download segment, echoing its toggle.
pub open spec fn spec_download_segment_ack(toggle: bool) -> Seq<u8> {
    seq![SCS_DOWNLOAD_SEGMENT | (if toggle { TOGGLE_BIT } else { 0u8 })] + zeros(7)
}

/// What the server does once the dictionary answered the read of
/// (`idx`, `sub`) with `read`, having filled `buf`: abort with the
/// dictionary's code; abort with `OutOfMemory` for a length beyond the
/// capacity or the buffer; answer 1 to 4 bytes expedited; otherwise announce
/// the size and start a segmented upload.
pub open spec fn spec_after_read(m: ServerModel, idx: u16, sub: u8, read: Result<usize, SdoAbortCode>, buf: Seq<u8>, now: u64) -> (ServerModel, Result<(), SdoError>) {
    match read {
        Err(code) => spec_server_abort(m, idx, sub, code),
        Ok(len) => if len > m.capacity || len > buf.len() {
            spec_server_abort(m, idx, sub, SdoAbortCode::OutOfMemory)
        } else {
            let value = buf.subrange(0, len as int);
            if 1 <= len <= 4 {
                // expedited: the value goes inline
                (
                    spec_queue(
                        spec_reset(m),
                        spec_expedited_init_frame(SCS_INIT_UPLOAD, idx, sub, value),
                    ),
                    Ok(()),
                )
            } else {
                // segmented (also for an empty value): announce the size
                let t = ServerTransfer::Uploading { idx, sub, value, sent: 0, toggle: false };
                (
                    spec_queue_with_deadline(
                        ServerModel { transfer: t, ..m },
                        spec_segmented_init_frame(SCS_INIT_UPLOAD, idx, sub, len as u32),
                        now,
                    ),
                    Ok(()),
                )
            }
        },
    }
}

/// What the server does once the dictionary answered an expedited write to
/// (`idx`, `sub`) with `written`: abort with its code, or acknowledge.
pub open spec fn spec_after_expedited_write(m: ServerModel, idx: u16, sub: u8, written: Result<(), SdoAbortCode>) -> (ServerModel, Result<(), SdoError>) {
    match written {
        Err(code) => spec_server_abort(m, idx, sub, code),
        Ok(()) => (spec_queue(spec_reset(m), spec_init_download_ack(idx, sub)), Ok(())),
    }
}

/// What the server does once the dictionary answered the write that ends a
/// segmented download of (`idx`, `sub`) with `written`: abort with its code,
/// or acknowledge the final segment, whose toggle was `toggle`.
pub open spec fn spec_after_segmented_write(m: ServerModel, idx: u16, sub: u8, toggle: bool, written: Result<(), SdoAbortCode>) -> (ServerModel, Result<(), SdoError>) {
    match written {
        Err(code) => spec_server_abort(m, idx, sub, code),
        Ok(()) => (spec_queue(spec_reset(m), spec_download_segment_ack(toggle)), Ok(())),
    }
}

/// An initiate-upload request for (`idx`, `sub`): the server reads the
/// object, the dictionary answering with `reply`.
pub open spec fn spec_on_init_upload(m: ServerModel, idx: u16, sub: u8, reply: OdReply, now: u64) -> ServerStep {
    let (post, result) = spec_after_read(m, idx, sub, reply.read, reply.buf, now);
    ServerStep { post, result, call: OdCall::Read { idx, sub } }
}

/// An upload-segment request with command byte `cmd`.
pub open spec fn spec_on_upload_segment(m: ServerModel, cmd: u8, now: u64) -> ServerStep {
    match m.transfer {
        ServerTransfer::Uploading { idx, sub, value, sent, toggle } => {
            if spec_toggle(cmd) != toggle {
                let (post, result) = spec_server_abort(
                    m,
                    idx,
                    sub,
                    SdoAbortCode::ToggleBitNotAlternated,
                );
                step(post, result)
            } else {
                let remaining = value.len() - sent;
                let chunk = if remaining < 7 {
                    remaining
                } else {
                    7
                };
                let last = remaining <= 7;
                let out = spec_segment_frame(
                    spec_segment_cmd(SCS_UPLOAD_SEGMENT, toggle, chunk, last),
                    value.subrange(sent as int, sent + chunk),
                );
                if last {
                    step(spec_queue(spec_reset(m), out), Ok(()))
                } else {
                    let t = ServerTransfer::Uploading {
                        idx,
                        sub,
                        value,
                        sent: (sent + chunk) as nat,
                        toggle: !toggle,
                    };
                    step(spec_queue_with_deadline(ServerModel { transfer: t, ..m }, out, now), Ok(()))
                }
            }
        },
        _ => {
            let (post, result) = spec_server_abort(m, 0, 0, SdoAbortCode::InvalidCommandSpecifier);
            step(post, result)
        },
    }
}

/// An initiate-download request: an expedited write goes to the
/// dictionary at once, a segmented one is acknowledged and its segments are
/// collected.
pub open spec fn spec_on_init_download(m: ServerModel, d: Seq<u8>, reply: OdReply, now: u64) -> ServerStep {
    let cmd = d[0];
    let idx = spec_index_of(d);
    let sub = d[3];
    if cmd & 2 != 0 {
        let data = d.subrange(4, 4 + spec_expedited_len(cmd));
        let (post, result) = spec_after_expedited_write(m, idx, sub, reply.write);
        ServerStep { post, result, call: OdCall::Write { idx, sub, data } }
    } else {
        let expected: Option<usize> = if cmd & 1 != 0 {
            Some(le_u32_at4(d) as usize)
        } else {
            None
        };
        if expected is Some && expected->0 > m.capacity {
            let (post, result) = spec_server_abort(m, idx, sub, SdoAbortCode::OutOfMemory);
            step(post, result)
        } else {
            let t = ServerTransfer::Downloading {
                idx,
                sub,
                received: Seq::empty(),
                expected,
                toggle: false,
            };
            step(
                spec_queue_with_deadline(
                    ServerModel { transfer: t, ..m },
                    spec_init_download_ack(idx, sub),
                    now,
                ),
                Ok(()),
            )
        }
    }
}

/// A download segment: collect its payload; on the final one, hand the
/// whole value to the dictionary.
pub open spec fn spec_on_download_segment(m: ServerModel, d: Seq<u8>, reply: OdReply, now: u64) -> ServerStep {
    let cmd = d[0];
    match m.transfer {
        ServerTransfer::Downloading { idx, sub, received, expected, toggle } => {
            if spec_toggle(cmd) != toggle {
                let (post, result) = spec_server_abort(
                    m,
                    idx,
                    sub,
                    SdoAbortCode::ToggleBitNotAlternated,
                );
                step(post, result)
            } else if received.len() + spec_segment_len(cmd) > m.capacity {
                let (post, result) = spec_server_abort(m, idx, sub, SdoAbortCode::OutOfMemory);
                step(post, result)
            } else {
                let received2 = received + d.subrange(1, 1 + spec_segment_len(cmd));
                let ack = spec_download_segment_ack(toggle);
                if spec_segment_last(cmd) {
                    if expected is Some && expected->0 != received2.len() {
                        let (post, result) = spec_server_abort(
                            m,
                            idx,
                            sub,
                            SdoAbortCode::DataTypeLengthMismatch,
                        );
                        step(post, result)
                    } else {
                        let (post, result) = spec_after_segmented_write(
                            m,
                            idx,
                            sub,
                            toggle,
                            reply.write,
                        );
                        ServerStep { post, result, call: OdCall::Write { idx, sub, data: received2 } }
                    }
                } else {
                    let t = ServerTransfer::Downloading {
                        idx,
                        sub,
                        received: received2,
                        expected,
                        toggle: !toggle,
                    };
                    step(spec_queue_with_deadline(ServerModel { transfer: t, ..m }, ack, now), Ok(()))
                }
            }
        },
        _ => {
            let (post, result) = spec_server_abort(m, 0, 0, SdoAbortCode::InvalidCommandSpecifier);
            step(post, result)
        },
    }
}

/// `handle_frame`: react to an incoming frame, the dictionary answering
/// with `reply`. Frames that are not RSDO frames for this node are ignored;
/// a client abort drops the transfer silently.
pub open spec fn spec_server_on_frame(m: ServerModel, f: FrameView, now: u64, reply: OdReply) -> ServerStep {
    let d = f.data;
    let cs = d[0] & CS_MASK;
    if spec_node_of_rsdo(f.cob_id) != Some(m.node_id) {
        step(m, Ok(()))
    } else if cs == CS_ABORT {
        step(spec_reset(m), Ok(()))
    } else if cs == CCS_INIT_UPLOAD {
        spec_on_init_upload(m, spec_index_of(d), d[3], reply, now)
    } else if cs == CCS_UPLOAD_SEGMENT {
        spec_on_upload_segment(m, d[0], now)
    } else if cs == CCS_INIT_DOWNLOAD {
        spec_on_init_download(m, d, reply, now)
    } else if cs == CCS_DOWNLOAD_SEGMENT {
        spec_on_download_segment(m, d, reply, now)
    } else {
        let (post, result) = spec_server_abort(
            m,
            spec_index_of(d),
            d[3],
            SdoAbortCode::InvalidCommandSpecifier,
        );
        step(post, result)
    }
}

/// `handle_timeout`: abort a segmented transfer whose deadline passed.
pub open spec fn spec_server_timeout(m: ServerModel, now: u64) -> (ServerModel, Result<(), SdoError>) {
    match m.deadline {
        None => (m, Ok(())),
        Some(dl) => if now < dl {
            (m, Ok(()))
        } else {
            match m.transfer {
                ServerTransfer::Uploading { idx, sub, .. } => spec_server_abort(
                    m,
                    idx,
                    sub,
                    SdoAbortCode::ProtocolTimeout,
                ),
                ServerTransfer::Downloading { idx, sub, .. } => spec_server_abort(
                    m,
                    idx,
                    sub,
                    SdoAbortCode::ProtocolTimeout,
                ),
                ServerTransfer::Idle => (ServerModel { deadline: None, ..m }, Ok(())),
            }
        },
    }
}


// ===================== the state machine =====================

enum State {
    Idle,
    Uploading { idx: u16, sub: u8, buf: Vec<u8>, sent: usize, toggle: bool },
    Downloading { idx: u16, sub: u8, buf: Vec<u8>, expected: Option<usize>, toggle: bool },
}

spec fn state_model(s: State) -> ServerTransfer {
    match s {
        State::Idle => ServerTransfer::Idle,
        State::Uploading { idx, sub, buf, sent, toggle } => ServerTransfer::Uploading {
            idx,
            sub,
            value: buf@,
            sent: sent as nat,
            toggle,
        },
        State::Downloading { idx, sub, buf, expected, toggle } => ServerTransfer::Downloading {
            idx,
            sub,
            received: buf@,
            expected,
            toggle,
        },
    }
}

/// SDO server state machine; `N` bounds the largest object it transfers.
pub struct SdoServer<const N: usize> {
    cfg: ServerConfig,
    state: State,
    pending_tx: Option<SdoFrame>,
    deadline: Option<u64>,
    /// The calls made into the object dictionary, with their answers.
    od_log: Ghost<Seq<OdEvent>>,
}

impl<const N: usize> View for SdoServer<N> {
    type V = ServerModel;

    closed spec fn view(&self) -> ServerModel {
        ServerModel {
            node_id: self.cfg.node_id,
            timeout: self.cfg.timeout,
            capacity: N as nat,
            transfer: state_model(self.state),
            pending_tx: opt_frame(self.pending_tx),
            deadline: self.deadline,
            od_log: self.od_log@,
        }
    }
}

impl<const N: usize> SdoServer<N> {
    pub fn new(cfg: ServerConfig) -> (s: Self)
        ensures
            s@ == (ServerModel {
                node_id: cfg.node_id,
                timeout: cfg.timeout,
                capacity: N as nat,
                transfer: ServerTransfer::Idle,
                pending_tx: None,
                deadline: None,
                od_log: Seq::empty(),
            }),
            s@.wf(),
    {
        Self { cfg, state: State::Idle, pending_tx: None, deadline: None, od_log: Ghost(Seq::empty()) }
    }

    /// Whether no transfer is in progress.
    pub fn is_idle(&self) -> (r: bool)
        ensures
            r == self@.is_idle(),
    {
        match self.state {
            State::Idle => true,
            _ => false,
        }
    }

    /// Take the response or abort frame waiting to be sent, if any.
    pub fn poll_transmit(&mut self) -> (f: Option<SdoFrame>)
        ensures
            opt_frame(f) == old(self)@.pending_tx,
            final(self)@ == (ServerModel { pending_tx: None, ..old(self)@ }),
    {
        self.pending_tx.take()
    }

    /// When the segmented transfer in progress times out, if one does.
    pub fn poll_timeout(&self) -> (dl: Option<u64>)
        ensures
            dl == self@.deadline,
    {
        self.deadline
    }

    /// Tell the server the time is `now`: past the deadline, the segmented
    /// transfer in progress is aborted with `ProtocolTimeout` and the abort
    /// frame queued.
    pub fn handle_timeout(&mut self, now: u64) -> (r: Result<(), SdoError>)
        requires
            old(self)@.wf(),
        ensures
            (final(self)@, r) == spec_server_timeout(old(self)@, now),
            final(self)@.wf(),
    {
        let dl = match self.deadline {
            Some(dl) => dl,
            None => {
                return Ok(());
            },
        };
        if now < dl {
            return Ok(());
        }
        let (idx, sub) = match &self.state {
            State::Uploading { idx, sub, .. } => (*idx, *sub),
            State::Downloading { idx, sub, .. } => (*idx, *sub),
            State::Idle => {
                self.deadline = None;
                return Ok(());
            },
        };
        self.abort(idx, sub, SdoAbortCode::ProtocolTimeout)
    }

    /// Feed an incoming RSDO request; reads and writes go through `od`. The
    /// response (or abort) is queued for `poll_transmit`.
    ///
    /// `Err(SdoError::ClientAborted(code))` when this server aborts (the
    /// abort frame is queued too); `Ok(())` otherwise, also when the client
    /// itself aborts.
    ///
    /// The step is [`spec_server_on_frame`], traced: a step that makes no
    /// call into `od` leaves the record of calls as it was; one that makes a
    /// call makes exactly that step's `call` (the object read, or the object
    /// and the bytes written), records it once with the dictionary's answer,
    /// and goes on as the model step does for that answer.
    pub fn handle_frame(&mut self, frame: SdoFrame, now: u64, od: &mut impl ObjectDictionary) -> (r: Result<(), SdoError>)
        requires
            old(self)@.wf(),
            old(self)@.time_fits(now),
        ensures
            final(self)@.wf(),
            spec_traced(
                old(self)@,
                (|reply: OdReply| spec_server_on_frame(old(self)@, frame@, now, reply)),
                final(self)@,
                r,
            ),
    {
        let ghost m0 = self@;
        let ghost steps = |reply: OdReply| spec_server_on_frame(m0, frame@, now, reply);
        match SdoFrame::node_of_rsdo(frame.cob_id) {
            Some(n) => {
                if n != self.cfg.node_id {
                    assert(steps(no_reply()).post == self@);
                    return Ok(());
                }
            },
            None => {
                assert(steps(no_reply()).post == self@);
                return Ok(());
            },
        }
        let cmd = frame.data[0];
        let cs = cmd & CS_MASK;
        if cs == CS_ABORT {
            // The client aborted: drop any transfer silently.
            self.reset();
            assert(steps(no_reply()).post == self@);
            Ok(())
        } else if cs == CCS_INIT_UPLOAD {
            let idx = wire::index_of(&frame.data);
            let sub = wire::subindex_of(&frame.data);
            let mut buf: Vec<u8> = vec![0u8; N];
            let (read, ev) = od_read(od, idx, sub, &mut buf);
            let r = self.answer_read(idx, sub, read, buf, now);
            self.record(ev);
            assert(steps(reply_of(ev@)).post == ServerModel { od_log: m0.od_log, ..self@ });
            r
        } else if cs == CCS_UPLOAD_SEGMENT {
            let r = self.on_upload_segment(cmd, now);
            assert(steps(no_reply()).post == self@);
            r
        } else if cs == CCS_INIT_DOWNLOAD {
            let r = self.on_init_download(&frame.data, now, od);
            assert(steps =~= (|reply: OdReply| spec_on_init_download(m0, frame.data@, reply, now)));
            r
        } else if cs == CCS_DOWNLOAD_SEGMENT {
            let r = self.on_download_segment(&frame.data, now, od);
            assert(steps =~= (|reply: OdReply| spec_on_download_segment(m0, frame.data@, reply, now)));
            r
        } else {
            let r = self.abort(
                wire::index_of(&frame.data),
                wire::subindex_of(&frame.data),
                SdoAbortCode::InvalidCommandSpecifier,
            );
            assert(steps(no_reply()).post == self@);
            r
        }
    }

    // ----- answering the dictionary's results -----

    /// Answer an initiate-upload of (`idx`, `sub`) once the dictionary's
    /// read returned `read` and filled `buf`: abort with its code, abort with
    /// `OutOfMemory` for a length beyond `N` (or the buffer), answer up to
    /// four bytes expedited, otherwise announce the size and serve segments.
    pub fn answer_read(&mut self, idx: u16, sub: u8, read: Result<usize, SdoAbortCode>, buf: Vec<u8>, now: u64) -> (r: Result<(), SdoError>)
        requires
            old(self)@.wf(),
            old(self)@.time_fits(now),
        ensures
            (final(self)@, r) == spec_after_read(old(self)@, idx, sub, read, buf@, now),
            final(self)@.wf(),
    {
        let mut buf = buf;
        let len = match read {
            Ok(l) => l,
            Err(code) => {
                return self.abort(idx, sub, code);
            },
        };
        // The dictionary is not trusted to keep to the buffer: a larger count
        // is refused, never used as an index.
        if len > N || len > buf.len() {
            return self.abort(idx, sub, SdoAbortCode::OutOfMemory);
        }
        buf.truncate(len);
        if 1 <= len && len <= 4 {
            let out = wire::expedited_init_frame(SCS_INIT_UPLOAD, idx, sub, buf.as_slice());
            self.reset();
            self.queue(out);
            Ok(())
        } else {
            let out = wire::segmented_init_frame(SCS_INIT_UPLOAD, idx, sub, len as u32);
            self.state = State::Uploading { idx, sub, buf, sent: 0, toggle: false };
            self.queue_with_deadline(out, now);
            Ok(())
        }
    }

    /// Answer an expedited initiate-download of (`idx`, `sub`) once the
    /// dictionary's write returned `written`: abort with its code, or
    /// acknowledge.
    pub fn answer_expedited_write(&mut self, idx: u16, sub: u8, written: Result<(), SdoAbortCode>) -> (r: Result<(), SdoError>)
        ensures
            (final(self)@, r) == spec_after_expedited_write(old(self)@, idx, sub, written),
            final(self)@.wf(),
    {
        if let Err(code) = written {
            return self.abort(idx, sub, code);
        }
        self.reset();
        self.queue(init_download_ack(idx, sub));
        Ok(())
    }

    /// Answer the final segment (toggle `toggle`) of a segmented download of
    /// (`idx`, `sub`) once the dictionary's write of the whole value returned
    /// `written`: abort with its code, or acknowledge the segment.
    pub fn answer_segmented_write(&mut self, idx: u16, sub: u8, toggle: bool, written: Result<(), SdoAbortCode>) -> (r: Result<(), SdoError>)
        ensures
            (final(self)@, r) == spec_after_segmented_write(old(self)@, idx, sub, toggle, written),
            final(self)@.wf(),
    {
        if let Err(code) = written {
            return self.abort(idx, sub, code);
        }
        self.reset();
        self.queue(download_segment_ack(toggle));
        Ok(())
    }

    // ----- request handlers -----

    fn on_upload_segment(&mut self, cmd: u8, now: u64) -> (r: Result<(), SdoError>)
        requires
            old(self)@.wf(),
            old(self)@.time_fits(now),
        ensures
            final(self)@.wf(),
            final(self)@ == spec_on_upload_segment(old(self)@, cmd, now).post,
            r == spec_on_upload_segment(old(self)@, cmd, now).result,
    {
        let mut st = State::Idle;
        core::mem::swap(&mut st, &mut self.state);
        let (idx, sub, buf, sent, toggle) = match st {
            State::Uploading { idx, sub, buf, sent, toggle } => (idx, sub, buf, sent, toggle),
            _ => {
                return self.abort(0, 0, SdoAbortCode::InvalidCommandSpecifier);
            },
        };
        if ((cmd & TOGGLE_BIT) != 0) != toggle {
            return self.abort(idx, sub, SdoAbortCode::ToggleBitNotAlternated);
        }
        let remaining = buf.len() - sent;
        let chunk = if remaining < 7 { remaining } else { 7 };
        let last = remaining <= 7;
        let seg_cmd = wire::segment_cmd(SCS_UPLOAD_SEGMENT, toggle, chunk, last);
        let out = wire::segment_frame(seg_cmd, &buf.as_slice()[sent..sent + chunk]);
        if last {
            self.reset();
            self.queue(out);
        } else {
            self.state = State::Uploading { idx, sub, buf, sent: sent + chunk, toggle: !toggle };
            self.queue_with_deadline(out, now);
        }
        Ok(())
    }

    fn on_init_download(&mut self, data: &[u8; 8], now: u64, od: &mut impl ObjectDictionary) -> (r: Result<(), SdoError>)
        requires
            old(self)@.wf(),
            old(self)@.time_fits(now),
        ensures
            final(self)@.wf(),
            spec_traced(
                old(self)@,
                (|reply: OdReply| spec_on_init_download(old(self)@, data@, reply, now)),
                final(self)@,
                r,
            ),
    {
        let ghost m0 = self@;
        let ghost steps = |reply: OdReply| spec_on_init_download(m0, data@, reply, now);
        let cmd = data[0];
        let idx = wire::index_of(data);
        let sub = wire::subindex_of(data);
        let e = (cmd & 0b10) != 0;
        let s = (cmd & 0b01) != 0;
        if e {
            // Expedited write: with s=1 the size is 4 - n; without it all
            // four data bytes count (CiA 301).
            let len = wire::expedited_len(cmd);
            let (written, ev) = od_write(od, idx, sub, &data.as_slice()[4..4 + len]);
            let r = self.answer_expedited_write(idx, sub, written);
            self.record(ev);
            assert(steps(reply_of(ev@)).post == ServerModel { od_log: m0.od_log, ..self@ });
            r
        } else {
            let expected = if s {
                Some(wire::u32_from_le(data[4], data[5], data[6], data[7]) as usize)
            } else {
                None
            };
            if let Some(exp) = expected {
                if exp > N {
                    let r = self.abort(idx, sub, SdoAbortCode::OutOfMemory);
                    assert(steps(no_reply()).post == self@);
                    return r;
                }
            }
            self.state = State::Downloading { idx, sub, buf: Vec::new(), expected, toggle: false };
            self.queue_with_deadline(init_download_ack(idx, sub), now);
            assert(steps(no_reply()).post == self@);
            Ok(())
        }
    }

    fn on_download_segment(&mut self, data: &[u8; 8], now: u64, od: &mut impl ObjectDictionary) -> (r: Result<(), SdoError>)
        requires
            old(self)@.wf(),
            old(self)@.time_fits(now),
        ensures
            final(self)@.wf(),
            spec_traced(
                old(self)@,
                (|reply: OdReply| spec_on_download_segment(old(self)@, data@, reply, now)),
                final(self)@,
                r,
            ),
    {
        let ghost m0 = self@;
        let ghost steps = |reply: OdReply| spec_on_download_segment(m0, data@, reply, now);
        let cmd = data[0];
        let mut st = State::Idle;
        core::mem::swap(&mut st, &mut self.state);
        let (idx, sub, mut buf, expected, toggle) = match st {
            State::Downloading { idx, sub, buf, expected, toggle } => (idx, sub, buf, expected, toggle),
            _ => {
                let r = self.abort(0, 0, SdoAbortCode::InvalidCommandSpecifier);
                assert(steps(no_reply()).post == self@);
                return r;
            },
        };
        if ((cmd & TOGGLE_BIT) != 0) != toggle {
            let r = self.abort(idx, sub, SdoAbortCode::ToggleBitNotAlternated);
            assert(steps(no_reply()).post == self@);
            return r;
        }
        let (payload_len, complete) = wire::decode_segment(cmd);
        if payload_len > N || buf.len() > N - payload_len {
            let r = self.abort(idx, sub, SdoAbortCode::OutOfMemory);
            assert(steps(no_reply()).post == self@);
            return r;
        }
        push_bytes(&mut buf, data, 1, payload_len);
        if complete {
            let final_len = buf.len();
            if let Some(exp) = expected {
                if exp != final_len {
                    let r = self.abort(idx, sub, SdoAbortCode::DataTypeLengthMismatch);
                    assert(steps(no_reply()).post == self@);
                    return r;
                }
            }
            let (written, ev) = od_write(od, idx, sub, buf.as_slice());
            let r = self.answer_segmented_write(idx, sub, toggle, written);
            self.record(ev);
            assert(steps(reply_of(ev@)).post == ServerModel { od_log: m0.od_log, ..self@ });
            r
        } else {
            self.state = State::Downloading { idx, sub, buf, expected, toggle: !toggle };
            // The ack echoes the toggle of the segment just received.
            self.queue_with_deadline(download_segment_ack(toggle), now);
            assert(steps(no_reply()).post == self@);
            Ok(())
        }
    }

    // ----- helpers -----

    /// Add `ev` to the record of the calls made into the dictionary.
    fn record(&mut self, ev: Ghost<OdEvent>)
        ensures
            final(self)@ == (ServerModel { od_log: old(self)@.od_log.push(ev@), ..old(self)@ }),
    {
        self.od_log = Ghost(self.od_log@.push(ev@));
    }

    fn reset(&mut self)
        ensures
            final(self)@ == spec_reset(old(self)@),
    {
        self.state = State::Idle;
        self.deadline = None;
        // An abort or a cancel always supersedes a response not yet sent.
        self.pending_tx = None;
    }

    fn queue(&mut self, bytes: [u8; 8])
        ensures
            final(self)@ == spec_queue(old(self)@, bytes@),
    {
        self.pending_tx = Some(SdoFrame::new(SdoFrame::tsdo_id(self.cfg.node_id), bytes));
        self.deadline = None;
    }

    fn queue_with_deadline(&mut self, bytes: [u8; 8], now: u64)
        requires
            old(self)@.time_fits(now),
        ensures
            final(self)@ == spec_queue_with_deadline(old(self)@, bytes@, now),
    {
        self.pending_tx = Some(SdoFrame::new(SdoFrame::tsdo_id(self.cfg.node_id), bytes));
        self.deadline = if self.cfg.timeout > 0 {
            Some(now + self.cfg.timeout)
        } else {
            None
        };
    }

    fn abort(&mut self, idx: u16, sub: u8, code: SdoAbortCode) -> (r: Result<(), SdoError>)
        ensures
            (final(self)@, r) == spec_server_abort(old(self)@, idx, sub, code),
    {
        self.state = State::Idle;
        self.deadline = None;
        self.pending_tx = Some(SdoFrame::new(SdoFrame::tsdo_id(self.cfg.node_id), wire::abort(idx, sub, code)));
        Err(SdoError::ClientAborted(code))
    }
}

/// Read (`idx`, `sub`) from `od` into `buf`; the second result records the
/// call with its arguments and its answer.
fn od_read(od: &mut impl ObjectDictionary, idx: u16, sub: u8, buf: &mut Vec<u8>) -> (r: (Result<usize, SdoAbortCode>, Ghost<OdEvent>))
    ensures
        r.1@ == (OdEvent::Read { idx, sub, read: r.0, buf: final(buf)@ }),
{
    let read = od.read(idx, sub, buf.as_mut_slice());
    (read, Ghost(OdEvent::Read { idx, sub, read, buf: buf@ }))
}

/// Write `data` to (`idx`, `sub`) in `od`; the second result records the
/// call with its arguments and its answer.
fn od_write(od: &mut impl ObjectDictionary, idx: u16, sub: u8, data: &[u8]) -> (r: (Result<(), SdoAbortCode>, Ghost<OdEvent>))
    ensures
        r.1@ == (OdEvent::Write { idx, sub, data: data@, written: r.0 }),
{
    let written = od.write(idx, sub, data);
    (written, Ghost(OdEvent::Write { idx, sub, data: data@, written }))
}

fn init_download_ack(idx: u16, sub: u8) -> (out: [u8; 8])
    ensures
        out@ == spec_init_download_ack(idx, sub),
{
    let out = wire::header_frame(SCS_INIT_DOWNLOAD, idx, sub, [0u8; 4]);
    assert(out@ =~= spec_init_download_ack(idx, sub));
    out
}

fn download_segment_ack(toggle: bool) -> (out: [u8; 8])
    ensures
        out@ == spec_download_segment_ack(toggle),
{
    let out = [SCS_DOWNLOAD_SEGMENT | if toggle { TOGGLE_BIT } else { 0 }, 0, 0, 0, 0, 0, 0, 0];
    assert(out@ =~= spec_download_segment_ack(toggle));
    out
}


// ===================== laws =====================

/// Frames that are not RSDO frames for this node change nothing, queue
/// nothing, and make no call into the dictionary.
pub proof fn lemma_server_ignores_other_nodes(m: ServerModel, f: FrameView, now: u64, reply: OdReply)
    requires
        spec_node_of_rsdo(f.cob_id) != Some(m.node_id),
    ensures
        spec_server_on_frame(m, f, now, reply) == step(m, Ok(())),
{
}

/// A client abort drops any transfer silently: the server is idle, has
/// nothing queued and no deadline, and makes no call into the dictionary.
pub proof fn lemma_server_client_abort(m: ServerModel, f: FrameView, now: u64, reply: OdReply)
    requires
        spec_node_of_rsdo(f.cob_id) == Some(m.node_id),
        f.data[0] & CS_MASK == CS_ABORT,
    ensures
        spec_server_on_frame(m, f, now, reply) == step(spec_reset(m), Ok(())),
{
}

/// The fixed buffer bounds every transfer: a read whose reported length
/// exceeds the capacity, or a segmented write announcing more than the
/// capacity, is refused with `OutOfMemory` and leaves the server idle; the
/// refused write never reaches the dictionary.
pub proof fn lemma_server_capacity(m: ServerModel, idx: u16, sub: u8, d: Seq<u8>, reply: OdReply, now: u64)
    ensures
        (reply.read matches Ok(len) && len > m.capacity) ==> {
            let st = spec_on_init_upload(m, idx, sub, reply, now);
            &&& st.result == Err::<(), SdoError>(SdoError::ClientAborted(SdoAbortCode::OutOfMemory))
            &&& st.post.is_idle()
        },
        (d[0] & 2 == 0 && d[0] & 1 != 0 && le_u32_at4(d) as usize > m.capacity) ==> {
            let st = spec_on_init_download(m, d, reply, now);
            &&& st.result == Err::<(), SdoError>(SdoError::ClientAborted(SdoAbortCode::OutOfMemory))
            &&& st.post.is_idle()
            &&& st.call is NoCall
        },
{
}

/// A timeout that is not yet due changes nothing; a due one aborts the
/// segmented transfer in progress with `ProtocolTimeout` and leaves the
/// server idle with no deadline.
pub proof fn lemma_server_timeout(m: ServerModel, now: u64)
    requires
        m.wf(),
    ensures
        (m.deadline is None || now < m.deadline->0) ==> spec_server_timeout(m, now) == (m, Ok::<(), SdoError>(())),
        (m.deadline is Some && now >= m.deadline->0) ==> {
            let (m2, r) = spec_server_timeout(m, now);
            &&& r == Err::<(), SdoError>(SdoError::ClientAborted(SdoAbortCode::ProtocolTimeout))
            &&& m2.is_idle()
            &&& m2.deadline is None
            &&& m2.pending_tx is Some
        },
{
}


/// Whenever the server fails a request it has aborted: the result is
/// `ClientAborted(code)`, the server is idle with no deadline, and an abort
/// frame carrying that code is queued on its TSDO COB-ID.
pub proof fn lemma_server_error_queues_abort(m: ServerModel, f: FrameView, now: u64, reply: OdReply)
    ensures
        ({
            let st = spec_server_on_frame(m, f, now, reply);
            st.result matches Err(e) ==> {
                &&& e matches SdoError::ClientAborted(code) && st.post.pending_tx matches Some(out) && {
                    &&& out.cob_id == spec_tsdo_id(m.node_id)
                    &&& out.data.len() == 8
                    &&& out.data[0] & CS_MASK == CS_ABORT
                    &&& le_u32_at4(out.data) == crate::abort::spec_abort_raw(code)
                }
                &&& st.post.is_idle()
                &&& st.post.deadline is None
            }
        }),
{
    assert forall|idx: u16, sub: u8, code: SdoAbortCode|
        {
            let d = #[trigger] spec_abort_frame(idx, sub, code);
            &&& d.len() == 8
            &&& d[0] & CS_MASK == CS_ABORT
            &&& le_u32_at4(d) == crate::abort::spec_abort_raw(code)
        } by {
        crate::wire::lemma_abort_frame_fields(idx, sub, code);
    }
}


/// What the server asks of its dictionary depends only on its state and the
/// frame, not on what the dictionary answers.
pub proof fn lemma_od_call_fixed(m: ServerModel, f: FrameView, now: u64, r1: OdReply, r2: OdReply)
    ensures
        spec_server_on_frame(m, f, now, r1).call == spec_server_on_frame(m, f, now, r2).call,
{
}

/// Whether `reply` carries the answer recorded in `ev`.
pub open spec fn agrees(ev: OdEvent, reply: OdReply) -> bool {
    match ev {
        OdEvent::Read { read, buf, .. } => reply.read == read && reply.buf == buf,
        OdEvent::Write { written, .. } => reply.write == written,
    }
}

/// What `handle_frame` promises, read as one model step: the new state and
/// the result are those of [`spec_server_on_frame`] for any dictionary reply
/// that carries the answer the dictionary gave; a step that makes no call
/// leaves the record of calls alone, and one that makes a call records
/// exactly that call, once.
pub proof fn lemma_traced_step(pre: ServerModel, f: FrameView, now: u64, post: ServerModel, r: Result<(), SdoError>, reply: OdReply)
    requires
        spec_traced(pre, (|x: OdReply| spec_server_on_frame(pre, f, now, x)), post, r),
        post.od_log != pre.od_log ==> agrees(post.od_log.last(), reply),
    ensures
        ({
            let st = spec_server_on_frame(pre, f, now, reply);
            &&& post == (ServerModel { od_log: post.od_log, ..st.post })
            &&& r == st.result
            &&& st.call is NoCall ==> post.od_log == pre.od_log
            &&& !(st.call is NoCall) ==> {
                &&& post.od_log == pre.od_log.push(post.od_log.last())
                &&& answers(st.call, post.od_log.last())
            }
        }),
{
    lemma_od_call_fixed(pre, f, now, reply, no_reply());
    if !(spec_server_on_frame(pre, f, now, no_reply()).call is NoCall) {
        assert(post.od_log.len() == pre.od_log.len() + 1);
        lemma_od_call_fixed(pre, f, now, reply, reply_of(post.od_log.last()));
    }
}

/// A zero timeout never arms a deadline: in every state the server can be
/// in, `poll_timeout` reports none.
pub proof fn lemma_server_zero_timeout(m: ServerModel)
    requires
        m.wf(),
        m.timeout == 0,
    ensures
        m.deadline is None,
{
}

/// A download segment makes one call into the dictionary, a write of the
/// whole value, exactly when it is the final segment, its toggle is the
/// expected one, the value fits the capacity and matches the announced
/// size; the value written is the bytes received before it followed by its
/// own payload. Every other segment makes no call.
pub proof fn lemma_download_segment_write(m: ServerModel, d: Seq<u8>, reply: OdReply, now: u64)
    requires
        m.transfer is Downloading,
        d.len() == 8,
    ensures
        ({
            let st = spec_on_download_segment(m, d, reply, now);
            let cmd = d[0];
            match m.transfer {
                ServerTransfer::Downloading { idx, sub, received, expected, toggle } => {
                    let all = received + d.subrange(1, 1 + spec_segment_len(cmd));
                    let writes = spec_toggle(cmd) == toggle && all.len() <= m.capacity
                        && spec_segment_last(cmd) && (expected is None || expected->0
                        == all.len());
                    &&& writes ==> st.call == (OdCall::Write { idx, sub, data: all })
                    &&& !writes ==> st.call is NoCall
                },
                _ => false,
            }
        }),
{
    let cmd = d[0];
    assert(0 <= (cmd >> 1) & 7 <= 7) by (bit_vector);
}

/// A segmented initiate-download that does not indicate the size (bit 1 `e`
/// and bit 0 `s` clear) makes no call into the dictionary and leaves the
/// server receiving into an empty buffer with no expected length and toggle
/// 0; it acknowledges with the initiate-download response (0x60) echoing the
/// index and sub-index, bytes 4..8 zero.
pub proof fn lemma_download_unsized_init(m: ServerModel, f: FrameView, now: u64, reply: OdReply)
    requires
        spec_node_of_rsdo(f.cob_id) == Some(m.node_id),
        f.data.len() == 8,
        f.data[0] & 0xE3 == 0x20,
    ensures
        ({
            let st = spec_server_on_frame(m, f, now, reply);
            &&& st.call is NoCall
            &&& st.result == Ok::<(), SdoError>(())
            &&& st.post.transfer == (ServerTransfer::Downloading {
                idx: spec_index_of(f.data),
                sub: f.data[3],
                received: Seq::empty(),
                expected: None,
                toggle: false,
            })
            &&& st.post.pending_tx matches Some(out) && {
                &&& out.cob_id == spec_tsdo_id(m.node_id)
                &&& out.data.len() == 8
                &&& out.data[0] == 0x60
                &&& spec_index_of(out.data) == spec_index_of(f.data)
                &&& out.data[3] == f.data[3]
                &&& out.data.subrange(4, 8) == seq![0u8, 0u8, 0u8, 0u8]
            }
        }),
{
    let c = f.data[0];
    assert(c & 0xE0 == 0x20 && c & 2 == 0 && c & 1 == 0) by (bit_vector)
        requires
            c & 0xE3 == 0x20,
    ;
    let ack = spec_init_download_ack(spec_index_of(f.data), f.data[3]);
    crate::wire::lemma_header_fields(SCS_INIT_DOWNLOAD, spec_index_of(f.data), f.data[3], zeros(4));
    assert(ack.subrange(4, 8) =~= seq![0u8, 0u8, 0u8, 0u8]);
}

/// The final segment of a download announced without a size (bit 0 `c`
/// set, command specifier 0, the expected toggle) writes to the dictionary,
/// once, exactly the bytes received before it followed by its own `7 - n`
/// payload bytes (`n` in bits 1..4), whatever their count up to the
/// capacity; once the dictionary accepts, the segment is acknowledged (0x20,
/// echoing its toggle, the rest zero) and the server is idle.
pub proof fn lemma_download_unsized_final(m: ServerModel, f: FrameView, now: u64, reply: OdReply)
    requires
        spec_node_of_rsdo(f.cob_id) == Some(m.node_id),
        f.data.len() == 8,
        f.data[0] & 0xE0 == 0x00,
        f.data[0] & 1 == 1,
        m.transfer matches ServerTransfer::Downloading { received, expected, toggle, .. }
            && expected is None && (f.data[0] & 0x10 == 0x10) == toggle
            && received.len() + 7 - ((f.data[0] >> 1) & 7) <= m.capacity,
        reply.write == Ok::<(), SdoAbortCode>(()),
    ensures
        ({
            let st = spec_server_on_frame(m, f, now, reply);
            let payload = f.data.subrange(1, 8 - ((f.data[0] >> 1) & 7));
            &&& m.transfer matches ServerTransfer::Downloading { idx, sub, received, toggle, .. }
                && st.call == (OdCall::Write { idx, sub, data: received + payload })
                && st.post.pending_tx == Some(
                FrameView {
                    cob_id: spec_tsdo_id(m.node_id),
                    data: seq![if toggle { 0x30u8 } else { 0x20u8 }, 0u8, 0u8, 0u8, 0u8, 0u8, 0u8, 0u8],
                },
            )
            &&& st.result == Ok::<(), SdoError>(())
            &&& st.post.is_idle()
            &&& st.post.deadline is None
        }),
{
    let c = f.data[0];
    crate::wire::lemma_segment_len_field(c);
    assert(c & 0xE0 != 0x80 && c & 0xE0 != 0x40 && c & 0xE0 != 0x60 && c & 0xE0 != 0x20) by (bit_vector)
        requires
            c & 0xE0 == 0x00,
    ;
    assert(SCS_DOWNLOAD_SEGMENT | TOGGLE_BIT == 0x30u8) by (bit_vector);
    assert(SCS_DOWNLOAD_SEGMENT | 0u8 == 0x20u8) by (bit_vector);
    match m.transfer {
        ServerTransfer::Downloading { toggle, .. } => {
            assert(spec_download_segment_ack(toggle) =~= seq![if toggle { 0x30u8 } else { 0x20u8 }, 0u8, 0u8, 0u8, 0u8, 0u8, 0u8, 0u8]);
        },
        _ => {},
    }
}

/// While a segmented transfer is in progress with a nonzero timeout, its
/// deadline is the `now` of the last frame the server answered plus the
/// timeout: every frame addressed to this node either leaves the server
/// idle with no deadline, or keeps a transfer going with the deadline at
/// `now` plus the timeout.
pub proof fn lemma_server_deadline(m: ServerModel, f: FrameView, now: u64, reply: OdReply)
    requires
        m.wf(),
        spec_node_of_rsdo(f.cob_id) == Some(m.node_id),
    ensures
        ({
            let st = spec_server_on_frame(m, f, now, reply);
            &&& st.post.is_idle() ==> st.post.deadline is None
            &&& (!st.post.is_idle() && m.timeout > 0) ==> st.post.deadline == Some(
                (now + m.timeout) as u64,
            )
        }),
{
}

/// How the server answers a read the dictionary served, byte by byte (CiA
/// 301), on COB-ID `0x580 + node`: a value of 1 to 4 bytes goes expedited
/// (`0x40` with `e` and `s` set, `n = 4 - len`, the index and sub-index, the
/// value in bytes 4..) and the server is idle; any other length (up to the
/// capacity and the buffer) is announced segmented (`0x41`, the size
/// little-endian in bytes 4..8) and the server serves the value from its
/// start with toggle 0.
pub proof fn lemma_read_answer_bytes(m: ServerModel, idx: u16, sub: u8, len: usize, buf: Seq<u8>, now: u64)
    requires
        m.node_id <= 127,
        len <= m.capacity,
        len <= buf.len(),
        len <= u32::MAX,
    ensures
        ({
            let (post, r) = spec_after_read(m, idx, sub, Ok(len), buf, now);
            let value = buf.subrange(0, len as int);
            &&& r == Ok::<(), SdoError>(())
            &&& post.pending_tx matches Some(f) && {
                let d = f.data;
                &&& f.cob_id == 0x580 + m.node_id
                &&& d.len() == 8
                &&& d[0] & 0xE0 == 0x40
                &&& d[1] as int == idx as int % 256
                &&& d[2] as int == idx as int / 256
                &&& d[3] == sub
                &&& (1 <= len <= 4) ==> {
                    &&& d[0] & 3 == 3
                    &&& (d[0] >> 2) & 3 == 4 - len
                    &&& d.subrange(4, 4 + len as int) == value
                }
                &&& !(1 <= len <= 4) ==> {
                    &&& d[0] & 3 == 1
                    &&& le_u32_at4(d) == len
                }
            }
            &&& (1 <= len <= 4) ==> post.is_idle()
            &&& !(1 <= len <= 4) ==> post.transfer == (ServerTransfer::Uploading {
                idx,
                sub,
                value,
                sent: 0,
                toggle: false,
            })
        }),
{
    crate::frame::lemma_cob_id_values(m.node_id, 0);
    crate::wire::lemma_cs_constants();
    crate::wire::lemma_frame_bytes(SCS_INIT_UPLOAD, idx, sub, buf.subrange(0, len as int), len as u32, 0);
}

/// The upload segments the server sends (CiA 301): on an upload-segment
/// request with the expected toggle, it sends the next `min(7, remaining)`
/// bytes of the value from where it stopped, in a frame whose command byte
/// has specifier 0, the request's toggle in bit 4, `n = 7 - count` in bits
/// 1..4 and the final flag exactly when nothing remains after it; after a
/// final segment the server is idle, otherwise it waits with the toggle
/// flipped.
pub proof fn lemma_upload_segment_bytes(m: ServerModel, cmd: u8, now: u64)
    requires
        m.wf(),
        m.node_id <= 127,
        m.transfer matches ServerTransfer::Uploading { toggle, .. } && (cmd & 0x10 == 0x10) == toggle,
    ensures
        ({
            let st = spec_on_upload_segment(m, cmd, now);
            &&& st.result == Ok::<(), SdoError>(())
            &&& st.call is NoCall
            &&& m.transfer matches ServerTransfer::Uploading { idx, sub, value, sent, toggle } && {
                let rem = value.len() - sent;
                let count = if rem < 7 { rem } else { 7 };
                let last = rem <= 7;
                &&& st.post.pending_tx matches Some(f) && {
                    let d = f.data;
                    &&& f.cob_id == 0x580 + m.node_id
                    &&& d.len() == 8
                    &&& d[0] & 0xE0 == 0x00
                    &&& (d[0] & 0x10 == 0x10) == toggle
                    &&& (d[0] >> 1) & 7 == 7 - count
                    &&& (d[0] & 1 == 1) == last
                    &&& d.subrange(1, 1 + count) == value.subrange(sent as int, sent + count)
                }
                &&& last ==> st.post.is_idle()
                &&& !last ==> st.post.transfer == (ServerTransfer::Uploading {
                    idx,
                    sub,
                    value,
                    sent: (sent + count) as nat,
                    toggle: !toggle,
                })
            }
        }),
{
    crate::frame::lemma_cob_id_values(m.node_id, 0);
    crate::wire::lemma_cs_constants();
    crate::wire::lemma_segment_len_field(cmd);
    match m.transfer {
        ServerTransfer::Uploading { idx, sub, value, sent, toggle } => {
            let rem = value.len() - sent;
            let count: int = if rem < 7 { rem } else { 7 };
            let last = rem <= 7;
            crate::wire::lemma_segment_cmd_fields(SCS_UPLOAD_SEGMENT, toggle, count, last);
            let c = spec_segment_cmd(SCS_UPLOAD_SEGMENT, toggle, count, last);
            crate::wire::lemma_frame_bytes(SCS_UPLOAD_SEGMENT, idx, sub, value.subrange(sent as int, sent + count), 0, c);
        },
        _ => {},
    }
}

/// The server acknowledges every download segment it accepts with `0x20`,
/// the toggle of that segment in bit 4 and seven zero bytes, on COB-ID
/// `0x580 + node`.
pub proof fn lemma_download_ack_bytes(node: u8, toggle: bool)
    requires
        node <= 127,
    ensures
        spec_download_segment_ack(toggle) == seq![
            if toggle { 0x30u8 } else { 0x20u8 },
            0u8,
            0u8,
            0u8,
            0u8,
            0u8,
            0u8,
            0u8,
        ],
        spec_tsdo_id(node) == 0x580 + node,
{
    crate::frame::lemma_cob_id_values(node, 0);
    assert(SCS_DOWNLOAD_SEGMENT | TOGGLE_BIT == 0x30u8) by (bit_vector);
    assert(SCS_DOWNLOAD_SEGMENT | 0u8 == 0x20u8) by (bit_vector);
    assert(spec_download_segment_ack(toggle) =~= seq![
        if toggle { 0x30u8 } else { 0x20u8 },
        0u8,
        0u8,
        0u8,
        0u8,
        0u8,
        0u8,
        0u8,
    ]);
}

} // verus!
