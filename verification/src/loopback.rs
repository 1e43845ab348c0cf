//! The client and the server agree on the wire protocol. These laws are
//! proved of the two models: run against each other, with frames passed back
//! and forth and no I/O, an upload delivers exactly the value the server's
//! dictionary holds, a download hands the dictionary exactly the bytes the
//! client sent, and a refusal by the dictionary reaches the client as that
//! abort code. They carry over to `SdoClient` and `SdoServer` because each
//! of their calls is proved to be one model step: the client's exactly, the
//! server's with the answer its dictionary gave, which the server records
//! with the call (`lemma_traced_step`).

use vstd::prelude::*;

use crate::abort::{is_canonical, lemma_from_raw_of_raw, SdoAbortCode};
use crate::client::enc::{spec_download_segment, spec_init_upload, spec_upload_segment_request};
use crate::client::{
    spec_begin_download, spec_begin_upload, spec_client_on_frame, spec_take_pending,
    valid_node_id, ClientModel, ClientResult, ClientTransfer, DownloadPhase, OutcomeView,
    UploadPhase,
};
use crate::error::SdoError;
use crate::frame::{lemma_cob_id_roundtrip, spec_rsdo_id, spec_tsdo_id, FrameView};
use crate::server::{
    spec_download_segment_ack, spec_init_download_ack, spec_server_on_frame, OdCall, OdReply,
    ServerModel, ServerTransfer,
};
use crate::wire::{
    le_u32_at4, le_u32_bytes, lemma_abort_frame_fields, lemma_cs_constants, lemma_expedited_cmd,
    lemma_header_fields, lemma_le_u32_roundtrip, lemma_segment_cmd_roundtrip, lemma_segmented_cmd, lemma_toggled_cmd,
    spec_abort_frame, spec_expedited_init_frame, spec_header, spec_segment_cmd,
    spec_segment_frame, spec_segmented_init_frame, zeros, CCS_DOWNLOAD_SEGMENT,
    CCS_INIT_DOWNLOAD, CCS_INIT_UPLOAD, CCS_UPLOAD_SEGMENT, CS_MASK,
    SCS_DOWNLOAD_SEGMENT, SCS_INIT_DOWNLOAD, SCS_INIT_UPLOAD, SCS_UPLOAD_SEGMENT, TOGGLE_BIT,
};

verus! {

/// Where an exchange between a client and a server stopped.
pub struct Exchange {
    pub client: ClientModel,
    pub server: ServerModel,
    /// What the client reported when it stopped the exchange, if it did.
    pub outcome: Option<ClientResult>,
    /// The data of the last write the server made into its dictionary.
    pub written: Option<Seq<u8>>,
}

/// Run a client and a server against each other for at most `fuel` frames,
/// the dictionary answering with `reply`: the client's queued frame goes to
/// the server first, else the server's queued frame goes to the client, until
/// the client completes or fails, or no frame is queued.
pub open spec fn spec_exchange(
    c: ClientModel,
    s: ServerModel,
    reply: OdReply,
    now: u64,
    fuel: nat,
    written: Option<Seq<u8>>,
) -> Exchange
    decreases fuel,
{
    if fuel == 0 {
        Exchange { client: c, server: s, outcome: None, written }
    } else {
        match c.pending_tx {
            Some(f) => {
                let st = spec_server_on_frame(s, f, now, reply);
                let w = match st.call {
                    OdCall::Write { data, .. } => Some(data),
                    _ => written,
                };
                spec_exchange(spec_take_pending(c), st.post, reply, now, (fuel - 1) as nat, w)
            },
            None => match s.pending_tx {
                Some(f) => {
                    let s1 = ServerModel { pending_tx: None, ..s };
                    let (c1, r) = spec_client_on_frame(c, f, now);
                    match r {
                        Ok(None) => spec_exchange(c1, s1, reply, now, (fuel - 1) as nat, written),
                        _ => Exchange { client: c1, server: s1, outcome: Some(r), written },
                    }
                },
                None => Exchange { client: c, server: s, outcome: None, written },
            },
        }
    }
}

/// Enough frames for a transfer of `len` bytes.
pub open spec fn exchange_fuel(len: nat) -> nat {
    2 * (len / 7) + 4
}

/// The dictionary answer of a read of `v`: the length, with `v` at the head
/// of the buffer.
pub open spec fn reads_as(reply: OdReply, v: Seq<u8>) -> bool {
    &&& reply.read == Ok::<usize, SdoAbortCode>(v.len() as usize)
    &&& v.len() <= reply.buf.len()
    &&& reply.buf.subrange(0, v.len() as int) == v
}

/// A server ready for a new transfer, answering for `node`.
pub open spec fn ready_server(s: ServerModel, node: u8) -> bool {
    &&& s.node_id == node
    &&& s.transfer is Idle
}

// ---------------- upload ----------------

/// The frame of a segment request from the client to `node`.
pub open spec fn segreq_frame(node: u8, t: bool) -> FrameView {
    FrameView { cob_id: spec_rsdo_id(node), data: spec_upload_segment_request(t) }
}

/// The segmented upload of `v` with `k` bytes delivered, the next segment
/// request (toggle `t`) queued at the client.
pub open spec fn upload_loop(c: ClientModel, s: ServerModel, node: u8, idx: u16, sub: u8, v: Seq<u8>, k: nat, t: bool) -> bool {
    &&& valid_node_id(node)
    &&& c.transfer == (ClientTransfer::Uploading {
        node_id: node,
        idx,
        sub,
        received: v.subrange(0, k as int),
        expected_len: Some(v.len() as u32),
        next_toggle: t,
        upload_phase: UploadPhase::AwaitingSegment,
    })
    &&& c.pending_tx == Some(segreq_frame(node, t))
    &&& s.node_id == node
    &&& s.transfer == (ServerTransfer::Uploading { idx, sub, value: v, sent: k, toggle: t })
    &&& k <= v.len()
    &&& (k < v.len() || v.len() == 0)
    &&& v.len() <= u32::MAX
}

proof fn lemma_upload_loop(
    c: ClientModel,
    s: ServerModel,
    reply: OdReply,
    now: u64,
    fuel: nat,
    written: Option<Seq<u8>>,
    node: u8,
    idx: u16,
    sub: u8,
    v: Seq<u8>,
    k: nat,
    t: bool,
)
    requires
        upload_loop(c, s, node, idx, sub, v, k, t),
        fuel >= 2 * ((v.len() - k) as nat / 7) + 2,
    ensures
        ({
            let x = spec_exchange(c, s, reply, now, fuel, written);
            &&& x.outcome == Some(Ok::<Option<OutcomeView>, SdoError>(Some(OutcomeView::UploadCompleted(v))))
            &&& x.client.transfer is Idle
            &&& x.server.transfer is Idle
        }),
    decreases v.len() - k,
{
    lemma_cob_id_roundtrip(node);
    lemma_cs_constants();
    lemma_toggled_cmd(CCS_UPLOAD_SEGMENT, t);
    let f1 = segreq_frame(node, t);
    assert(f1.data[0] == CCS_UPLOAD_SEGMENT | (if t { TOGGLE_BIT } else { 0u8 }));
    let rem = (v.len() - k) as nat;
    let chunk: nat = if rem < 7 { rem } else { 7 };
    let last = rem <= 7;
    lemma_segment_cmd_roundtrip(SCS_UPLOAD_SEGMENT, t, chunk as int, last);
    let cmd = spec_segment_cmd(SCS_UPLOAD_SEGMENT, t, chunk as int, last);
    let payload = v.subrange(k as int, (k + chunk) as int);
    let out = spec_segment_frame(cmd, payload);
    let st = spec_server_on_frame(s, f1, now, reply);
    assert(st.call == OdCall::NoCall);
    let c1 = spec_take_pending(c);
    assert(spec_exchange(c, s, reply, now, fuel, written) == spec_exchange(
        c1,
        st.post,
        reply,
        now,
        (fuel - 1) as nat,
        written,
    ));
    let of = FrameView { cob_id: spec_tsdo_id(node), data: out };
    assert(st.post.pending_tx == Some(of));
    assert(out[0] == cmd);
    assert(out.subrange(1, (1 + chunk) as int) =~= payload);
    assert(v.subrange(0, k as int) + payload =~= v.subrange(0, (k + chunk) as int));
    let s2 = ServerModel { pending_tx: None, ..st.post };
    let (c2, r) = spec_client_on_frame(c1, of, now);
    assert(spec_exchange(c1, st.post, reply, now, (fuel - 1) as nat, written) == (match r {
        Ok(None) => spec_exchange(c2, s2, reply, now, (fuel - 2) as nat, written),
        _ => Exchange { client: c2, server: s2, outcome: Some(r), written },
    }));
    if last {
        assert(v.subrange(0, (k + chunk) as int) =~= v);
        assert(r == Ok::<Option<OutcomeView>, SdoError>(Some(OutcomeView::UploadCompleted(v))));
    } else {
        let c3 = spec_take_pending(c2);
        assert(upload_loop(c2, s2, node, idx, sub, v, k + chunk, !t));
        lemma_upload_loop(c2, s2, reply, now, (fuel - 2) as nat, written, node, idx, sub, v, k + chunk, !t);
    }
}


/// An upload run against a server delivers exactly the value its dictionary
/// holds: for any value that fits the server's capacity, starting from an
/// idle client and a server for that node, the client completes with that
/// value and both end idle.
pub proof fn lemma_loopback_upload(
    c0: ClientModel,
    s0: ServerModel,
    node: u8,
    idx: u16,
    sub: u8,
    v: Seq<u8>,
    reply: OdReply,
    now: u64,
)
    requires
        c0.transfer is Idle,
        ready_server(s0, node),
        valid_node_id(node),
        reads_as(reply, v),
        v.len() <= s0.capacity,
        v.len() <= u32::MAX,
    ensures
        ({
            let (c1, r) = spec_begin_upload(c0, node, idx, sub, now);
            let x = spec_exchange(c1, s0, reply, now, exchange_fuel(v.len()), None);
            &&& r is Ok
            &&& x.outcome == Some(Ok::<Option<OutcomeView>, SdoError>(Some(OutcomeView::UploadCompleted(v))))
            &&& x.client.transfer is Idle
            &&& x.server.transfer is Idle
        }),
{
    lemma_cob_id_roundtrip(node);
    lemma_cs_constants();
    let (c1, r) = spec_begin_upload(c0, node, idx, sub, now);
    let fuel = exchange_fuel(v.len());
    let f0 = FrameView { cob_id: spec_rsdo_id(node), data: spec_init_upload(idx, sub) };
    assert(c1.pending_tx == Some(f0));
    lemma_header_fields(CCS_INIT_UPLOAD, idx, sub, zeros(4));
    let len = v.len();
    let st = spec_server_on_frame(s0, f0, now, reply);
    assert(CCS_INIT_UPLOAD & CS_MASK == CCS_INIT_UPLOAD) by (bit_vector);
    assert(f0.data[0] & CS_MASK == CCS_INIT_UPLOAD);
    assert(st == crate::server::spec_on_init_upload(s0, idx, sub, reply, now));
    assert(st.call == (OdCall::Read { idx, sub }));
    assert(reply.buf.subrange(0, len as int) == v);
    let c2 = spec_take_pending(c1);
    assert(spec_exchange(c1, s0, reply, now, fuel, None) == spec_exchange(
        c2,
        st.post,
        reply,
        now,
        (fuel - 1) as nat,
        None,
    ));
    let s3 = ServerModel { pending_tx: None, ..st.post };
    if 1 <= len <= 4 {
        let out = spec_expedited_init_frame(SCS_INIT_UPLOAD, idx, sub, v);
        let of = FrameView { cob_id: spec_tsdo_id(node), data: out };
        assert(st.post.pending_tx == Some(of));
        lemma_expedited_cmd(SCS_INIT_UPLOAD, len as int);
        lemma_header_fields(
            crate::wire::spec_expedited_cmd(SCS_INIT_UPLOAD, len as int),
            idx,
            sub,
            v + zeros(4 - len),
        );
        assert(out =~= spec_header(crate::wire::spec_expedited_cmd(SCS_INIT_UPLOAD, len as int), idx, sub) + (v + zeros(4 - len)));
        assert(out.subrange(4, (4 + len) as int) =~= v);
        let (c3, r3) = spec_client_on_frame(c2, of, now);
        assert(r3 == Ok::<Option<OutcomeView>, SdoError>(Some(OutcomeView::UploadCompleted(v))));
        assert(spec_exchange(c2, st.post, reply, now, (fuel - 1) as nat, None) == Exchange {
            client: c3,
            server: s3,
            outcome: Some(r3),
            written: None,
        });
    } else {
        let out = spec_segmented_init_frame(SCS_INIT_UPLOAD, idx, sub, len as u32);
        let of = FrameView { cob_id: spec_tsdo_id(node), data: out };
        assert(st.post.pending_tx == Some(of));
        lemma_segmented_cmd(SCS_INIT_UPLOAD);
        lemma_header_fields(SCS_INIT_UPLOAD | 1u8, idx, sub, le_u32_bytes(len as u32));
        lemma_le_u32_roundtrip(len as u32);
        assert(le_u32_at4(out) == len as u32);
        let (c3, r3) = spec_client_on_frame(c2, of, now);
        assert(r3 == Ok::<Option<OutcomeView>, SdoError>(None));
        assert(spec_exchange(c2, st.post, reply, now, (fuel - 1) as nat, None) == spec_exchange(
            c3,
            s3,
            reply,
            now,
            (fuel - 2) as nat,
            None,
        ));
        assert(v.subrange(0, 0) =~= Seq::<u8>::empty());
        assert(upload_loop(c3, s3, node, idx, sub, v, 0, false));
        lemma_upload_loop(c3, s3, reply, now, (fuel - 2) as nat, None, node, idx, sub, v, 0, false);
    }
}


// ---------------- download ----------------

/// What the client reports at the end of a download whose final write the
/// dictionary answered with `w`: completion, or the dictionary's abort code.
pub open spec fn download_outcome(w: Result<(), SdoAbortCode>) -> ClientResult {
    match w {
        Ok(()) => Ok(Some(OutcomeView::DownloadCompleted)),
        Err(code) => Err(SdoError::ServerAborted(code)),
    }
}

/// Bytes of the segment of `v` that starts at `j`.
pub open spec fn chunk_at(v: Seq<u8>, j: nat) -> nat {
    if v.len() - j < 7 {
        (v.len() - j) as nat
    } else {
        7
    }
}

/// The segmented download of `v`: the server holds the first `j` bytes, the
/// client has queued the segment starting at `j` with toggle `t`.
pub open spec fn download_loop(c: ClientModel, s: ServerModel, node: u8, idx: u16, sub: u8, v: Seq<u8>, j: nat, t: bool) -> bool {
    let chunk = chunk_at(v, j);
    let last = v.len() - j <= 7;
    &&& valid_node_id(node)
    &&& j < v.len()
    &&& c.transfer == (ClientTransfer::Downloading {
        node_id: node,
        idx,
        sub,
        data: v,
        sent_pos: j + chunk,
        next_toggle: !t,
        download_phase: DownloadPhase::AwaitingSegmentAck { last },
    })
    &&& c.pending_tx == Some(
        FrameView {
            cob_id: spec_rsdo_id(node),
            data: spec_download_segment(t, v.subrange(j as int, (j + chunk) as int), last),
        },
    )
    &&& s.node_id == node
    &&& s.transfer == (ServerTransfer::Downloading {
        idx,
        sub,
        received: v.subrange(0, j as int),
        expected: Some(v.len() as usize),
        toggle: t,
    })
    &&& v.len() <= s.capacity
    &&& v.len() <= u32::MAX
}

#[verifier::rlimit(40)]
proof fn lemma_download_loop(
    c: ClientModel,
    s: ServerModel,
    reply: OdReply,
    now: u64,
    fuel: nat,
    written: Option<Seq<u8>>,
    node: u8,
    idx: u16,
    sub: u8,
    v: Seq<u8>,
    j: nat,
    t: bool,
)
    requires
        download_loop(c, s, node, idx, sub, v, j, t),
        fuel >= 2 * ((v.len() - j) as nat / 7) + 2,
        reply.write matches Err(code) ==> is_canonical(code),
    ensures
        ({
            let x = spec_exchange(c, s, reply, now, fuel, written);
            &&& x.outcome == Some(download_outcome(reply.write))
            &&& x.client.transfer is Idle
            &&& x.server.transfer is Idle
            &&& x.written == Some(v)
        }),
    decreases v.len() - j,
{
    lemma_cob_id_roundtrip(node);
    lemma_cs_constants();
    let chunk = chunk_at(v, j);
    let last = v.len() - j <= 7;
    let payload = v.subrange(j as int, (j + chunk) as int);
    lemma_segment_cmd_roundtrip(CCS_DOWNLOAD_SEGMENT, t, chunk as int, last);
    let cmd = spec_segment_cmd(CCS_DOWNLOAD_SEGMENT, t, chunk as int, last);
    let d = spec_segment_frame(cmd, payload);
    let f1 = FrameView { cob_id: spec_rsdo_id(node), data: d };
    assert(d[0] == cmd);
    assert(d.subrange(1, (1 + chunk) as int) =~= payload);
    assert(v.subrange(0, j as int) + payload =~= v.subrange(0, (j + chunk) as int));
    let st = spec_server_on_frame(s, f1, now, reply);
    assert(st == crate::server::spec_on_download_segment(s, d, reply, now));
    lemma_toggled_cmd(SCS_DOWNLOAD_SEGMENT, t);
    let ack = spec_download_segment_ack(t);
    assert(ack[0] == SCS_DOWNLOAD_SEGMENT | (if t { TOGGLE_BIT } else { 0u8 }));
    let of = FrameView { cob_id: spec_tsdo_id(node), data: ack };
    let c1 = spec_take_pending(c);
    let s2 = ServerModel { pending_tx: None, ..st.post };
    if last {
        assert(v.subrange(0, (j + chunk) as int) =~= v);
        assert(st.call == (OdCall::Write { idx, sub, data: v }));
        assert(spec_exchange(c, s, reply, now, fuel, written) == spec_exchange(
            c1,
            st.post,
            reply,
            now,
            (fuel - 1) as nat,
            Some(v),
        ));
        match reply.write {
            Ok(()) => {
                assert(st.post.pending_tx == Some(of));
                let (c2, r) = spec_client_on_frame(c1, of, now);
                assert(r == download_outcome(reply.write));
                assert(spec_exchange(c1, st.post, reply, now, (fuel - 1) as nat, Some(v)) == Exchange {
                    client: c2,
                    server: s2,
                    outcome: Some(r),
                    written: Some(v),
                });
            },
            Err(code) => {
                let af = FrameView { cob_id: spec_tsdo_id(node), data: spec_abort_frame(idx, sub, code) };
                assert(st.post.pending_tx == Some(af));
                lemma_abort_frame_fields(idx, sub, code);
                lemma_from_raw_of_raw(code);
                let (c2, r) = spec_client_on_frame(c1, af, now);
                assert(r == download_outcome(reply.write));
                assert(spec_exchange(c1, st.post, reply, now, (fuel - 1) as nat, Some(v)) == Exchange {
                    client: c2,
                    server: s2,
                    outcome: Some(r),
                    written: Some(v),
                });
            },
        }
    } else {
        assert(st.call == OdCall::NoCall);
        assert(st.post.pending_tx == Some(of));
        assert(spec_exchange(c, s, reply, now, fuel, written) == spec_exchange(
            c1,
            st.post,
            reply,
            now,
            (fuel - 1) as nat,
            written,
        ));
        let (c2, r) = spec_client_on_frame(c1, of, now);
        assert(r == Ok::<Option<OutcomeView>, SdoError>(None));
        assert(spec_exchange(c1, st.post, reply, now, (fuel - 1) as nat, written) == spec_exchange(
            c2,
            s2,
            reply,
            now,
            (fuel - 2) as nat,
            written,
        ));
        assert(download_loop(c2, s2, node, idx, sub, v, j + chunk, !t));
        lemma_download_loop(c2, s2, reply, now, (fuel - 2) as nat, written, node, idx, sub, v, j + chunk, !t);
    }
}


/// A download run against a server hands the server's dictionary exactly
/// the bytes the client sent: for any non-empty value that fits the server's
/// capacity, starting from an idle client and a server for that node, the
/// server writes that value and the client completes, or, if the dictionary
/// refuses the write, the client fails with the dictionary's abort code;
/// both end idle.
pub proof fn lemma_loopback_download(
    c0: ClientModel,
    s0: ServerModel,
    node: u8,
    idx: u16,
    sub: u8,
    v: Seq<u8>,
    reply: OdReply,
    now: u64,
)
    requires
        c0.transfer is Idle,
        ready_server(s0, node),
        valid_node_id(node),
        1 <= v.len() <= s0.capacity,
        v.len() <= u32::MAX,
        reply.write matches Err(code) ==> is_canonical(code),
    ensures
        ({
            let (c1, r) = spec_begin_download(c0, node, idx, sub, v, now);
            let x = spec_exchange(c1, s0, reply, now, exchange_fuel(v.len()), None);
            &&& r is Ok
            &&& x.outcome == Some(download_outcome(reply.write))
            &&& x.written == Some(v)
            &&& x.client.transfer is Idle
            &&& x.server.transfer is Idle
        }),
{
    if v.len() <= 4 {
        lemma_download_expedited(c0, s0, node, idx, sub, v, reply, now);
    } else {
        lemma_download_segmented(c0, s0, node, idx, sub, v, reply, now);
    }
}

proof fn lemma_download_expedited(
    c0: ClientModel,
    s0: ServerModel,
    node: u8,
    idx: u16,
    sub: u8,
    v: Seq<u8>,
    reply: OdReply,
    now: u64,
)
    requires
        c0.transfer is Idle,
        ready_server(s0, node),
        valid_node_id(node),
        1 <= v.len() <= s0.capacity,
        v.len() <= u32::MAX,
        reply.write matches Err(code) ==> is_canonical(code),
        v.len() <= 4,
    ensures
        ({
            let (c1, r) = spec_begin_download(c0, node, idx, sub, v, now);
            let x = spec_exchange(c1, s0, reply, now, exchange_fuel(v.len()), None);
            &&& r is Ok
            &&& x.outcome == Some(download_outcome(reply.write))
            &&& x.written == Some(v)
            &&& x.client.transfer is Idle
            &&& x.server.transfer is Idle
        }),
{
    lemma_cob_id_roundtrip(node);
    lemma_cs_constants();
    let (c1, r) = spec_begin_download(c0, node, idx, sub, v, now);
    let fuel = exchange_fuel(v.len());
    let len = v.len();
    let c2 = spec_take_pending(c1);
    let d = spec_expedited_init_frame(CCS_INIT_DOWNLOAD, idx, sub, v);
    let f0 = FrameView { cob_id: spec_rsdo_id(node), data: d };
    assert(c1.pending_tx == Some(f0));
    lemma_expedited_cmd(CCS_INIT_DOWNLOAD, len as int);
    let cmd = crate::wire::spec_expedited_cmd(CCS_INIT_DOWNLOAD, len as int);
    lemma_header_fields(cmd, idx, sub, v + zeros(4 - len));
    assert(d =~= spec_header(cmd, idx, sub) + (v + zeros(4 - len)));
    assert(d.subrange(4, (4 + len) as int) =~= v);
    let st = spec_server_on_frame(s0, f0, now, reply);
    assert(st == crate::server::spec_on_init_download(s0, d, reply, now));
    assert(st.call == (OdCall::Write { idx, sub, data: v }));
    assert(spec_exchange(c1, s0, reply, now, fuel, None) == spec_exchange(
        c2,
        st.post,
        reply,
        now,
        (fuel - 1) as nat,
        Some(v),
    ));
    let s3 = ServerModel { pending_tx: None, ..st.post };
    match reply.write {
        Ok(()) => {
            let ack = spec_init_download_ack(idx, sub);
            lemma_header_fields(SCS_INIT_DOWNLOAD, idx, sub, zeros(4));
            assert(SCS_INIT_DOWNLOAD & CS_MASK == SCS_INIT_DOWNLOAD) by (bit_vector);
            let of = FrameView { cob_id: spec_tsdo_id(node), data: ack };
            assert(st.post.pending_tx == Some(of));
            let (c3, r3) = spec_client_on_frame(c2, of, now);
            assert(r3 == download_outcome(reply.write));
            assert(spec_exchange(c2, st.post, reply, now, (fuel - 1) as nat, Some(v)) == Exchange {
                client: c3,
                server: s3,
                outcome: Some(r3),
                written: Some(v),
            });
        },
        Err(code) => {
            let af = FrameView { cob_id: spec_tsdo_id(node), data: spec_abort_frame(idx, sub, code) };
            assert(st.post.pending_tx == Some(af));
            lemma_abort_frame_fields(idx, sub, code);
            lemma_from_raw_of_raw(code);
            let (c3, r3) = spec_client_on_frame(c2, af, now);
            assert(r3 == download_outcome(reply.write));
            assert(spec_exchange(c2, st.post, reply, now, (fuel - 1) as nat, Some(v)) == Exchange {
                client: c3,
                server: s3,
                outcome: Some(r3),
                written: Some(v),
            });
        },
    }
}

proof fn lemma_download_segmented(
    c0: ClientModel,
    s0: ServerModel,
    node: u8,
    idx: u16,
    sub: u8,
    v: Seq<u8>,
    reply: OdReply,
    now: u64,
)
    requires
        c0.transfer is Idle,
        ready_server(s0, node),
        valid_node_id(node),
        1 <= v.len() <= s0.capacity,
        v.len() <= u32::MAX,
        reply.write matches Err(code) ==> is_canonical(code),
        v.len() > 4,
    ensures
        ({
            let (c1, r) = spec_begin_download(c0, node, idx, sub, v, now);
            let x = spec_exchange(c1, s0, reply, now, exchange_fuel(v.len()), None);
            &&& r is Ok
            &&& x.outcome == Some(download_outcome(reply.write))
            &&& x.written == Some(v)
            &&& x.client.transfer is Idle
            &&& x.server.transfer is Idle
        }),
{
    lemma_cob_id_roundtrip(node);
    lemma_cs_constants();
    let (c1, r) = spec_begin_download(c0, node, idx, sub, v, now);
    let fuel = exchange_fuel(v.len());
    let len = v.len();
    let c2 = spec_take_pending(c1);
    let d = spec_segmented_init_frame(CCS_INIT_DOWNLOAD, idx, sub, len as u32);
    let f0 = FrameView { cob_id: spec_rsdo_id(node), data: d };
    assert(c1.pending_tx == Some(f0));
    lemma_segmented_cmd(CCS_INIT_DOWNLOAD);
    lemma_header_fields(CCS_INIT_DOWNLOAD | 1u8, idx, sub, le_u32_bytes(len as u32));
    lemma_le_u32_roundtrip(len as u32);
    assert(le_u32_at4(d) == len as u32);
    let st = spec_server_on_frame(s0, f0, now, reply);
    assert(st == crate::server::spec_on_init_download(s0, d, reply, now));
    assert(st.call == OdCall::NoCall);
    assert(spec_exchange(c1, s0, reply, now, fuel, None) == spec_exchange(
        c2,
        st.post,
        reply,
        now,
        (fuel - 1) as nat,
        None,
    ));
    let ack = spec_init_download_ack(idx, sub);
    lemma_header_fields(SCS_INIT_DOWNLOAD, idx, sub, zeros(4));
    assert(SCS_INIT_DOWNLOAD & CS_MASK == SCS_INIT_DOWNLOAD) by (bit_vector);
    let of = FrameView { cob_id: spec_tsdo_id(node), data: ack };
    assert(st.post.pending_tx == Some(of));
    let s3 = ServerModel { pending_tx: None, ..st.post };
    let (c3, r3) = spec_client_on_frame(c2, of, now);
    assert(r3 == Ok::<Option<OutcomeView>, SdoError>(None));
    assert(spec_exchange(c2, st.post, reply, now, (fuel - 1) as nat, None) == spec_exchange(
        c3,
        s3,
        reply,
        now,
        (fuel - 2) as nat,
        None,
    ));
    assert(v.subrange(0, 0) =~= Seq::<u8>::empty());
    assert(download_loop(c3, s3, node, idx, sub, v, 0, false));
    lemma_download_loop(c3, s3, reply, now, (fuel - 2) as nat, None, node, idx, sub, v, 0, false);
}

// ---------------- refusals ----------------

/// A read the server's dictionary refuses reaches the client as that abort
/// code: starting from an idle client and a server for that node, the client
/// fails with `ServerAborted(code)` and both end idle.
pub proof fn lemma_loopback_upload_refused(
    c0: ClientModel,
    s0: ServerModel,
    node: u8,
    idx: u16,
    sub: u8,
    code: SdoAbortCode,
    reply: OdReply,
    now: u64,
)
    requires
        c0.transfer is Idle,
        ready_server(s0, node),
        valid_node_id(node),
        reply.read == Err::<usize, SdoAbortCode>(code),
        is_canonical(code),
    ensures
        ({
            let (c1, r) = spec_begin_upload(c0, node, idx, sub, now);
            let x = spec_exchange(c1, s0, reply, now, 2, None);
            &&& r is Ok
            &&& x.outcome == Some(Err::<Option<OutcomeView>, SdoError>(SdoError::ServerAborted(code)))
            &&& x.client.transfer is Idle
            &&& x.server.transfer is Idle
        }),
{
    lemma_cob_id_roundtrip(node);
    lemma_cs_constants();
    let (c1, r) = spec_begin_upload(c0, node, idx, sub, now);
    let f0 = FrameView { cob_id: spec_rsdo_id(node), data: spec_init_upload(idx, sub) };
    assert(c1.pending_tx == Some(f0));
    lemma_header_fields(CCS_INIT_UPLOAD, idx, sub, zeros(4));
    assert(CCS_INIT_UPLOAD & CS_MASK == CCS_INIT_UPLOAD) by (bit_vector);
    let st = spec_server_on_frame(s0, f0, now, reply);
    assert(st == crate::server::spec_on_init_upload(s0, idx, sub, reply, now));
    let c2 = spec_take_pending(c1);
    assert(spec_exchange(c1, s0, reply, now, 2, None) == spec_exchange(c2, st.post, reply, now, 1, None));
    let af = FrameView { cob_id: spec_tsdo_id(node), data: spec_abort_frame(idx, sub, code) };
    assert(st.post.pending_tx == Some(af));
    lemma_abort_frame_fields(idx, sub, code);
    lemma_from_raw_of_raw(code);
    let (c3, r3) = spec_client_on_frame(c2, af, now);
    assert(r3 == Err::<Option<OutcomeView>, SdoError>(SdoError::ServerAborted(code)));
}

} // verus!
