use canopen_sdo::client::{SdoClient, SdoConfig, SdoOutcome};
use canopen_sdo::server::{ObjectDictionary, SdoServer, ServerConfig};
use canopen_sdo::wire::{
    self, CCS_DOWNLOAD_SEGMENT, CCS_INIT_DOWNLOAD, CCS_INIT_UPLOAD, CS_ABORT,
    SCS_DOWNLOAD_SEGMENT, SCS_INIT_DOWNLOAD, SCS_INIT_UPLOAD, SCS_UPLOAD_SEGMENT, TOGGLE_BIT,
};
use canopen_sdo::{SdoAbortCode, SdoError, SdoFrame};

fn server_frame(node_id: u8, data: [u8; 8]) -> SdoFrame {
    SdoFrame::new(SdoFrame::tsdo_id(node_id), data)
}

#[test]
fn default_timeouts() {
    assert_eq!(SdoConfig::default().timeout, 150_000_000);
    let cfg = ServerConfig::new(0x22);
    assert_eq!(cfg.node_id, 0x22);
    assert_eq!(cfg.timeout, 1_000_000_000);
}

#[test]
fn busy_client_is_left_unchanged() {
    let mut c = SdoClient::new(SdoConfig { timeout: 100 });
    c.begin_upload(4, 0x1000, 0, 10).unwrap();
    assert!(matches!(c.begin_upload(5, 0x2000, 1, 20), Err(SdoError::Busy)));
    assert!(matches!(c.begin_download(5, 0x2000, 1, &[1], 20), Err(SdoError::Busy)));
    // The first request is still the one queued, with its deadline.
    assert_eq!(c.poll_timeout(), Some(110));
    let f = c.poll_transmit().unwrap();
    assert_eq!(f.cob_id, 0x604);
    assert_eq!(f.data, [CCS_INIT_UPLOAD, 0x00, 0x10, 0, 0, 0, 0, 0]);
    assert!(c.poll_transmit().is_none());
}

#[test]
fn begin_rejects_bad_arguments() {
    let mut c = SdoClient::new(SdoConfig::default());
    assert_eq!(
        c.begin_download(1, 0x1000, 0, &[], 0),
        Err(SdoError::InvalidArgument("download payload empty"))
    );
    assert_eq!(
        c.begin_download(0, 0x1000, 0, &[1], 0),
        Err(SdoError::InvalidArgument("node id must be 1..=127"))
    );
    assert_eq!(
        c.begin_upload(200, 0x1000, 0, 0),
        Err(SdoError::InvalidArgument("node id must be 1..=127"))
    );
    assert!(c.is_idle());
    assert!(c.poll_transmit().is_none());
    assert_eq!(c.poll_timeout(), None);
}

#[test]
fn timeout_not_due_changes_nothing() {
    let mut c = SdoClient::new(SdoConfig { timeout: 1000 });
    c.begin_upload(9, 0x1000, 0, 500).unwrap();
    assert_eq!(c.handle_timeout(1499), Ok(None));
    assert!(!c.is_idle());
    assert_eq!(c.poll_timeout(), Some(1500));
    // due exactly at the deadline
    assert_eq!(
        c.handle_timeout(1500),
        Err(SdoError::ClientAborted(SdoAbortCode::ProtocolTimeout))
    );
    let f = c.poll_transmit().unwrap();
    assert_eq!(f.cob_id, 0x609);
    assert_eq!(f.data, wire::abort(0x1000, 0, SdoAbortCode::ProtocolTimeout));
    assert_eq!(c.poll_timeout(), None);
    assert_eq!(c.handle_timeout(5000), Ok(None));
}

#[test]
fn client_ignores_foreign_frames() {
    let mut c = SdoClient::new(SdoConfig::default());
    // idle: everything is ignored
    assert_eq!(c.handle_frame(server_frame(3, [CS_ABORT, 0, 0, 0, 0, 0, 0, 0]), 0), Ok(None));
    c.begin_upload(3, 0x1000, 0, 0).unwrap();
    c.poll_transmit().unwrap();
    let mut data = [0u8; 8];
    data[0] = SCS_INIT_UPLOAD | 0b11;
    data[1] = 0x00;
    data[2] = 0x10;
    // an RSDO COB-ID is not a response
    assert_eq!(c.handle_frame(SdoFrame::new(SdoFrame::rsdo_id(3), data), 0), Ok(None));
    // a response from another node
    assert_eq!(c.handle_frame(server_frame(4, data), 0), Ok(None));
    // a response for another index
    let mut other = data;
    other[1] = 0x01;
    assert_eq!(c.handle_frame(server_frame(3, other), 0), Ok(None));
    // an abort for another object
    let abort = wire::abort(0x1001, 0, SdoAbortCode::General);
    assert_eq!(c.handle_frame(server_frame(3, abort), 0), Ok(None));
    assert!(!c.is_idle());
    // the right one completes
    assert_eq!(
        c.handle_frame(server_frame(3, data), 0),
        Ok(Some(SdoOutcome::UploadCompleted(vec![0, 0, 0, 0])))
    );
}

#[test]
fn server_abort_with_unknown_code() {
    let mut c = SdoClient::new(SdoConfig::default());
    c.begin_download(6, 0x2000, 3, &[1, 2, 3, 4, 5, 6], 0).unwrap();
    c.poll_transmit().unwrap();
    let abort = wire::abort(0x2000, 3, SdoAbortCode::Unknown(0xDEAD_BEEF));
    assert_eq!(
        c.handle_frame(server_frame(6, abort), 0),
        Err(SdoError::ServerAborted(SdoAbortCode::Unknown(0xDEAD_BEEF)))
    );
    assert!(c.is_idle());
    assert!(c.poll_transmit().is_none());
    assert_eq!(c.poll_timeout(), None);
}

#[test]
fn upload_length_mismatch_aborts() {
    let mut c = SdoClient::new(SdoConfig::default());
    c.begin_upload(2, 0x2000, 1, 0).unwrap();
    c.poll_transmit().unwrap();
    let mut init = [0u8; 8];
    init[0] = SCS_INIT_UPLOAD | 0b01;
    init[1] = 0x00;
    init[2] = 0x20;
    init[3] = 0x01;
    init[4..8].copy_from_slice(&9u32.to_le_bytes());
    assert_eq!(c.handle_frame(server_frame(2, init), 0), Ok(None));
    c.poll_transmit().unwrap();
    // a single final segment of 3 bytes, but 9 were announced
    let seg = wire::segment_frame(wire::segment_cmd(SCS_UPLOAD_SEGMENT, false, 3, true), &[1, 2, 3]);
    assert_eq!(
        c.handle_frame(server_frame(2, seg), 0),
        Err(SdoError::ClientAborted(SdoAbortCode::DataTypeLengthMismatch))
    );
    let f = c.poll_transmit().unwrap();
    assert_eq!(f.data, wire::abort(0x2000, 1, SdoAbortCode::DataTypeLengthMismatch));
    assert!(c.is_idle());
}

#[test]
fn download_ack_toggle_mismatch_aborts() {
    let mut c = SdoClient::new(SdoConfig::default());
    let payload: Vec<u8> = (0u8..20).collect();
    c.begin_download(7, 0x2001, 0, &payload, 0).unwrap();
    c.poll_transmit().unwrap();
    let mut ack = [0u8; 8];
    ack[0] = SCS_INIT_DOWNLOAD;
    ack[1] = 0x01;
    ack[2] = 0x20;
    c.handle_frame(server_frame(7, ack), 0).unwrap();
    let seg1 = c.poll_transmit().unwrap();
    assert_eq!(seg1.data[0], CCS_DOWNLOAD_SEGMENT);
    // the ack carries the wrong toggle (1 instead of 0)
    let bad = [SCS_DOWNLOAD_SEGMENT | TOGGLE_BIT, 0, 0, 0, 0, 0, 0, 0];
    assert_eq!(
        c.handle_frame(server_frame(7, bad), 0),
        Err(SdoError::ClientAborted(SdoAbortCode::ToggleBitNotAlternated))
    );
    assert_eq!(c.poll_transmit().unwrap().data[0], CS_ABORT);
    assert!(c.is_idle());
}

#[test]
fn manual_abort() {
    let mut c = SdoClient::new(SdoConfig::default());
    c.abort(SdoAbortCode::General);
    assert!(c.poll_transmit().is_none());
    c.begin_upload(0x11, 0x1234, 0x56, 0).unwrap();
    c.poll_transmit().unwrap();
    c.abort(SdoAbortCode::General);
    let f = c.poll_transmit().unwrap();
    assert_eq!(f.cob_id, 0x611);
    assert_eq!(f.data, wire::abort(0x1234, 0x56, SdoAbortCode::General));
    assert!(c.is_idle());
    assert_eq!(c.poll_timeout(), None);
}

struct OneEntry {
    value: Vec<u8>,
    refuse_write: Option<SdoAbortCode>,
    written: Vec<Vec<u8>>,
}

impl ObjectDictionary for OneEntry {
    fn read(&mut self, _index: u16, _sub: u8, buf: &mut [u8]) -> Result<usize, SdoAbortCode> {
        if self.value.len() > buf.len() {
            return Err(SdoAbortCode::OutOfMemory);
        }
        buf[..self.value.len()].copy_from_slice(&self.value);
        Ok(self.value.len())
    }
    fn write(&mut self, _index: u16, _sub: u8, data: &[u8]) -> Result<(), SdoAbortCode> {
        self.written.push(data.to_vec());
        match self.refuse_write {
            Some(code) => Err(code),
            None => Ok(()),
        }
    }
}

fn od(value: &[u8]) -> OneEntry {
    OneEntry { value: value.to_vec(), refuse_write: None, written: Vec::new() }
}

const NODE: u8 = 0x21;

fn req(data: [u8; 8]) -> SdoFrame {
    SdoFrame::new(SdoFrame::rsdo_id(NODE), data)
}

#[test]
fn server_client_abort_resets_silently() {
    let mut s: SdoServer<32> = SdoServer::new(ServerConfig::new(NODE));
    let mut d = od(&(0u8..20).collect::<Vec<u8>>());
    s.handle_frame(req([CCS_INIT_UPLOAD, 0, 0x20, 0, 0, 0, 0, 0]), 0, &mut d).unwrap();
    assert!(!s.is_idle());
    assert!(s.poll_timeout().is_some());
    assert_eq!(s.handle_frame(req(wire::abort(0x2000, 0, SdoAbortCode::General)), 0, &mut d), Ok(()));
    assert!(s.is_idle());
    assert!(s.poll_transmit().is_none());
    assert_eq!(s.poll_timeout(), None);
}

#[test]
fn server_rejects_unknown_command_specifier() {
    let mut s: SdoServer<32> = SdoServer::new(ServerConfig::new(NODE));
    let mut d = od(&[1]);
    let res = s.handle_frame(req([0xE0, 0x34, 0x12, 0x07, 0, 0, 0, 0]), 0, &mut d);
    assert_eq!(res, Err(SdoError::ClientAborted(SdoAbortCode::InvalidCommandSpecifier)));
    let f = s.poll_transmit().unwrap();
    assert_eq!(f.cob_id, 0x5A1);
    assert_eq!(f.data, wire::abort(0x1234, 0x07, SdoAbortCode::InvalidCommandSpecifier));
}

#[test]
fn server_segment_without_transfer_aborts() {
    let mut s: SdoServer<32> = SdoServer::new(ServerConfig::new(NODE));
    let mut d = od(&[1]);
    let res = s.handle_frame(req([0x60, 0, 0, 0, 0, 0, 0, 0]), 0, &mut d);
    assert_eq!(res, Err(SdoError::ClientAborted(SdoAbortCode::InvalidCommandSpecifier)));
    assert_eq!(s.poll_transmit().unwrap().data, wire::abort(0, 0, SdoAbortCode::InvalidCommandSpecifier));
    let res = s.handle_frame(req([CCS_DOWNLOAD_SEGMENT, 1, 2, 3, 4, 5, 6, 7]), 0, &mut d);
    assert_eq!(res, Err(SdoError::ClientAborted(SdoAbortCode::InvalidCommandSpecifier)));
}

#[test]
fn server_capacity_bounds_downloads() {
    let mut s: SdoServer<8> = SdoServer::new(ServerConfig::new(NODE));
    let mut d = od(&[]);
    let mut init = [0u8; 8];
    init[0] = CCS_INIT_DOWNLOAD | 0b01;
    init[1] = 0x00;
    init[2] = 0x20;
    init[4..8].copy_from_slice(&9u32.to_le_bytes());
    assert_eq!(
        s.handle_frame(req(init), 0, &mut d),
        Err(SdoError::ClientAborted(SdoAbortCode::OutOfMemory))
    );
    assert!(s.is_idle());
    // size not indicated: the overflow is caught at the segment
    init[0] = CCS_INIT_DOWNLOAD;
    s.handle_frame(req(init), 0, &mut d).unwrap();
    s.poll_transmit().unwrap();
    let seg1 = wire::segment_frame(wire::segment_cmd(CCS_DOWNLOAD_SEGMENT, false, 7, false), &[1; 7]);
    s.handle_frame(req(seg1), 0, &mut d).unwrap();
    let seg2 = wire::segment_frame(wire::segment_cmd(CCS_DOWNLOAD_SEGMENT, true, 7, true), &[2; 7]);
    assert_eq!(
        s.handle_frame(req(seg2), 0, &mut d),
        Err(SdoError::ClientAborted(SdoAbortCode::OutOfMemory))
    );
    assert!(d.written.is_empty());
    assert!(s.is_idle());
}

#[test]
fn server_download_length_mismatch_and_refusal() {
    let mut s: SdoServer<32> = SdoServer::new(ServerConfig::new(NODE));
    let mut d = od(&[]);
    let mut init = [0u8; 8];
    init[0] = CCS_INIT_DOWNLOAD | 0b01;
    init[4..8].copy_from_slice(&5u32.to_le_bytes());
    s.handle_frame(req(init), 0, &mut d).unwrap();
    let seg = wire::segment_frame(wire::segment_cmd(CCS_DOWNLOAD_SEGMENT, false, 3, true), &[1, 2, 3]);
    assert_eq!(
        s.handle_frame(req(seg), 0, &mut d),
        Err(SdoError::ClientAborted(SdoAbortCode::DataTypeLengthMismatch))
    );
    assert!(d.written.is_empty());

    // the dictionary refuses the final write
    d.refuse_write = Some(SdoAbortCode::InvalidValue);
    s.handle_frame(req(init), 0, &mut d).unwrap();
    let seg = wire::segment_frame(wire::segment_cmd(CCS_DOWNLOAD_SEGMENT, false, 5, true), &[1, 2, 3, 4, 5]);
    assert_eq!(
        s.handle_frame(req(seg), 0, &mut d),
        Err(SdoError::ClientAborted(SdoAbortCode::InvalidValue))
    );
    assert_eq!(d.written, vec![vec![1, 2, 3, 4, 5]]);
    assert_eq!(s.poll_transmit().unwrap().data, wire::abort(0, 0, SdoAbortCode::InvalidValue));
    assert!(s.is_idle());
}

#[test]
fn server_timeout_zero_disables_deadline() {
    let mut s: SdoServer<32> = SdoServer::new(ServerConfig { node_id: NODE, timeout: 0 });
    let mut d = od(&(0u8..20).collect::<Vec<u8>>());
    s.handle_frame(req([CCS_INIT_UPLOAD, 0, 0x20, 0, 0, 0, 0, 0]), 7, &mut d).unwrap();
    assert!(!s.is_idle());
    assert_eq!(s.poll_timeout(), None);
    assert_eq!(s.handle_timeout(u64::MAX), Ok(()));
    assert!(!s.is_idle());
}

#[test]
fn server_timeout_not_due() {
    let mut s: SdoServer<32> = SdoServer::new(ServerConfig { node_id: NODE, timeout: 50 });
    let mut d = od(&(0u8..20).collect::<Vec<u8>>());
    s.handle_frame(req([CCS_INIT_UPLOAD, 0, 0x20, 0, 0, 0, 0, 0]), 100, &mut d).unwrap();
    assert_eq!(s.poll_timeout(), Some(150));
    assert_eq!(s.handle_timeout(149), Ok(()));
    assert!(!s.is_idle());
    assert_eq!(
        s.handle_timeout(150),
        Err(SdoError::ClientAborted(SdoAbortCode::ProtocolTimeout))
    );
    assert!(s.is_idle());
}

#[test]
fn server_expedited_upload_sizes() {
    for len in 1usize..=4 {
        let value: Vec<u8> = (1..=len as u8).collect();
        let mut s: SdoServer<32> = SdoServer::new(ServerConfig::new(NODE));
        let mut d = od(&value);
        s.handle_frame(req([CCS_INIT_UPLOAD, 0x08, 0x10, 0x01, 0, 0, 0, 0]), 0, &mut d).unwrap();
        let r = s.poll_transmit().unwrap();
        let n = (4 - len) as u8;
        assert_eq!(r.data[0], SCS_INIT_UPLOAD | (n << 2) | 0b11);
        assert_eq!(&r.data[1..4], &[0x08, 0x10, 0x01]);
        assert_eq!(&r.data[4..4 + len], &value[..]);
        assert!(r.data[4 + len..].iter().all(|b| *b == 0));
        assert_eq!(s.poll_timeout(), None);
        assert!(s.is_idle());
    }
}

#[test]
fn answers_to_dictionary_reads() {
    let mut s: SdoServer<8> = SdoServer::new(ServerConfig::new(NODE));
    // a count beyond the buffer is refused
    assert_eq!(
        s.answer_read(0x2000, 1, Ok(100), vec![0; 8], 0),
        Err(SdoError::ClientAborted(SdoAbortCode::OutOfMemory))
    );
    assert_eq!(s.poll_transmit().unwrap().data, wire::abort(0x2000, 1, SdoAbortCode::OutOfMemory));
    // the dictionary's own refusal
    assert_eq!(
        s.answer_read(0x2000, 1, Err(SdoAbortCode::ReadWriteOnly), vec![0; 8], 0),
        Err(SdoError::ClientAborted(SdoAbortCode::ReadWriteOnly))
    );
    assert!(s.is_idle());
    // three bytes go expedited, the rest of the buffer is not sent
    assert_eq!(s.answer_read(0x2000, 1, Ok(3), vec![7, 8, 9, 1, 1, 1, 1, 1], 0), Ok(()));
    assert_eq!(
        s.poll_transmit().unwrap().data,
        [SCS_INIT_UPLOAD | (1 << 2) | 0b11, 0x00, 0x20, 0x01, 7, 8, 9, 0]
    );
    assert!(s.is_idle());
    // an empty value is announced as a segmented upload of size 0
    assert_eq!(s.answer_read(0x2000, 1, Ok(0), vec![0; 8], 10), Ok(()));
    assert_eq!(
        s.poll_transmit().unwrap().data,
        [SCS_INIT_UPLOAD | 0b01, 0x00, 0x20, 0x01, 0, 0, 0, 0]
    );
    assert!(!s.is_idle());
    assert_eq!(s.poll_timeout(), Some(1_000_000_010));
}

#[test]
fn answers_to_dictionary_writes() {
    let mut s: SdoServer<8> = SdoServer::new(ServerConfig::new(NODE));
    assert_eq!(s.answer_expedited_write(0x6040, 0, Ok(())), Ok(()));
    assert_eq!(s.poll_transmit().unwrap().data, [SCS_INIT_DOWNLOAD, 0x40, 0x60, 0, 0, 0, 0, 0]);
    assert_eq!(
        s.answer_expedited_write(0x6040, 0, Err(SdoAbortCode::WriteReadOnly)),
        Err(SdoError::ClientAborted(SdoAbortCode::WriteReadOnly))
    );
    assert_eq!(s.poll_transmit().unwrap().data, wire::abort(0x6040, 0, SdoAbortCode::WriteReadOnly));
    assert_eq!(s.answer_segmented_write(0x6040, 0, true, Ok(())), Ok(()));
    assert_eq!(
        s.poll_transmit().unwrap().data,
        [SCS_DOWNLOAD_SEGMENT | TOGGLE_BIT, 0, 0, 0, 0, 0, 0, 0]
    );
    assert_eq!(
        s.answer_segmented_write(0x6040, 0, false, Err(SdoAbortCode::HardwareError)),
        Err(SdoError::ClientAborted(SdoAbortCode::HardwareError))
    );
    assert!(s.is_idle());
    assert_eq!(s.poll_timeout(), None);
}

#[test]
fn download_segments_are_seven_byte_chunks() {
    let mut c = SdoClient::new(SdoConfig { timeout: 100 });
    let payload: Vec<u8> = (10u8..26).collect();
    c.begin_download(5, 0x2000, 1, &payload, 0).unwrap();
    c.poll_transmit().unwrap();
    let ack = [SCS_INIT_DOWNLOAD, 0x00, 0x20, 0x01, 0, 0, 0, 0];
    assert_eq!(c.handle_frame(server_frame(5, ack), 0), Ok(None));
    // segment 0: toggle 0, bytes 0..7, more to come
    let s0 = c.poll_transmit().unwrap();
    assert_eq!(s0.cob_id, 0x605);
    assert_eq!(s0.data, [0x00, 10, 11, 12, 13, 14, 15, 16]);
    let ack0 = [SCS_DOWNLOAD_SEGMENT, 0, 0, 0, 0, 0, 0, 0];
    assert_eq!(c.handle_frame(server_frame(5, ack0), 0), Ok(None));
    // segment 1: toggle 1, bytes 7..14
    let s1 = c.poll_transmit().unwrap();
    assert_eq!(s1.data, [TOGGLE_BIT, 17, 18, 19, 20, 21, 22, 23]);
    let ack1 = [SCS_DOWNLOAD_SEGMENT | TOGGLE_BIT, 0, 0, 0, 0, 0, 0, 0];
    assert_eq!(c.handle_frame(server_frame(5, ack1), 0), Ok(None));
    // segment 2: toggle 0, bytes 14..16, five unused bytes, last
    let s2 = c.poll_transmit().unwrap();
    assert_eq!(s2.data, [(5 << 1) | 1, 24, 25, 0, 0, 0, 0, 0]);
    assert_eq!(
        c.handle_frame(server_frame(5, ack0), 0),
        Ok(Some(SdoOutcome::DownloadCompleted))
    );
    assert!(c.is_idle());
}

#[test]
fn client_deadline_follows_the_last_request() {
    let mut c = SdoClient::new(SdoConfig { timeout: 100 });
    c.begin_upload(3, 0x1018, 1, 10).unwrap();
    assert_eq!(c.poll_timeout(), Some(110));
    c.poll_transmit().unwrap();
    assert_eq!(c.poll_timeout(), Some(110));
    // a frame for another node changes nothing
    let other = SdoFrame::new(SdoFrame::tsdo_id(4), [SCS_INIT_UPLOAD, 0x18, 0x10, 1, 0, 0, 0, 0]);
    assert_eq!(c.handle_frame(other, 40), Ok(None));
    assert_eq!(c.poll_timeout(), Some(110));
    // the segmented init response queues a segment request and re-arms
    let init = [SCS_INIT_UPLOAD | 1, 0x18, 0x10, 1, 9, 0, 0, 0];
    assert_eq!(c.handle_frame(server_frame(3, init), 50), Ok(None));
    assert_eq!(c.poll_timeout(), Some(150));
    // ending the transfer clears it
    c.abort(SdoAbortCode::General);
    assert_eq!(c.poll_timeout(), None);
}
