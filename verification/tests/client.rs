use canopen_sdo::client::{SdoClient, SdoConfig, SdoOutcome};
use canopen_sdo::wire::{
    CCS_DOWNLOAD_SEGMENT, CCS_INIT_DOWNLOAD, CCS_INIT_UPLOAD, CCS_UPLOAD_SEGMENT, CS_ABORT,
    SCS_DOWNLOAD_SEGMENT, SCS_INIT_DOWNLOAD, SCS_INIT_UPLOAD, SCS_UPLOAD_SEGMENT, TOGGLE_BIT,
};
use canopen_sdo::{SdoAbortCode, SdoError, SdoFrame};

// Sans-io: time is an opaque monotonic u64; tests just use 0 and explicit
// offsets.
fn t0() -> u64 {
    0
}

fn server_frame(node_id: u8, data: [u8; 8]) -> SdoFrame {
    SdoFrame::new(SdoFrame::tsdo_id(node_id), data)
}

// ---------- upload expedited ----------

#[test]
fn upload_expedited_4_bytes() {
    let mut c = SdoClient::new(SdoConfig::default());
    c.begin_upload(0x10, 0x6041, 0x00, t0()).unwrap();
    let req = c.poll_transmit().unwrap();
    assert_eq!(req.cob_id, 0x610);
    assert_eq!(req.data[0], CCS_INIT_UPLOAD);
    assert_eq!(u16::from_le_bytes([req.data[1], req.data[2]]), 0x6041);

    // Server replies expedited (e=1, s=1, n=0): 4 bytes of data
    let mut data = [0u8; 8];
    data[0] = SCS_INIT_UPLOAD | 0b11;
    data[1] = 0x41;
    data[2] = 0x60;
    data[3] = 0x00;
    data[4..8].copy_from_slice(&[0xDE, 0xAD, 0xBE, 0xEF]);
    let out = c.handle_frame(server_frame(0x10, data), t0()).unwrap();
    assert_eq!(out, Some(SdoOutcome::UploadCompleted(vec![0xDE, 0xAD, 0xBE, 0xEF])));
    assert!(c.is_idle());
}

#[test]
fn upload_expedited_2_bytes() {
    let mut c = SdoClient::new(SdoConfig::default());
    c.begin_upload(1, 0x1000, 0x00, t0()).unwrap();
    c.poll_transmit().unwrap();

    let mut data = [0u8; 8];
    // n=2 → 2 bytes data
    data[0] = SCS_INIT_UPLOAD | (2 << 2) | 0b11;
    data[1] = 0x00;
    data[2] = 0x10;
    data[3] = 0x00;
    data[4] = 0x12;
    data[5] = 0x34;
    let out = c.handle_frame(server_frame(1, data), t0()).unwrap();
    assert_eq!(out, Some(SdoOutcome::UploadCompleted(vec![0x12, 0x34])));
}

// ---------- upload segmented ----------

#[test]
fn upload_segmented_happy_path() {
    let mut c = SdoClient::new(SdoConfig::default());
    c.begin_upload(2, 0x2000, 0x01, t0()).unwrap();
    c.poll_transmit().unwrap();

    // Init response: segmented, total length 11.
    let mut init = [0u8; 8];
    init[0] = SCS_INIT_UPLOAD | 0b01; // e=0, s=1
    init[1] = 0x00;
    init[2] = 0x20;
    init[3] = 0x01;
    init[4..8].copy_from_slice(&11u32.to_le_bytes());
    let out = c.handle_frame(server_frame(2, init), t0()).unwrap();
    assert_eq!(out, None);
    let req = c.poll_transmit().unwrap();
    assert_eq!(req.data[0], CCS_UPLOAD_SEGMENT); // toggle=0

    // Segment 1: 7 bytes, c=0, toggle=0
    let mut seg1 = [0u8; 8];
    seg1[0] = SCS_UPLOAD_SEGMENT; // toggle=0, n=0, c=0
    seg1[1..8].copy_from_slice(b"hello, ");
    let out = c.handle_frame(server_frame(2, seg1), t0()).unwrap();
    assert_eq!(out, None);
    let req = c.poll_transmit().unwrap();
    assert_eq!(req.data[0], CCS_UPLOAD_SEGMENT | TOGGLE_BIT); // toggle=1

    // Segment 2: 4 bytes ("worl"), c=1, toggle=1 → n=3
    let mut seg2 = [0u8; 8];
    seg2[0] = SCS_UPLOAD_SEGMENT | TOGGLE_BIT | (3 << 1) | 1;
    seg2[1..5].copy_from_slice(b"worl");
    let out = c.handle_frame(server_frame(2, seg2), t0()).unwrap();
    assert_eq!(out, Some(SdoOutcome::UploadCompleted(b"hello, worl".to_vec())));
    assert!(c.is_idle());
}

#[test]
fn upload_aborts_on_toggle_mismatch() {
    let mut c = SdoClient::new(SdoConfig::default());
    c.begin_upload(3, 0x3000, 0x00, t0()).unwrap();
    c.poll_transmit().unwrap();

    // Init response: segmented, total length 14
    let mut init = [0u8; 8];
    init[0] = SCS_INIT_UPLOAD | 0b01;
    init[1] = 0x00;
    init[2] = 0x30;
    init[3] = 0x00;
    init[4..8].copy_from_slice(&14u32.to_le_bytes());
    c.handle_frame(server_frame(3, init), t0()).unwrap();
    c.poll_transmit().unwrap();

    // Server replies with WRONG toggle (1 instead of 0)
    let mut seg = [0u8; 8];
    seg[0] = SCS_UPLOAD_SEGMENT | TOGGLE_BIT;
    seg[1..8].copy_from_slice(&[1, 2, 3, 4, 5, 6, 7]);
    let res = c.handle_frame(server_frame(3, seg), t0());
    assert!(matches!(res, Err(SdoError::ClientAborted(SdoAbortCode::ToggleBitNotAlternated))));
    // Abort frame must be queued
    let abort = c.poll_transmit().unwrap();
    assert_eq!(abort.data[0], CS_ABORT);
    assert!(c.is_idle());
}

// ---------- download expedited ----------

#[test]
fn download_expedited() {
    let mut c = SdoClient::new(SdoConfig::default());
    c.begin_download(0x10, 0x6040, 0x00, &[0x06, 0x00], t0()).unwrap();
    let req = c.poll_transmit().unwrap();
    // e=1, s=1, n=2
    assert_eq!(req.data[0], CCS_INIT_DOWNLOAD | (2 << 2) | 0b11);
    assert_eq!(&req.data[4..6], &[0x06, 0x00]);

    let mut ack = [0u8; 8];
    ack[0] = SCS_INIT_DOWNLOAD;
    ack[1] = 0x40;
    ack[2] = 0x60;
    ack[3] = 0x00;
    let out = c.handle_frame(server_frame(0x10, ack), t0()).unwrap();
    assert_eq!(out, Some(SdoOutcome::DownloadCompleted));
}

// ---------- download segmented ----------

#[test]
fn download_segmented() {
    let mut c = SdoClient::new(SdoConfig::default());
    let payload: Vec<u8> = (0u8..11).collect(); // 11 bytes -> needs segmenting
    c.begin_download(7, 0x2001, 0x02, &payload, t0()).unwrap();

    // Init request: segmented, size indicated
    let init = c.poll_transmit().unwrap();
    assert_eq!(init.data[0], CCS_INIT_DOWNLOAD | 0b01);
    assert_eq!(u32::from_le_bytes([init.data[4], init.data[5], init.data[6], init.data[7]]), 11);

    // Server acks the init
    let mut ack = [0u8; 8];
    ack[0] = SCS_INIT_DOWNLOAD;
    ack[1] = 0x01;
    ack[2] = 0x20;
    ack[3] = 0x02;
    c.handle_frame(server_frame(7, ack), t0()).unwrap();

    // First segment: 7 bytes, toggle=0, c=0
    let seg1 = c.poll_transmit().unwrap();
    assert_eq!(seg1.data[0], CCS_DOWNLOAD_SEGMENT); // toggle=0, n=0, c=0
    assert_eq!(&seg1.data[1..8], &payload[0..7]);

    // Server acks segment 1 with toggle=0
    let mut ack1 = [0u8; 8];
    ack1[0] = SCS_DOWNLOAD_SEGMENT;
    c.handle_frame(server_frame(7, ack1), t0()).unwrap();

    // Second segment: 4 bytes, toggle=1, c=1 (last) → n=3
    let seg2 = c.poll_transmit().unwrap();
    assert_eq!(seg2.data[0], CCS_DOWNLOAD_SEGMENT | TOGGLE_BIT | (3 << 1) | 1);
    assert_eq!(&seg2.data[1..5], &payload[7..11]);

    // Server acks segment 2 with toggle=1
    let mut ack2 = [0u8; 8];
    ack2[0] = SCS_DOWNLOAD_SEGMENT | TOGGLE_BIT;
    let out = c.handle_frame(server_frame(7, ack2), t0()).unwrap();
    assert_eq!(out, Some(SdoOutcome::DownloadCompleted));
    assert!(c.is_idle());
}

// ---------- server abort ----------

#[test]
fn server_abort_during_upload() {
    let mut c = SdoClient::new(SdoConfig::default());
    c.begin_upload(5, 0x1234, 0x00, t0()).unwrap();
    c.poll_transmit().unwrap();

    let mut abort = [0u8; 8];
    abort[0] = CS_ABORT;
    abort[1] = 0x34;
    abort[2] = 0x12;
    abort[3] = 0x00;
    abort[4..8].copy_from_slice(&SdoAbortCode::ObjectDoesNotExist.raw().to_le_bytes());

    let res = c.handle_frame(server_frame(5, abort), t0());
    assert!(matches!(res, Err(SdoError::ServerAborted(SdoAbortCode::ObjectDoesNotExist))));
    assert!(c.is_idle());
    // Client does not echo an abort frame in this case.
    assert!(c.poll_transmit().is_none());
}

// ---------- timeout ----------

#[test]
fn timeout_aborts() {
    let mut c = SdoClient::new(SdoConfig {
        timeout: 10_000_000, // 10 ms in ns
    });
    let now = 0u64;
    c.begin_upload(8, 0x1000, 0x00, now).unwrap();
    let _ = c.poll_transmit();
    let dl = c.poll_timeout().unwrap();

    // Pretend time advanced past the deadline
    let later = dl + 5_000_000;
    let res = c.handle_timeout(later);
    assert!(matches!(res, Err(SdoError::ClientAborted(SdoAbortCode::ProtocolTimeout))));
    let f = c.poll_transmit().unwrap();
    assert_eq!(f.data[0], CS_ABORT);
    assert!(c.is_idle());
}

// ---------- busy ----------

#[test]
fn cannot_begin_two_transfers() {
    let mut c = SdoClient::new(SdoConfig::default());
    c.begin_upload(1, 0x1000, 0, t0()).unwrap();
    assert!(matches!(c.begin_upload(1, 0x1001, 0, t0()), Err(SdoError::Busy)));
    assert!(matches!(c.begin_download(1, 0x1001, 0, &[1, 2], t0()), Err(SdoError::Busy)));
}

#[test]
fn invalid_node_id() {
    let mut c = SdoClient::new(SdoConfig::default());
    assert!(c.begin_upload(0, 0x1000, 0, t0()).is_err());
    assert!(c.begin_upload(128, 0x1000, 0, t0()).is_err());
}
