use can_transport::{CanFrame, CanId};
use canopen_sdo::asynch::{
    can_to_sdo, config_from, is_transient, sdo_frame_from_parts, sdo_to_can, should_retry,
    AsyncSdoError, CanIdValue, FrameKindValue,
};
use canopen_sdo::{SdoAbortCode, SdoError, SdoFrame};

#[test]
fn sdo_frames_survive_can_frames() {
    let f = SdoFrame::new(0x610, [0x40, 0x41, 0x60, 0x00, 1, 2, 3, 4]);
    let cf = sdo_to_can(f).unwrap();
    assert_eq!(cf.id(), CanId::Standard(0x610));
    assert_eq!(cf.data(), &f.data);
    assert_eq!(can_to_sdo(&cf), Some(f));
}

#[test]
fn non_sdo_can_frames_are_dropped() {
    let ext = CanFrame::new_data(CanId::Extended(0x590), &[0; 8]).unwrap();
    assert_eq!(can_to_sdo(&ext), None);
    let short = CanFrame::new_data(CanId::Standard(0x590), &[0; 7]).unwrap();
    assert_eq!(can_to_sdo(&short), None);
    let fd = CanFrame::new_fd(CanId::Standard(0x590), &[0; 8], false).unwrap();
    assert_eq!(can_to_sdo(&fd), None);
    let rtr = CanFrame::new_remote(CanId::Standard(0x590), 8).unwrap();
    assert_eq!(can_to_sdo(&rtr), None);
    let ok = CanFrame::new_data(CanId::Standard(0x590), &[9; 8]).unwrap();
    assert_eq!(can_to_sdo(&ok), Some(SdoFrame::new(0x590, [9; 8])));
}

#[test]
fn sdo_frame_from_parts_cases() {
    let d = [1u8, 2, 3, 4, 5, 6, 7, 8];
    assert_eq!(
        sdo_frame_from_parts(FrameKindValue::Data, CanIdValue::Standard(0x581), &d),
        Some(SdoFrame::new(0x581, d))
    );
    assert_eq!(sdo_frame_from_parts(FrameKindValue::Remote, CanIdValue::Standard(0x581), &d), None);
    assert_eq!(
        sdo_frame_from_parts(FrameKindValue::Fd { brs: true }, CanIdValue::Standard(0x581), &d),
        None
    );
    assert_eq!(sdo_frame_from_parts(FrameKindValue::Data, CanIdValue::Extended(0x581), &d), None);
    assert_eq!(sdo_frame_from_parts(FrameKindValue::Data, CanIdValue::Standard(0x581), &d[..6]), None);
}

#[test]
fn config_from_timeouts() {
    assert_eq!(config_from(None).timeout, 150_000_000);
    assert_eq!(config_from(Some(200_000_000)).timeout, 200_000_000);
    assert_eq!(config_from(Some((1u128 << 64) + 5)).timeout, 5);
}

#[test]
fn transient_failures() {
    let timeout = AsyncSdoError::Sdo(SdoError::ClientAborted(SdoAbortCode::ProtocolTimeout));
    let io = AsyncSdoError::Io(can_transport::CanIoError::Disconnected);
    let refused = AsyncSdoError::Sdo(SdoError::ServerAborted(SdoAbortCode::ProtocolTimeout));
    let busy = AsyncSdoError::Sdo(SdoError::Busy);
    assert!(is_transient(&timeout));
    assert!(is_transient(&io));
    assert!(!is_transient(&refused));
    assert!(!is_transient(&busy));

    assert!(should_retry(1, 3, &timeout));
    assert!(should_retry(2, 3, &io));
    assert!(!should_retry(3, 3, &io));
    assert!(!should_retry(1, 3, &busy));
    // zero retries still means one attempt
    assert!(!should_retry(1, 0, &timeout));
    assert!(!should_retry(1, 1, &timeout));
}
