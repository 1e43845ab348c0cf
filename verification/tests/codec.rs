use canopen_sdo::client::enc;
use canopen_sdo::wire::{
    self, CCS_DOWNLOAD_SEGMENT, CCS_INIT_DOWNLOAD, CCS_INIT_UPLOAD, CCS_UPLOAD_SEGMENT, CS_ABORT,
    CS_MASK, SCS_UPLOAD_SEGMENT, TOGGLE_BIT,
};
use canopen_sdo::{SdoAbortCode, SdoFrame};

const KNOWN: [SdoAbortCode; 31] = [
    SdoAbortCode::ToggleBitNotAlternated,
    SdoAbortCode::ProtocolTimeout,
    SdoAbortCode::InvalidCommandSpecifier,
    SdoAbortCode::InvalidBlockSize,
    SdoAbortCode::InvalidSequenceNumber,
    SdoAbortCode::CrcError,
    SdoAbortCode::OutOfMemory,
    SdoAbortCode::UnsupportedAccess,
    SdoAbortCode::ReadWriteOnly,
    SdoAbortCode::WriteReadOnly,
    SdoAbortCode::ObjectDoesNotExist,
    SdoAbortCode::NotMappable,
    SdoAbortCode::PdoLengthExceeded,
    SdoAbortCode::ParameterIncompatibility,
    SdoAbortCode::InternalIncompatibility,
    SdoAbortCode::HardwareError,
    SdoAbortCode::DataTypeLengthMismatch,
    SdoAbortCode::DataTypeLengthHigh,
    SdoAbortCode::DataTypeLengthLow,
    SdoAbortCode::SubindexDoesNotExist,
    SdoAbortCode::InvalidValue,
    SdoAbortCode::ValueTooHigh,
    SdoAbortCode::ValueTooLow,
    SdoAbortCode::MaxLessThanMin,
    SdoAbortCode::ResourceNotAvailable,
    SdoAbortCode::General,
    SdoAbortCode::StorageError,
    SdoAbortCode::StorageLocalControl,
    SdoAbortCode::StorageDeviceState,
    SdoAbortCode::NoObjectDictionary,
    SdoAbortCode::NoData,
];

#[test]
fn abort_codes_round_trip() {
    for code in KNOWN {
        assert_eq!(SdoAbortCode::from(code.raw()), code);
        assert_eq!(u32::from(code), code.raw());
        assert!(!matches!(code, SdoAbortCode::Unknown(_)));
    }
    // every known code has its own raw value
    for (i, a) in KNOWN.iter().enumerate() {
        for b in KNOWN.iter().skip(i + 1) {
            assert_ne!(a.raw(), b.raw());
        }
    }
    assert_eq!(SdoAbortCode::from(0x1234_5678), SdoAbortCode::Unknown(0x1234_5678));
    assert_eq!(SdoAbortCode::Unknown(0x1234_5678).raw(), 0x1234_5678);
    // a standard value held as Unknown decodes to the standard code
    assert_eq!(
        SdoAbortCode::from(SdoAbortCode::Unknown(0x0503_0000).raw()),
        SdoAbortCode::ToggleBitNotAlternated
    );
}

#[test]
fn abort_code_raw_values() {
    assert_eq!(SdoAbortCode::ToggleBitNotAlternated.raw(), 0x0503_0000);
    assert_eq!(SdoAbortCode::ProtocolTimeout.raw(), 0x0504_0000);
    assert_eq!(SdoAbortCode::OutOfMemory.raw(), 0x0504_0005);
    assert_eq!(SdoAbortCode::ObjectDoesNotExist.raw(), 0x0602_0000);
    assert_eq!(SdoAbortCode::ResourceNotAvailable.raw(), 0x060A_0023);
    assert_eq!(SdoAbortCode::NoData.raw(), 0x0800_0024);
    assert_eq!(SdoAbortCode::from_raw(0x0609_0011), SdoAbortCode::SubindexDoesNotExist);
}

#[test]
fn cob_ids_round_trip() {
    for node in [1u8, 0x10, 0x7F] {
        assert_eq!(SdoFrame::node_of_tsdo(SdoFrame::tsdo_id(node)), Some(node));
        assert_eq!(SdoFrame::node_of_rsdo(SdoFrame::rsdo_id(node)), Some(node));
        assert_eq!(SdoFrame::node_of_tsdo(SdoFrame::rsdo_id(node)), None);
        assert_eq!(SdoFrame::node_of_rsdo(SdoFrame::tsdo_id(node)), None);
    }
    assert_eq!(SdoFrame::rsdo_id(0x10), 0x610);
    assert_eq!(SdoFrame::tsdo_id(0x10), 0x590);
    // only the low seven bits of a node id are used
    assert_eq!(SdoFrame::tsdo_id(0x90), 0x590);
    assert_eq!(SdoFrame::node_of_tsdo(0x123), None);
    assert_eq!(SdoFrame::node_of_tsdo(0x5FF), Some(0x7F));
}

#[test]
fn segment_command_round_trips() {
    for cs in [CCS_DOWNLOAD_SEGMENT, SCS_UPLOAD_SEGMENT] {
        for toggle in [false, true] {
            for len in 0usize..=7 {
                for last in [false, true] {
                    let cmd = wire::segment_cmd(cs, toggle, len, last);
                    assert_eq!(cmd & CS_MASK, cs);
                    assert_eq!(cmd & TOGGLE_BIT != 0, toggle);
                    assert_eq!(wire::decode_segment(cmd), (len, last));
                }
            }
        }
    }
    assert_eq!(wire::segment_cmd(CCS_DOWNLOAD_SEGMENT, true, 4, true), 0x17);
    assert_eq!(wire::decode_segment(0x0E), (0, false));
}

#[test]
fn abort_frame_layout() {
    let d = wire::abort(0x1234, 0x05, SdoAbortCode::ObjectDoesNotExist);
    assert_eq!(d, [CS_ABORT, 0x34, 0x12, 0x05, 0x00, 0x00, 0x02, 0x06]);
    assert_eq!(wire::index_of(&d), 0x1234);
    assert_eq!(wire::subindex_of(&d), 0x05);
}

#[test]
fn segment_frame_pads_with_zeros() {
    assert_eq!(wire::segment_frame(0xAB, &[1, 2, 3]), [0xAB, 1, 2, 3, 0, 0, 0, 0]);
    assert_eq!(wire::segment_frame(0x01, &[]), [0x01, 0, 0, 0, 0, 0, 0, 0]);
    assert_eq!(
        wire::segment_frame(0x00, &[1, 2, 3, 4, 5, 6, 7]),
        [0x00, 1, 2, 3, 4, 5, 6, 7]
    );
}

#[test]
fn little_endian_helpers() {
    assert_eq!(wire::u32_to_le(0x0A0B_0C0D), [0x0D, 0x0C, 0x0B, 0x0A]);
    assert_eq!(wire::u32_from_le(0x0D, 0x0C, 0x0B, 0x0A), 0x0A0B_0C0D);
    assert_eq!(wire::expedited_len(0x43), 4);
    assert_eq!(wire::expedited_len(0x4B), 2);
    assert_eq!(wire::expedited_len(0x42), 4);
}

#[test]
fn client_encoders() {
    assert_eq!(enc::init_upload(0x1018, 0x02), [CCS_INIT_UPLOAD, 0x18, 0x10, 0x02, 0, 0, 0, 0]);
    assert_eq!(enc::upload_segment_request(false), [CCS_UPLOAD_SEGMENT, 0, 0, 0, 0, 0, 0, 0]);
    assert_eq!(
        enc::upload_segment_request(true),
        [CCS_UPLOAD_SEGMENT | TOGGLE_BIT, 0, 0, 0, 0, 0, 0, 0]
    );
    // 3 bytes: n = 1
    assert_eq!(
        enc::init_download_expedited(0x6040, 0x00, &[0xAA, 0xBB, 0xCC]),
        [CCS_INIT_DOWNLOAD | (1 << 2) | 0b11, 0x40, 0x60, 0x00, 0xAA, 0xBB, 0xCC, 0]
    );
    assert_eq!(
        enc::init_download_segmented(0x2001, 0x02, 300),
        [CCS_INIT_DOWNLOAD | 0b01, 0x01, 0x20, 0x02, 0x2C, 0x01, 0, 0]
    );
    assert_eq!(
        enc::download_segment(true, &[9, 8], true),
        [CCS_DOWNLOAD_SEGMENT | TOGGLE_BIT | (5 << 1) | 1, 9, 8, 0, 0, 0, 0, 0]
    );
}
