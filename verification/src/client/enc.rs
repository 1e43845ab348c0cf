//! Client-side encoders of the SDO request frames.

use vstd::prelude::*;

use crate::wire::{
    expedited_init_frame, header_frame, segment_cmd, segment_frame, segmented_init_frame,
    spec_expedited_init_frame, spec_header, spec_segment_cmd, spec_segment_frame,
    spec_segmented_init_frame, zeros, CCS_DOWNLOAD_SEGMENT, CCS_INIT_DOWNLOAD, CCS_INIT_UPLOAD,
    CCS_UPLOAD_SEGMENT, TOGGLE_BIT,
};

verus! {

/// Bytes of an initiate-upload request for (`idx`, `sub`).
pub open spec fn spec_init_upload(idx: u16, sub: u8) -> Seq<u8> {
    spec_header(CCS_INIT_UPLOAD, idx, sub) + zeros(4)
}

/// Bytes of an upload-segment request carrying `toggle`.
pub open spec fn spec_upload_segment_request(toggle: bool) -> Seq<u8> {
    seq![CCS_UPLOAD_SEGMENT | (if toggle { TOGGLE_BIT } else { 0u8 })] + zeros(7)
}

/// Bytes of an expedited initiate-download of `data` (1 to 4 bytes).
pub open spec fn spec_init_download_expedited(idx: u16, sub: u8, data: Seq<u8>) -> Seq<u8> {
    spec_expedited_init_frame(CCS_INIT_DOWNLOAD, idx, sub, data)
}

/// Bytes of a segmented initiate-download announcing `total_len` bytes.
pub open spec fn spec_init_download_segmented(idx: u16, sub: u8, total_len: u32) -> Seq<u8> {
    spec_segmented_init_frame(CCS_INIT_DOWNLOAD, idx, sub, total_len)
}

/// Bytes of a download segment carrying `payload`.
pub open spec fn spec_download_segment(toggle: bool, payload: Seq<u8>, last: bool) -> Seq<u8> {
    spec_segment_frame(
        spec_segment_cmd(CCS_DOWNLOAD_SEGMENT, toggle, payload.len() as int, last),
        payload,
    )
}

pub fn init_upload(idx: u16, sub: u8) -> (out: [u8; 8])
    ensures
        out@ == spec_init_upload(idx, sub),
{
    let out = header_frame(CCS_INIT_UPLOAD, idx, sub, [0u8; 4]);
    assert(out@ =~= spec_init_upload(idx, sub));
    out
}

pub fn upload_segment_request(toggle: bool) -> (out: [u8; 8])
    ensures
        out@ == spec_upload_segment_request(toggle),
{
    let cmd = CCS_UPLOAD_SEGMENT | if toggle { TOGGLE_BIT } else { 0 };
    let out = [cmd, 0, 0, 0, 0, 0, 0, 0];
    assert(out@ =~= spec_upload_segment_request(toggle));
    out
}

pub fn init_download_expedited(idx: u16, sub: u8, data: &[u8]) -> (out: [u8; 8])
    requires
        1 <= data@.len() <= 4,
    ensures
        out@ == spec_init_download_expedited(idx, sub, data@),
{
    expedited_init_frame(CCS_INIT_DOWNLOAD, idx, sub, data)
}

pub fn init_download_segmented(idx: u16, sub: u8, total_len: u32) -> (out: [u8; 8])
    ensures
        out@ == spec_init_download_segmented(idx, sub, total_len),
{
    segmented_init_frame(CCS_INIT_DOWNLOAD, idx, sub, total_len)
}

pub fn download_segment(toggle: bool, payload: &[u8], last: bool) -> (out: [u8; 8])
    requires
        payload@.len() <= 7,
    ensures
        out@ == spec_download_segment(toggle, payload@, last),
{
    let cmd = segment_cmd(CCS_DOWNLOAD_SEGMENT, toggle, payload.len(), last);
    segment_frame(cmd, payload)
}

} // verus!
