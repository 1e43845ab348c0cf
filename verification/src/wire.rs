//! The CiA 301 SDO wire format shared by the client and the server: the
//! command specifiers, the byte layout of init and abort frames, and the
//! segment command byte, so that the two roles cannot drift apart.

use vstd::prelude::*;

use crate::abort::{spec_abort_raw, SdoAbortCode};

verus! {

// ---- Client command specifiers (ccs), top three bits of byte 0 ----
pub const CCS_DOWNLOAD_SEGMENT: u8 = 0x00;
pub const CCS_INIT_DOWNLOAD: u8 = 0x20;
pub const CCS_INIT_UPLOAD: u8 = 0x40;
pub const CCS_UPLOAD_SEGMENT: u8 = 0x60;
pub const CS_ABORT: u8 = 0x80;

// ---- Server command specifiers (scs) ----
pub const SCS_UPLOAD_SEGMENT: u8 = 0x00;
pub const SCS_DOWNLOAD_SEGMENT: u8 = 0x20;
pub const SCS_INIT_UPLOAD: u8 = 0x40;
pub const SCS_INIT_DOWNLOAD: u8 = 0x60;

/// The bits of byte 0 that hold the command specifier.
pub const CS_MASK: u8 = 0xE0;

/// The toggle bit of a segment command byte.
pub const TOGGLE_BIT: u8 = 0x10;

// ---------- little-endian integers ----------

/// Low byte of a 16-bit value.
pub open spec fn lo_byte(x: u16) -> u8 {
    (x % 256) as u8
}

/// High byte of a 16-bit value.
pub open spec fn hi_byte(x: u16) -> u8 {
    (x / 256) as u8
}

/// The 16-bit value of two little-endian bytes.
pub open spec fn le_u16(b0: u8, b1: u8) -> u16 {
    (b0 + 256 * b1) as u16
}

/// The four little-endian bytes of a 32-bit value.
pub open spec fn le_u32_bytes(x: u32) -> Seq<u8> {
    seq![(x % 256) as u8, (x / 256 % 256) as u8, (x / 65536 % 256) as u8, (x / 16777216) as u8]
}

/// The 32-bit value of four little-endian bytes.
pub open spec fn le_u32(b0: u8, b1: u8, b2: u8, b3: u8) -> u32 {
    (b0 + 256 * b1 + 65536 * b2 + 16777216 * b3) as u32
}

/// The 32-bit value held little-endian in bytes 4..8 of a frame.
pub open spec fn le_u32_at4(d: Seq<u8>) -> u32 {
    le_u32(d[4], d[5], d[6], d[7])
}

// ---------- frame fields ----------

/// Byte 0 to 3 of an init or abort frame: command byte, index, sub-index.
pub open spec fn spec_header(cmd: u8, idx: u16, sub: u8) -> Seq<u8> {
    seq![cmd, lo_byte(idx), hi_byte(idx), sub]
}

/// The index held in bytes 1..3 of an init or abort frame.
pub open spec fn spec_index_of(d: Seq<u8>) -> u16 {
    le_u16(d[1], d[2])
}

/// The eight bytes of an abort frame.
pub open spec fn spec_abort_frame(idx: u16, sub: u8, code: SdoAbortCode) -> Seq<u8> {
    spec_header(CS_ABORT, idx, sub) + le_u32_bytes(spec_abort_raw(code))
}

/// The payload length that a segment command byte announces: `7 - n`, with
/// `n` in bits 1..4.
pub open spec fn spec_segment_len(cmd: u8) -> int {
    7 - ((cmd >> 1) & 7)
}

/// Whether a segment command byte marks the final segment (bit 0, `c`).
pub open spec fn spec_segment_last(cmd: u8) -> bool {
    cmd & 1 != 0
}

/// Whether the toggle bit of a command byte is set.
pub open spec fn spec_toggle(cmd: u8) -> bool {
    cmd & TOGGLE_BIT != 0
}

/// The segment command byte for command specifier `cs`, the toggle, a
/// payload of `payload_len` bytes and the final-segment flag.
pub open spec fn spec_segment_cmd(cs: u8, toggle: bool, payload_len: int, last: bool) -> u8 {
    cs | (if toggle { TOGGLE_BIT } else { 0u8 }) | (((7 - payload_len) as u8) << 1u8) | (if last {
        1u8
    } else {
        0u8
    })
}

/// `n` zero bytes.
pub open spec fn zeros(n: int) -> Seq<u8> {
    Seq::new(n as nat, |i: int| 0u8)
}

/// The eight bytes of a segment frame: the command byte, the payload and
/// zero padding.
pub open spec fn spec_segment_frame(cmd: u8, payload: Seq<u8>) -> Seq<u8> {
    seq![cmd] + payload + zeros(7 - payload.len())
}

/// Command byte of an expedited initiate frame with command specifier `cs`
/// carrying `len` (1 to 4) bytes: e=1, s=1, n=4-len.
pub open spec fn spec_expedited_cmd(cs: u8, len: int) -> u8 {
    cs | (((4 - len) as u8) << 2u8) | 3u8
}

/// The eight bytes of an expedited initiate frame carrying `data` inline.
pub open spec fn spec_expedited_init_frame(cs: u8, idx: u16, sub: u8, data: Seq<u8>) -> Seq<u8> {
    spec_header(spec_expedited_cmd(cs, data.len() as int), idx, sub) + data + zeros(4 - data.len())
}

/// The eight bytes of a segmented initiate frame announcing `total_len`
/// bytes: e=0, s=1.
pub open spec fn spec_segmented_init_frame(cs: u8, idx: u16, sub: u8, total_len: u32) -> Seq<u8> {
    spec_header(cs | 1u8, idx, sub) + le_u32_bytes(total_len)
}

/// How many bytes an expedited initiate frame with command byte `cmd`
/// carries: `4 - n` when the size is indicated (s=1), otherwise all four.
pub open spec fn spec_expedited_len(cmd: u8) -> int {
    if cmd & 1 != 0 {
        4 - ((cmd >> 2u8) & 3)
    } else {
        4
    }
}

// ---------- executable codec ----------

/// The four little-endian bytes of `x`.
pub fn u32_to_le(x: u32) -> (b: [u8; 4])
    ensures
        b@ == le_u32_bytes(x),
{
    [(x % 256) as u8, (x / 256 % 256) as u8, (x / 65536 % 256) as u8, (x / 16777216) as u8]
}

/// The value of four little-endian bytes.
pub fn u32_from_le(b0: u8, b1: u8, b2: u8, b3: u8) -> (x: u32)
    ensures
        x == le_u32(b0, b1, b2, b3),
{
    b0 as u32 + 256 * (b1 as u32) + 65536 * (b2 as u32) + 16777216 * (b3 as u32)
}

/// Index (bytes 1..3) of an init or abort frame.
pub fn index_of(data: &[u8; 8]) -> (idx: u16)
    ensures
        idx == spec_index_of(data@),
{
    data[1] as u16 + 256 * (data[2] as u16)
}

/// Sub-index (byte 3) of an init or abort frame.
pub fn subindex_of(data: &[u8; 8]) -> (sub: u8)
    ensures
        sub == data@[3],
{
    data[3]
}

/// The eight-byte header-plus-value layout shared by init and abort frames.
pub fn header_frame(cmd: u8, idx: u16, sub: u8, value: [u8; 4]) -> (out: [u8; 8])
    ensures
        out@ == spec_header(cmd, idx, sub) + value@,
{
    let out = [cmd, (idx % 256) as u8, (idx / 256) as u8, sub, value[0], value[1], value[2], value[3]];
    assert(out@ =~= spec_header(cmd, idx, sub) + value@);
    out
}

/// The eight-byte abort payload (the same layout client- and server-side).
pub fn abort(idx: u16, sub: u8, code: SdoAbortCode) -> (out: [u8; 8])
    ensures
        out@ == spec_abort_frame(idx, sub, code),
{
    header_frame(CS_ABORT, idx, sub, u32_to_le(code.raw()))
}

/// An expedited initiate frame with command specifier `cs` carrying `data`
/// (1 to 4 bytes) inline.
pub fn expedited_init_frame(cs: u8, idx: u16, sub: u8, data: &[u8]) -> (out: [u8; 8])
    requires
        1 <= data@.len() <= 4,
    ensures
        out@ == spec_expedited_init_frame(cs, idx, sub, data@),
{
    let n = (4 - data.len()) as u8;
    let cmd = cs | (n << 2) | 0b11;
    let b0 = data[0];
    let b1 = byte_or_zero(data, 1);
    let b2 = byte_or_zero(data, 2);
    let b3 = byte_or_zero(data, 3);
    let out = header_frame(cmd, idx, sub, [b0, b1, b2, b3]);
    assert(out@ =~= spec_expedited_init_frame(cs, idx, sub, data@));
    out
}

/// A segmented initiate frame with command specifier `cs` announcing
/// `total_len` bytes.
pub fn segmented_init_frame(cs: u8, idx: u16, sub: u8, total_len: u32) -> (out: [u8; 8])
    ensures
        out@ == spec_segmented_init_frame(cs, idx, sub, total_len),
{
    header_frame(cs | 0b01, idx, sub, u32_to_le(total_len))
}

/// How many bytes an expedited initiate frame with command byte `cmd`
/// carries.
pub fn expedited_len(cmd: u8) -> (len: usize)
    ensures
        len == spec_expedited_len(cmd),
        1 <= len <= 4,
{
    if (cmd & 0b01) != 0 {
        let n = (cmd >> 2) & 0b11;
        assert((cmd >> 2u8) & 3 <= 3) by (bit_vector);
        4 - n as usize
    } else {
        4
    }
}

/// Decode a segment command byte (upload-segment scs or download-segment
/// ccs): the payload length `7 - n` and whether it is the final segment.
pub fn decode_segment(cmd: u8) -> (r: (usize, bool))
    ensures
        r.0 == spec_segment_len(cmd),
        r.1 == spec_segment_last(cmd),
        r.0 <= 7,
        r.0 == 7 - ((cmd >> 1) & 7),
        r.1 == (cmd & 1 == 1),
{
    let n = ((cmd >> 1) & 0b111) as usize;
    assert((cmd >> 1) & 7 <= 7) by (bit_vector);
    let payload_len = 7 - n;
    let complete = (cmd & 0b1) != 0;
    proof {
        lemma_segment_len_field(cmd);
    }
    (payload_len, complete)
}

/// Build a segment command byte; `cs` is [`CCS_DOWNLOAD_SEGMENT`] (client)
/// or [`SCS_UPLOAD_SEGMENT`] (server).
pub fn segment_cmd(cs: u8, toggle: bool, payload_len: usize, last: bool) -> (cmd: u8)
    requires
        payload_len <= 7,
    ensures
        cmd == spec_segment_cmd(cs, toggle, payload_len as int, last),
        cs & 0x1F == 0 ==> (cmd >> 1) & 7 == 7 - payload_len && (cmd & 1 == 1) == last && (cmd
            & 0x10 == 0x10) == toggle && cmd & 0xE0 == cs,
{
    proof {
        if cs & 0x1F == 0 {
            lemma_segment_cmd_fields(cs, toggle, payload_len as int, last);
        }
    }
    let n = (7 - payload_len) as u8;
    cs | (if toggle { TOGGLE_BIT } else { 0 }) | (n << 1) | (if last { 1 } else { 0 })
}

/// Byte `i` of `payload`, or zero past its end.
fn byte_or_zero(payload: &[u8], i: usize) -> (b: u8)
    ensures
        b == (if i < payload@.len() { payload@[i as int] } else { 0u8 }),
{
    if i < payload.len() {
        payload[i]
    } else {
        0
    }
}

/// Build a segment frame from a command byte and up to seven payload bytes.
pub fn segment_frame(cmd: u8, payload: &[u8]) -> (out: [u8; 8])
    requires
        payload@.len() <= 7,
    ensures
        out@ == spec_segment_frame(cmd, payload@),
{
    let out = [
        cmd,
        byte_or_zero(payload, 0),
        byte_or_zero(payload, 1),
        byte_or_zero(payload, 2),
        byte_or_zero(payload, 3),
        byte_or_zero(payload, 4),
        byte_or_zero(payload, 5),
        byte_or_zero(payload, 6),
    ];
    assert(out@ =~= spec_segment_frame(cmd, payload@));
    out
}

// ---------- laws of the codec ----------

/// The segment command byte round-trips: for a command specifier with its
/// low five bits clear and a payload of at most seven bytes, the command
/// specifier, the toggle, the payload length and the final-segment flag are
/// read back unchanged.
pub proof fn lemma_segment_cmd_roundtrip(cs: u8, toggle: bool, payload_len: int, last: bool)
    requires
        cs & 0x1F == 0,
        0 <= payload_len <= 7,
    ensures
        ({
            let cmd = spec_segment_cmd(cs, toggle, payload_len, last);
            &&& cmd & CS_MASK == cs
            &&& spec_toggle(cmd) == toggle
            &&& spec_segment_len(cmd) == payload_len
            &&& spec_segment_last(cmd) == last
        }),
{
    let n: u8 = (7 - payload_len) as u8;
    let t: u8 = if toggle { TOGGLE_BIT } else { 0u8 };
    let l: u8 = if last { 1u8 } else { 0u8 };
    assert(n <= 7);
    assert(t == 0 || t == 0x10);
    assert(l == 0 || l == 1);
    assert({
        let cmd = cs | t | (n << 1u8) | l;
        &&& cmd & 0xE0 == cs
        &&& (cmd & 0x10 != 0) == (t == 0x10)
        &&& (cmd >> 1u8) & 7 == n
        &&& (cmd & 1 != 0) == (l == 1)
    }) by (bit_vector)
        requires
            cs & 0x1F == 0,
            n <= 7,
            t == 0 || t == 0x10,
            l == 0 || l == 1,
    ;
}

/// Every command specifier leaves the low five bits of byte 0 free, and the
/// specifiers of each direction are distinct.
pub proof fn lemma_cs_constants()
    ensures
        CCS_DOWNLOAD_SEGMENT & 0x1F == 0,
        CCS_INIT_DOWNLOAD & 0x1F == 0,
        CCS_INIT_UPLOAD & 0x1F == 0,
        CCS_UPLOAD_SEGMENT & 0x1F == 0,
        CS_ABORT & 0x1F == 0,
        SCS_UPLOAD_SEGMENT & 0x1F == 0,
        SCS_DOWNLOAD_SEGMENT & 0x1F == 0,
        SCS_INIT_UPLOAD & 0x1F == 0,
        SCS_INIT_DOWNLOAD & 0x1F == 0,
{
    assert(0x00u8 & 0x1F == 0 && 0x20u8 & 0x1F == 0 && 0x40u8 & 0x1F == 0 && 0x60u8 & 0x1F == 0
        && 0x80u8 & 0x1F == 0) by (bit_vector);
}

/// A command byte made of a command specifier and the toggle bit reads back
/// both.
pub proof fn lemma_toggled_cmd(cs: u8, toggle: bool)
    requires
        cs & 0x1F == 0,
    ensures
        (cs | (if toggle { TOGGLE_BIT } else { 0u8 })) & CS_MASK == cs,
        spec_toggle(cs | (if toggle { TOGGLE_BIT } else { 0u8 })) == toggle,
{
    let t: u8 = if toggle { TOGGLE_BIT } else { 0u8 };
    assert((cs | t) & 0xE0 == cs && ((cs | t) & 0x10 != 0) == (t == 0x10)) by (bit_vector)
        requires
            cs & 0x1F == 0,
            t == 0 || t == 0x10,
    ;
}

/// An expedited initiate command byte reads back its command specifier, the
/// expedited and size-indicated flags and the byte count.
pub proof fn lemma_expedited_cmd(cs: u8, len: int)
    requires
        cs & 0x1F == 0,
        1 <= len <= 4,
    ensures
        spec_expedited_cmd(cs, len) & CS_MASK == cs,
        spec_expedited_cmd(cs, len) & 2 != 0,
        spec_expedited_len(spec_expedited_cmd(cs, len)) == len,
{
    let n: u8 = (4 - len) as u8;
    assert({
        let cmd = cs | (n << 2u8) | 3u8;
        &&& cmd & 0xE0 == cs
        &&& cmd & 2 != 0
        &&& cmd & 1 != 0
        &&& (cmd >> 2u8) & 3 == n
    }) by (bit_vector)
        requires
            cs & 0x1F == 0,
            n <= 3,
    ;
}

/// A segmented initiate command byte reads back its command specifier and
/// the flags e=0, s=1.
pub proof fn lemma_segmented_cmd(cs: u8)
    requires
        cs & 0x1F == 0,
    ensures
        (cs | 1u8) & CS_MASK == cs,
        (cs | 1u8) & 2 == 0,
        (cs | 1u8) & 1 != 0,
{
    assert((cs | 1u8) & 0xE0 == cs && (cs | 1u8) & 2 == 0 && (cs | 1u8) & 1 != 0) by (bit_vector)
        requires
            cs & 0x1F == 0,
    ;
}

/// The index and sub-index of a header read back as written.
pub proof fn lemma_header_fields(cmd: u8, idx: u16, sub: u8, rest: Seq<u8>)
    ensures
        (spec_header(cmd, idx, sub) + rest)[0] == cmd,
        spec_index_of(spec_header(cmd, idx, sub) + rest) == idx,
        (spec_header(cmd, idx, sub) + rest)[3] == sub,
{
    let d = spec_header(cmd, idx, sub) + rest;
    assert(d[1] == lo_byte(idx));
    assert(d[2] == hi_byte(idx));
}

/// Little-endian 32-bit values round-trip through their four bytes.
pub proof fn lemma_le_u32_roundtrip(x: u32)
    ensures
        ({
            let b = le_u32_bytes(x);
            le_u32(b[0], b[1], b[2], b[3]) == x
        }),
{
}

/// Little-endian 16-bit values round-trip through their two bytes.
pub proof fn lemma_le_u16_roundtrip(x: u16)
    ensures
        le_u16(lo_byte(x), hi_byte(x)) == x,
{
}

/// The fields of an abort frame read back as written: index, sub-index, the
/// abort command specifier and the raw code.
pub proof fn lemma_abort_frame_fields(idx: u16, sub: u8, code: SdoAbortCode)
    ensures
        ({
            let d = spec_abort_frame(idx, sub, code);
            &&& d.len() == 8
            &&& d[0] & CS_MASK == CS_ABORT
            &&& spec_index_of(d) == idx
            &&& d[3] == sub
            &&& le_u32_at4(d) == spec_abort_raw(code)
        }),
{
    let d = spec_abort_frame(idx, sub, code);
    lemma_le_u32_roundtrip(spec_abort_raw(code));
    assert(CS_ABORT & CS_MASK == CS_ABORT) by (bit_vector);
    assert(d[4] == le_u32_bytes(spec_abort_raw(code))[0]);
    assert(d[5] == le_u32_bytes(spec_abort_raw(code))[1]);
    assert(d[6] == le_u32_bytes(spec_abort_raw(code))[2]);
    assert(d[7] == le_u32_bytes(spec_abort_raw(code))[3]);
}

/// The fields of a segment command byte (CiA 301): bits 5..8 hold the
/// command specifier, bit 4 the toggle, bits 1..4 the count `n` of unused
/// data bytes, bit 0 the final-segment flag `c`. A segment carries `7 - n`
/// payload bytes, for every byte value.
pub proof fn lemma_segment_len_field(cmd: u8)
    ensures
        spec_segment_len(cmd) == 7 - ((cmd >> 1) & 7),
        0 <= spec_segment_len(cmd) <= 7,
        spec_segment_last(cmd) == (cmd & 1 == 1),
        spec_toggle(cmd) == (cmd & 0x10 == 0x10),
{
    assert((cmd >> 1) & 7 <= 7) by (bit_vector);
    assert((cmd & 1 != 0) == (cmd & 1 == 1)) by (bit_vector);
    assert((cmd & 0x10 != 0) == (cmd & 0x10 == 0x10)) by (bit_vector);
}

/// A built segment command byte holds, bit for bit, what CiA 301 puts
/// there: the command specifier in bits 5..8, the toggle in bit 4, the
/// number of unused bytes `7 - payload_len` in bits 1..4 and the
/// final-segment flag in bit 0.
pub proof fn lemma_segment_cmd_fields(cs: u8, toggle: bool, payload_len: int, last: bool)
    requires
        cs & 0x1F == 0,
        0 <= payload_len <= 7,
    ensures
        ({
            let cmd = spec_segment_cmd(cs, toggle, payload_len, last);
            &&& cmd & 0xE0 == cs
            &&& (cmd & 0x10 == 0x10) == toggle
            &&& (cmd >> 1) & 7 == 7 - payload_len
            &&& (cmd & 1 == 1) == last
        }),
{
    lemma_segment_cmd_roundtrip(cs, toggle, payload_len, last);
    let cmd = spec_segment_cmd(cs, toggle, payload_len, last);
    lemma_segment_len_field(cmd);
}

/// The fields of an expedited initiate command byte (CiA 301): bit 1 `e`,
/// bit 0 `s`, bits 2..4 the count `n` of unused data bytes. With the size
/// indicated the frame carries `4 - n` bytes, otherwise all four; a built
/// byte sets `e` and `s` and puts `4 - len` in `n`.
pub proof fn lemma_expedited_fields(cmd: u8, cs: u8, len: int)
    ensures
        spec_expedited_len(cmd) == (if cmd & 1 == 1 {
            4 - ((cmd >> 2) & 3)
        } else {
            4
        }),
        (cs & 0x1F == 0 && 1 <= len <= 4) ==> {
            let c = spec_expedited_cmd(cs, len);
            &&& c & 0xE0 == cs
            &&& c & 3 == 3
            &&& (c >> 2) & 3 == 4 - len
        },
{
    assert((cmd & 1 != 0) == (cmd & 1 == 1)) by (bit_vector);
    if cs & 0x1F == 0 && 1 <= len <= 4 {
        let n: u8 = (4 - len) as u8;
        assert({
            let c = cs | (n << 2u8) | 3u8;
            &&& c & 0xE0 == cs
            &&& c & 3 == 3
            &&& (c >> 2) & 3 == n
        }) by (bit_vector)
            requires
                cs & 0x1F == 0,
                n <= 3,
        ;
    }
}

/// The bytes of the frames the two roles build, as CiA 301 lays them out:
/// byte 0 the command byte, bytes 1..3 the index little-endian, byte 3 the
/// sub-index, bytes 4..8 the data; an expedited frame sets `e` and `s`, puts
/// `4 - len` in `n` and its `len` data bytes first in bytes 4..8, zero
/// after; a segmented initiate frame sets `s` only and puts the total size
/// little-endian in bytes 4..8; a segment frame carries its payload in bytes
/// 1.. after the command byte, zero after.
pub proof fn lemma_frame_bytes(cs: u8, idx: u16, sub: u8, data: Seq<u8>, total: u32, cmd: u8)
    requires
        cs & 0x1F == 0,
    ensures
        (1 <= data.len() <= 4) ==> {
            let f = spec_expedited_init_frame(cs, idx, sub, data);
            &&& f.len() == 8
            &&& f[0] & 0xE0 == cs
            &&& f[0] & 3 == 3
            &&& (f[0] >> 2) & 3 == 4 - data.len()
            &&& f[1] as int == idx as int % 256
            &&& f[2] as int == idx as int / 256
            &&& f[3] == sub
            &&& f.subrange(4, 4 + data.len() as int) == data
            &&& forall|i: int| 4 + data.len() <= i < 8 ==> f[i] == 0
        },
        ({
            let f = spec_segmented_init_frame(cs, idx, sub, total);
            &&& f.len() == 8
            &&& f[0] & 0xE0 == cs
            &&& f[0] & 3 == 1
            &&& f[1] as int == idx as int % 256
            &&& f[2] as int == idx as int / 256
            &&& f[3] == sub
            &&& le_u32_at4(f) == total
        }),
        (data.len() <= 7) ==> {
            let f = spec_segment_frame(cmd, data);
            &&& f.len() == 8
            &&& f[0] == cmd
            &&& f.subrange(1, 1 + data.len() as int) == data
            &&& forall|i: int| 1 + data.len() <= i < 8 ==> f[i] == 0
        },
{
    if 1 <= data.len() <= 4 {
        lemma_expedited_fields(0, cs, data.len() as int);
        let f = spec_expedited_init_frame(cs, idx, sub, data);
        assert(f.subrange(4, 4 + data.len() as int) =~= data);
    }
    let g = spec_segmented_init_frame(cs, idx, sub, total);
    let c1 = cs | 1u8;
    assert(c1 & 0xE0 == cs && c1 & 3 == 1) by (bit_vector)
        requires
            cs & 0x1F == 0,
            c1 == cs | 1u8,
    ;
    lemma_le_u32_roundtrip(total);
    assert(g[4] == le_u32_bytes(total)[0]);
    assert(g[5] == le_u32_bytes(total)[1]);
    assert(g[6] == le_u32_bytes(total)[2]);
    assert(g[7] == le_u32_bytes(total)[3]);
    if data.len() <= 7 {
        let f = spec_segment_frame(cmd, data);
        assert(f.subrange(1, 1 + data.len() as int) =~= data);
    }
}

} // verus!
