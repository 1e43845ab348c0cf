//! The minimal CAN frame view the SDO state machines work on: an 11-bit
//! COB-ID and exactly eight data bytes.

use vstd::prelude::*;

verus! {

/// COB-ID base of the requests a client sends (RSDO, client to server).
pub const COB_RSDO_BASE: u16 = 0x600;

/// COB-ID base of the responses a server sends (TSDO, server to client).
pub const COB_TSDO_BASE: u16 = 0x580;

/// A single CAN frame as seen by the SDO state machines.
#[derive(Debug, Clone, Copy, PartialEq, Eq)]
pub struct SdoFrame {
    pub cob_id: u16,
    pub data: [u8; 8],
}

/// The COB-ID on which a client sends requests to `node_id` (only the low
/// seven bits of the node id are used).
pub open spec fn spec_rsdo_id(node_id: u8) -> u16 {
    COB_RSDO_BASE | ((node_id as u16) & 0x7F)
}

/// The COB-ID on which the server of `node_id` responds.
pub open spec fn spec_tsdo_id(node_id: u8) -> u16 {
    COB_TSDO_BASE | ((node_id as u16) & 0x7F)
}

/// The node whose TSDO COB-ID `cob_id` is, if it is one.
pub open spec fn spec_node_of_tsdo(cob_id: u16) -> Option<u8> {
    if cob_id & 0x780 == COB_TSDO_BASE {
        Some((cob_id & 0x7F) as u8)
    } else {
        None
    }
}

/// The node whose RSDO COB-ID `cob_id` is, if it is one.
pub open spec fn spec_node_of_rsdo(cob_id: u16) -> Option<u8> {
    if cob_id & 0x780 == COB_RSDO_BASE {
        Some((cob_id & 0x7F) as u8)
    } else {
        None
    }
}

/// A frame as plain values: its COB-ID and its eight data bytes.
pub struct FrameView {
    pub cob_id: u16,
    pub data: Seq<u8>,
}

impl View for SdoFrame {
    type V = FrameView;

    open spec fn view(&self) -> FrameView {
        FrameView { cob_id: self.cob_id, data: self.data@ }
    }
}

/// The view of an optional frame.
pub open spec fn opt_frame(f: Option<SdoFrame>) -> Option<FrameView> {
    match f {
        Some(f) => Some(f@),
        None => None,
    }
}

impl SdoFrame {
    pub fn new(cob_id: u16, data: [u8; 8]) -> (f: Self)
        ensures
            f.cob_id == cob_id,
            f.data == data,
    {
        Self { cob_id, data }
    }

    /// COB-ID an SDO client uses to send a request to `node_id`.
    pub fn rsdo_id(node_id: u8) -> (id: u16)
        ensures
            id == spec_rsdo_id(node_id),
    {
        COB_RSDO_BASE | (node_id as u16 & 0x7F)
    }

    /// COB-ID a server uses to respond on behalf of `node_id`.
    pub fn tsdo_id(node_id: u8) -> (id: u16)
        ensures
            id == spec_tsdo_id(node_id),
    {
        COB_TSDO_BASE | (node_id as u16 & 0x7F)
    }

    /// The node id of a TSDO COB-ID; `None` if `cob_id` is not a TSDO id.
    pub fn node_of_tsdo(cob_id: u16) -> (node: Option<u8>)
        ensures
            node == spec_node_of_tsdo(cob_id),
    {
        if cob_id & 0x780 == COB_TSDO_BASE {
            Some((cob_id & 0x7F) as u8)
        } else {
            None
        }
    }

    /// The node id of an RSDO COB-ID; `None` if `cob_id` is not an RSDO id.
    pub fn node_of_rsdo(cob_id: u16) -> (node: Option<u8>)
        ensures
            node == spec_node_of_rsdo(cob_id),
    {
        if cob_id & 0x780 == COB_RSDO_BASE {
            Some((cob_id & 0x7F) as u8)
        } else {
            None
        }
    }
}

/// Addressing a node and reading the node back agree: the TSDO and RSDO
/// COB-IDs of a node decode to that node's low seven bits, and an RSDO id is
/// never taken for a TSDO id or the other way round.
pub proof fn lemma_cob_id_roundtrip(node_id: u8)
    ensures
        spec_node_of_tsdo(spec_tsdo_id(node_id)) == Some((node_id % 128) as u8),
        spec_node_of_rsdo(spec_rsdo_id(node_id)) == Some((node_id % 128) as u8),
        spec_node_of_tsdo(spec_rsdo_id(node_id)) is None,
        spec_node_of_rsdo(spec_tsdo_id(node_id)) is None,
{
    let n = node_id as u16;
    assert((0x580u16 | (n & 0x7F)) & 0x780 == 0x580u16) by (bit_vector);
    assert((0x600u16 | (n & 0x7F)) & 0x780 == 0x600u16) by (bit_vector);
    assert(((0x580u16 | (n & 0x7F)) & 0x7F) == n % 128) by (bit_vector);
    assert(((0x600u16 | (n & 0x7F)) & 0x7F) == n % 128) by (bit_vector);
}

/// The SDO COB-IDs of CiA 301's predefined connection set: a node `n` in
/// 1..=127 receives requests on `0x600 + n` and answers on `0x580 + n`; among
/// the 11-bit identifiers exactly `0x600 + n` / `0x580 + n` for n in
/// 0..=127 name a node, and they name node `n`.
pub proof fn lemma_cob_id_values(node_id: u8, cob_id: u16)
    ensures
        node_id <= 127 ==> spec_rsdo_id(node_id) == 0x600 + node_id,
        node_id <= 127 ==> spec_tsdo_id(node_id) == 0x580 + node_id,
        cob_id <= 0x7FF ==> (spec_node_of_rsdo(cob_id) is Some <==> 0x600 <= cob_id <= 0x67F),
        cob_id <= 0x7FF ==> (spec_node_of_tsdo(cob_id) is Some <==> 0x580 <= cob_id <= 0x5FF),
        cob_id <= 0x7FF ==> (spec_node_of_rsdo(cob_id) matches Some(n) ==> cob_id == 0x600 + n),
        cob_id <= 0x7FF ==> (spec_node_of_tsdo(cob_id) matches Some(n) ==> cob_id == 0x580 + n),
{
    let n = node_id as u16;
    assert(n <= 127 ==> (0x600u16 | (n & 0x7F)) == 0x600 + n) by (bit_vector);
    assert(n <= 127 ==> (0x580u16 | (n & 0x7F)) == 0x580 + n) by (bit_vector);
    assert(cob_id <= 0x7FF ==> ((cob_id & 0x780 == 0x600u16) <==> (0x600 <= cob_id && cob_id <= 0x67F))) by (bit_vector);
    assert(cob_id <= 0x7FF ==> ((cob_id & 0x780 == 0x580u16) <==> (0x580 <= cob_id && cob_id <= 0x5FF))) by (bit_vector);
    assert(cob_id <= 0x7FF && cob_id & 0x780 == 0x600u16 ==> cob_id == 0x600 + (cob_id & 0x7F)) by (bit_vector);
    assert(cob_id <= 0x7FF && cob_id & 0x780 == 0x580u16 ==> cob_id == 0x580 + (cob_id & 0x7F)) by (bit_vector);
    assert(cob_id & 0x7F <= 0x7F) by (bit_vector);
}

} // verus!
