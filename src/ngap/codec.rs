//! The NGAP PDU codec: the message decoders over the IE walk, the
//! encoders of the NG Setup outcomes, and the PDU frame in both directions.

use vstd::prelude::*;
use crate::error::{DecodeError, EncodeError};
use crate::bytes_buf::{bytes_contents, bytes_from_vec};
use bytes::Bytes;
use crate::ngap::aper::{aper_length_octets, decode_aper_length, encode_aper_length, spec_aper_length};
use crate::ngap::ies::{be16, content, ie_walk, last_ie, lemma_last_ie_push, lemma_prepend_step, lemma_prepend_stop, next_ie, prepend, value_ies, IeNext, IeRef};
use crate::ngap::messages::{spec_node_type, 
    BroadcastPlmnItem, BroadcastView, Cause, GlobalGnbId, GlobalN3iwfId, GlobalNgEnbId,
    GlobalRanNodeId, GlobalTngfId, GlobalTwifId, GlobalWagfId, GnbId, InitialUeMessage, NgEnbId,
    NgSetupFailure, NgSetupRequest, NgSetupResponse, NrCgi, PlmnIdentity, PlmnSupportItem,
    PlmnView, ServedGuami, SliceSupportItem, SliceView, SNssai, SupportedTaItem, Tai, TaView,
    UserLocationInfo, spec_node_plmn, spec_node_value,
};
use crate::text::{hex2, hex3, push_hex2, push_hex3, utf8_text, hex_decode, hex_number, hex_octets, hex_text, is_hex_text, parse_hex_number, push_hex_text};
use crate::utils::encoding::{encode_plmn, plmn_octets, plmn_text, spec_mcc_of, spec_mnc_of, valid_plmn_text};
use vstd::utf8::encode_utf8;

verus! {

/// The PLMN held in three octets.
pub open spec fn plmn_view_of(b: Seq<u8>) -> PlmnView {
    PlmnView { mcc: spec_mcc_of(b), mnc: spec_mnc_of(b) }
}

/// Reads the PLMN in `data[start..start + 3]`.
pub fn decode_plmn_identity(data: &[u8], start: usize) -> (r: PlmnIdentity)
    requires
        start + 3 <= data@.len(),
    ensures
        r@ == plmn_view_of(data@.subrange(start as int, start + 3)),
{
    let n = data.len();
    let (mcc, mnc) = plmn_text(&data[start..start + 3]);
    PlmnIdentity { mcc, mnc }
}

// ---------------------------------------------------------------- node id

/// Whether a Global RAN Node ID content can be read: a choice tag, a PLMN,
/// an id header and at least one octet of identifier, under a known tag.
pub open spec fn node_id_status(data: Seq<u8>) -> Result<(), DecodeError> {
    if data.len() <= 5 {
        Err(DecodeError::ShortBuffer)
    } else if data[0] > 5 {
        Err(DecodeError::UnknownNodeTypeTag(data[0]))
    } else {
        Ok(())
    }
}

/// `n` is the node that the content `data` names: the kind from the tag,
/// the PLMN from octets 1 to 3, the identifier as the hex text of what
/// follows the id header. A gNB also records the identifier's width in bits.
pub open spec fn node_id_decoded(n: GlobalRanNodeId, data: Seq<u8>) -> bool {
    &&& spec_node_plmn(n)@ == plmn_view_of(data.subrange(1, 4))
    &&& spec_node_value(n) == hex_text(data.subrange(5, data.len() as int))
    &&& match n {
        GlobalRanNodeId::GNB(g) => data[0] == 0 && match g.gnb_id {
            GnbId::GnbId { bit_length, .. } => bit_length == ((data.len() - 5) * 8 % 256) as u8,
        },
        GlobalRanNodeId::NgENB(g) => data[0] == 1 && g.ng_enb_id is MacroNgEnbId,
        GlobalRanNodeId::N3IWF(_) => data[0] == 2,
        GlobalRanNodeId::TNGF(_) => data[0] == 3,
        GlobalRanNodeId::TWIF(_) => data[0] == 4,
        GlobalRanNodeId::WAGF(_) => data[0] == 5,
    }
}

/// Reads a Global RAN Node ID from the whole of `data`; the second value is
/// the number of octets consumed.
pub fn decode_global_ran_node_id(data: &[u8]) -> (r: Result<(GlobalRanNodeId, usize), DecodeError>)
    ensures
        match r {
            Ok((n, consumed)) => node_id_status(data@) is Ok && node_id_decoded(n, data@)
                && consumed == data@.len(),
            Err(e) => node_id_status(data@) == Err::<(), DecodeError>(e),
        },
{
    if data.len() <= 5 {
        return Err(DecodeError::ShortBuffer);
    }
    let choice_tag = data[0];
    let plmn = decode_plmn_identity(data, 1);
    let remaining = data.len() - 5;
    let bit_length = (remaining % 32 * 8) as u8;
    assert(remaining % 32 * 8 == remaining * 8 % 256) by (nonlinear_arith);
    let mut value = String::new();
    push_hex_text(&mut value, data, 5, data.len());
    assert(value@ =~= hex_text(data@.subrange(5, data@.len() as int)));
    let node = match choice_tag {
        0 => GlobalRanNodeId::GNB(
            GlobalGnbId {
                plmn_identity: plmn,
                gnb_id: GnbId::GnbId { value, bit_length },
            },
        ),
        1 => GlobalRanNodeId::NgENB(
            GlobalNgEnbId { plmn_identity: plmn, ng_enb_id: NgEnbId::MacroNgEnbId(value) },
        ),
        2 => GlobalRanNodeId::N3IWF(GlobalN3iwfId { plmn_identity: plmn, n3iwf_id: value }),
        3 => GlobalRanNodeId::TNGF(GlobalTngfId { plmn_identity: plmn, tngf_id: value }),
        4 => GlobalRanNodeId::TWIF(GlobalTwifId { plmn_identity: plmn, twif_id: value }),
        5 => GlobalRanNodeId::WAGF(GlobalWagfId { plmn_identity: plmn, wagf_id: value }),
        _ => return Err(DecodeError::UnknownNodeTypeTag(choice_tag)),
    };
    Ok((node, data.len()))
}

// ------------------------------------------------------ supported TA list

/// Slices read from `cursor` on, at most `k` of them, each an extension
/// octet and an SST; `acc` holds those read so far. Returns the slices and
/// the cursor where reading stopped.
pub open spec fn slices_from(data: Seq<u8>, cursor: int, k: nat, acc: Seq<SliceView>) -> (
    Seq<SliceView>,
    int,
)
    decreases k,
{
    if k == 0 || cursor >= data.len() {
        (acc, cursor)
    } else if cursor + 1 >= data.len() {
        (acc, cursor + 1)
    } else {
        slices_from(data, cursor + 2, (k - 1) as nat, acc.push(SliceView { sst: data[cursor + 1], sd: None }))
    }
}

/// Broadcast PLMNs read from `cursor` on, at most `m` of them, each a PLMN,
/// a slice count less one and the slices.
pub open spec fn plmns_from(data: Seq<u8>, cursor: int, m: nat, acc: Seq<BroadcastView>) -> (
    Seq<BroadcastView>,
    int,
)
    decreases m,
{
    if m == 0 || cursor + 3 > data.len() {
        (acc, cursor)
    } else if cursor + 3 >= data.len() {
        (acc, cursor + 3)
    } else {
        let (slices, next) = slices_from(data, cursor + 4, (data[cursor + 3] + 1) as nat, seq![]);
        plmns_from(
            data,
            next,
            (m - 1) as nat,
            acc.push(BroadcastView { plmn: plmn_view_of(data.subrange(cursor, cursor + 3)), slices }),
        )
    }
}

/// Tracking areas read from `cursor` on, at most `n` of them, each an
/// extension octet, a three-octet TAC, a PLMN count less one and the PLMNs.
pub open spec fn tas_from(data: Seq<u8>, cursor: int, n: nat, acc: Seq<TaView>) -> (
    Seq<TaView>,
    int,
)
    decreases n,
{
    if n == 0 || cursor >= data.len() {
        (acc, cursor)
    } else if cursor + 4 > data.len() {
        (acc, cursor + 1)
    } else if cursor + 4 >= data.len() {
        (acc, cursor + 4)
    } else {
        let (plmns, next) = plmns_from(data, cursor + 5, (data[cursor + 4] + 1) as nat, seq![]);
        tas_from(
            data,
            next,
            (n - 1) as nat,
            acc.push(TaView { tac: hex_text(data.subrange(cursor + 1, cursor + 4)), plmns }),
        )
    }
}

/// The supported TA list of an IE content: a count less one, then the
/// items, keeping what could be read where the octets run out. Content
/// shorter than five octets holds no list.
pub open spec fn spec_ta_list(data: Seq<u8>) -> (Seq<TaView>, int) {
    if data.len() < 5 {
        (seq![], 0)
    } else {
        tas_from(data, 1, (data[0] + 1) as nat, seq![])
    }
}

pub open spec fn slices_view(v: Seq<SliceSupportItem>) -> Seq<SliceView> {
    v.map_values(|s: SliceSupportItem| s@)
}

pub open spec fn plmns_view(v: Seq<BroadcastPlmnItem>) -> Seq<BroadcastView> {
    v.map_values(|b: BroadcastPlmnItem| b@)
}

pub open spec fn tas_view(v: Seq<SupportedTaItem>) -> Seq<TaView> {
    v.map_values(|t: SupportedTaItem| t@)
}

fn decode_slices(data: &[u8], start: usize, count: usize) -> (r: (Vec<SliceSupportItem>, usize))
    requires
        start <= data@.len(),
    ensures
        (slices_view(r.0@), r.1 as int) == slices_from(data@, start as int, count as nat, seq![]),
        r.1 <= data@.len(),
{
    let mut list: Vec<SliceSupportItem> = Vec::new();
    let mut cursor = start;
    let mut i: usize = 0;
    assert(slices_view(list@) =~= seq![]);
    while i < count
        invariant
            cursor <= data@.len(),
            i <= count,
            slices_from(data@, start as int, count as nat, seq![]) == slices_from(
                data@,
                cursor as int,
                (count - i) as nat,
                slices_view(list@),
            ),
        ensures
            (slices_view(list@), cursor as int) == slices_from(data@, start as int, count as nat, seq![]),
            cursor <= data@.len(),
        decreases count - i,
    {
        if cursor >= data.len() {
            break;
        }
        cursor += 1;
        if cursor >= data.len() {
            break;
        }
        let sst = data[cursor];
        cursor += 1;
        let ghost before = list@;
        list.push(SliceSupportItem { s_nssai: SNssai { sst, sd: None } });
        assert(slices_view(list@) =~= slices_view(before).push(SliceView { sst, sd: None }));
        i += 1;
    }
    assert(slices_view(Seq::<SliceSupportItem>::empty()) =~= seq![]);
    (list, cursor)
}

fn decode_broadcast_plmns(data: &[u8], start: usize, count: usize) -> (r: (Vec<BroadcastPlmnItem>, usize))
    requires
        start <= data@.len(),
    ensures
        (plmns_view(r.0@), r.1 as int) == plmns_from(data@, start as int, count as nat, seq![]),
        r.1 <= data@.len(),
{
    let mut list: Vec<BroadcastPlmnItem> = Vec::new();
    let mut cursor = start;
    let mut i: usize = 0;
    assert(plmns_view(list@) =~= seq![]);
    while i < count
        invariant
            cursor <= data@.len(),
            i <= count,
            plmns_from(data@, start as int, count as nat, seq![]) == plmns_from(
                data@,
                cursor as int,
                (count - i) as nat,
                plmns_view(list@),
            ),
        ensures
            (plmns_view(list@), cursor as int) == plmns_from(data@, start as int, count as nat, seq![]),
            cursor <= data@.len(),
        decreases count - i,
    {
        if data.len() - cursor < 3 {
            break;
        }
        let plmn = decode_plmn_identity(data, cursor);
        cursor += 3;
        if cursor >= data.len() {
            break;
        }
        let slice_count = data[cursor] as usize + 1;
        cursor += 1;
        let (slices, next) = decode_slices(data, cursor, slice_count);
        cursor = next;
        let ghost before = list@;
        let item = BroadcastPlmnItem { plmn_identity: plmn, tai_slice_support_list: slices };
        list.push(item);
        assert(plmns_view(list@) =~= plmns_view(before).push(item@));
        i += 1;
    }
    assert(plmns_view(Seq::<BroadcastPlmnItem>::empty()) =~= seq![]);
    (list, cursor)
}

/// Reads a supported TA list from an IE content; the second value is the
/// number of octets consumed.
pub fn decode_supported_ta_list(data: &[u8]) -> (r: (Vec<SupportedTaItem>, usize))
    ensures
        (tas_view(r.0@), r.1 as int) == spec_ta_list(data@),
{
    let mut list: Vec<SupportedTaItem> = Vec::new();
    if data.len() < 5 {
        assert(tas_view(list@) =~= seq![]);
        return (list, 0);
    }
    let count = data[0] as usize + 1;
    let mut cursor: usize = 1;
    let mut i: usize = 0;
    assert(tas_view(list@) =~= seq![]);
    while i < count
        invariant_except_break
            tas_from(data@, 1, count as nat, seq![]) == tas_from(
                data@,
                cursor as int,
                (count - i) as nat,
                tas_view(list@),
            ),
        invariant
            cursor <= data@.len(),
            i <= count,
            data@.len() >= 5,
            count == data@[0] + 1,
        ensures
            (tas_view(list@), cursor as int) == tas_from(data@, 1, count as nat, seq![]),
        decreases count - i,
    {
        if cursor >= data.len() {
            break;
        }
        cursor += 1;
        if data.len() - cursor < 3 {
            break;
        }
        let mut tac = String::new();
        push_hex_text(&mut tac, data, cursor, cursor + 3);
        assert(tac@ =~= hex_text(data@.subrange(cursor as int, cursor + 3)));
        cursor += 3;
        if cursor >= data.len() {
            break;
        }
        let plmn_count = data[cursor] as usize + 1;
        cursor += 1;
        let (plmns, next) = decode_broadcast_plmns(data, cursor, plmn_count);
        cursor = next;
        let ghost before = list@;
        let item = SupportedTaItem { tac, broadcast_plmn_list: plmns };
        list.push(item);
        assert(tas_view(list@) =~= tas_view(before).push(item@));
        i += 1;
    }
    assert(tas_view(Seq::<SupportedTaItem>::empty()) =~= seq![]);
    (list, cursor)
}

} // verus!

verus! {

// ------------------------------------------------------ NG Setup Request

/// The last IE with id 27 whose content names a node.
pub open spec fn last_node_ie(data: Seq<u8>, ies: Seq<IeRef>) -> Option<IeRef>
    decreases ies.len(),
{
    if ies.len() == 0 {
        None
    } else if ies.last().id == 27 && node_id_status(content(data, ies.last())) is Ok {
        Some(ies.last())
    } else {
        last_node_ie(data, ies.drop_last())
    }
}

proof fn lemma_last_node_push(data: Seq<u8>, ies: Seq<IeRef>, ie: IeRef)
    ensures
        last_node_ie(data, ies.push(ie)) == if ie.id == 27 && node_id_status(content(data, ie)) is Ok {
            Some(ie)
        } else {
            last_node_ie(data, ies)
        },
{
    assert(ies.push(ie).drop_last() =~= ies);
}

/// Whether a value can be read as an NG Setup Request, and the IEs read.
pub open spec fn setup_request_status(data: Seq<u8>) -> Result<Seq<IeRef>, DecodeError> {
    if data.len() < 3 {
        Err(DecodeError::ShortBuffer)
    } else {
        match value_ies(data) {
            Err(e) => Err(e),
            Ok(ies) => if last_node_ie(data, ies) is None {
                Err(DecodeError::MissingMandatoryIe(27))
            } else {
                Ok(ies)
            },
        }
    }
}

/// `r` holds what the IEs `ies` of `data` carry: the node of the last IE 27
/// that names one, the TA list of the last IE 102 (none without it) and the
/// paging DRX of the last non-empty IE 21 (32 without it).
pub open spec fn setup_request_decoded(r: NgSetupRequest, data: Seq<u8>, ies: Seq<IeRef>) -> bool {
    &&& match last_node_ie(data, ies) {
        Some(ie) => node_id_decoded(r.global_ran_node_id, content(data, ie)),
        None => false,
    }
    &&& tas_view(r.supported_ta_list@) == match last_ie(ies, 102, 0) {
        Some(ie) => spec_ta_list(content(data, ie)).0,
        None => seq![],
    }
    &&& r.default_paging_drx == match last_ie(ies, 21, 1) {
        Some(ie) => data[ie.start] as u32,
        None => 32u32,
    }
}

pub fn decode_ng_setup_request(data: &[u8]) -> (r: Result<NgSetupRequest, DecodeError>)
    ensures
        match r {
            Ok(req) => setup_request_status(data@) is Ok && setup_request_decoded(
                req,
                data@,
                setup_request_status(data@)->Ok_0,
            ),
            Err(e) => setup_request_status(data@) == Err::<Seq<IeRef>, DecodeError>(e),
        },
{
    if data.len() < 3 {
        return Err(DecodeError::ShortBuffer);
    }
    let count: usize = data[1] as usize * 256 + data[2] as usize;
    let mut cursor: usize = 3;
    let mut node: Option<GlobalRanNodeId> = None;
    let mut ta_list: Vec<SupportedTaItem> = Vec::new();
    let mut drx: u32 = 32;
    let ghost mut seen: Seq<IeRef> = seq![];
    let mut i: usize = 0;
    assert(tas_view(ta_list@) =~= seq![]);
    assert(prepend(seen, ie_walk(data@, 3, count as nat)) == ie_walk(data@, 3, count as nat)) by {
        match ie_walk(data@, 3, count as nat) {
            Ok(rest) => assert(seen + rest =~= rest),
            Err(_) => {},
        }
    }
    while i < count
        invariant_except_break
            value_ies(data@) == prepend(seen, ie_walk(data@, cursor as int, (count - i) as nat)),
        invariant
            data@.len() >= 3,
            cursor <= data@.len(),
            i <= count,
            count == be16(data@[1], data@[2]),
            match last_node_ie(data@, seen) {
                Some(ie) => node is Some && node_id_decoded(node->0, content(data@, ie)),
                None => node is None,
            },
            tas_view(ta_list@) == match last_ie(seen, 102, 0) {
                Some(ie) => spec_ta_list(content(data@, ie)).0,
                None => seq![],
            },
            drx == match last_ie(seen, 21, 1) {
                Some(ie) => data@[ie.start] as u32,
                None => 32u32,
            },
        ensures
            value_ies(data@) == Ok::<Seq<IeRef>, DecodeError>(seen),
        decreases count - i,
    {
        match next_ie(data, cursor) {
            IeNext::Stop => {
                proof {
                    lemma_prepend_stop(seen);
                }
                break;
            },
            IeNext::Fail(e) => {
                return Err(e);
            },
            IeNext::Item { id, start, len, next } => {
                let ghost ie = IeRef { id, start: start as int, len: len as int };
                proof {
                    lemma_prepend_step(seen, ie, ie_walk(data@, next as int, (count - i - 1) as nat));
                    lemma_last_ie_push(seen, ie, 102, 0);
                    lemma_last_ie_push(seen, ie, 21, 1);
                    lemma_last_node_push(data@, seen, ie);
                }
                if id == 27 {
                    match decode_global_ran_node_id(&data[start..start + len]) {
                        Ok((n, _)) => {
                            node = Some(n);
                        },
                        Err(_) => {},
                    }
                } else if id == 102 {
                    let (list, _) = decode_supported_ta_list(&data[start..start + len]);
                    ta_list = list;
                } else if id == 21 {
                    if len >= 1 {
                        drx = data[start] as u32;
                    }
                }
                proof {
                    seen = seen.push(ie);
                }
                cursor = next;
            },
        }
        i += 1;
    }
    proof {
        if i == count {
            lemma_prepend_stop(seen);
        }
    }
    match node {
        Some(n) => Ok(NgSetupRequest {
            global_ran_node_id: n,
            supported_ta_list: ta_list,
            default_paging_drx: drx,
        }),
        None => Err(DecodeError::MissingMandatoryIe(27)),
    }
}

} // verus!

verus! {

// ---------------------------------------------------- Initial UE Message

/// Big-endian value of the first four octets.
pub open spec fn be32(b: Seq<u8>) -> u64 {
    (b[0] * 0x100_0000 + b[1] * 0x1_0000 + b[2] * 0x100 + b[3]) as u64
}

/// `u` is the location that a User Location Info content `c` gives: the TAI
/// from its first six octets and, from fifteen octets up, the NR-CGI from
/// the next eight.
pub open spec fn location_decoded(u: UserLocationInfo, c: Seq<u8>) -> bool {
    &&& u.tai.plmn_identity@ == plmn_view_of(c.subrange(0, 3))
    &&& u.tai.tac@ == hex_text(c.subrange(3, 6))
    &&& match u.nr_cgi {
        Some(cgi) => c.len() >= 15 && cgi.plmn_identity@ == plmn_view_of(c.subrange(6, 9))
            && cgi.nr_cell_identity@ == hex_text(c.subrange(9, 14)),
        None => c.len() < 15,
    }
}

/// Whether a value can be read as an Initial UE Message, and the IEs read:
/// a RAN-UE-NGAP-ID of four octets and a location of at least six (its TAI) are mandatory.
pub open spec fn initial_ue_status(data: Seq<u8>) -> Result<Seq<IeRef>, DecodeError> {
    if data.len() < 3 {
        Err(DecodeError::ShortBuffer)
    } else {
        match value_ies(data) {
            Err(e) => Err(e),
            Ok(ies) => if last_ie(ies, 85, 4) is None {
                Err(DecodeError::MissingMandatoryIe(85))
            } else if last_ie(ies, 121, 6) is None {
                Err(DecodeError::MissingMandatoryIe(121))
            } else {
                Ok(ies)
            },
        }
    }
}

/// `m` holds what the IEs carry, each from the last IE of its id that is
/// long enough: the RAN-UE-NGAP-ID, the NAS PDU (empty without it), the
/// location, and the RRC establishment cause (0 without it).
pub open spec fn initial_ue_decoded(m: InitialUeMessage, data: Seq<u8>, ies: Seq<IeRef>) -> bool {
    &&& match last_ie(ies, 85, 4) {
        Some(ie) => m.ran_ue_ngap_id == be32(content(data, ie)),
        None => false,
    }
    &&& m.nas_pdu@ == match last_ie(ies, 38, 0) {
        Some(ie) => content(data, ie),
        None => seq![],
    }
    &&& match last_ie(ies, 121, 6) {
        Some(ie) => location_decoded(m.user_location_info, content(data, ie)),
        None => false,
    }
    &&& m.rrc_establishment_cause == match last_ie(ies, 90, 1) {
        Some(ie) => data[ie.start],
        None => 0u8,
    }
}

fn decode_location(data: &[u8], start: usize, len: usize) -> (r: UserLocationInfo)
    requires
        len >= 6,
        start + len <= data@.len(),
    ensures
        location_decoded(r, data@.subrange(start as int, start + len)),
{
    let ghost c = data@.subrange(start as int, start + len);
    let n = data.len();
    let tai_plmn = decode_plmn_identity(data, start);
    assert(data@.subrange(start as int, start + 3) =~= c.subrange(0, 3));
    let mut tac = String::new();
    push_hex_text(&mut tac, data, start + 3, start + 6);
    assert(data@.subrange(start + 3, start + 6) =~= c.subrange(3, 6));
    assert(tac@ =~= hex_text(c.subrange(3, 6)));
    let nr_cgi = if len >= 15 {
        let cgi_plmn = decode_plmn_identity(data, start + 6);
        assert(data@.subrange(start + 6, start + 9) =~= c.subrange(6, 9));
        let mut cell = String::new();
        push_hex_text(&mut cell, data, start + 9, start + 14);
        assert(data@.subrange(start + 9, start + 14) =~= c.subrange(9, 14));
        assert(cell@ =~= hex_text(c.subrange(9, 14)));
        Some(NrCgi { plmn_identity: cgi_plmn, nr_cell_identity: cell })
    } else {
        None
    };
    UserLocationInfo { nr_cgi, tai: Tai { plmn_identity: tai_plmn, tac } }
}

pub fn decode_initial_ue_message(data: &[u8]) -> (r: Result<InitialUeMessage, DecodeError>)
    ensures
        match r {
            Ok(m) => initial_ue_status(data@) is Ok && initial_ue_decoded(
                m,
                data@,
                initial_ue_status(data@)->Ok_0,
            ),
            Err(e) => initial_ue_status(data@) == Err::<Seq<IeRef>, DecodeError>(e),
        },
{
    if data.len() < 3 {
        return Err(DecodeError::ShortBuffer);
    }
    let count: usize = data[1] as usize * 256 + data[2] as usize;
    let mut cursor: usize = 3;
    let mut ran_ue_ngap_id: Option<u64> = None;
    let mut nas_pdu: Vec<u8> = Vec::new();
    let mut location: Option<UserLocationInfo> = None;
    let mut rrc_establishment_cause: u8 = 0;
    let ghost mut seen: Seq<IeRef> = seq![];
    let mut i: usize = 0;
    assert(nas_pdu@ =~= seq![]);
    assert(prepend(seen, ie_walk(data@, 3, count as nat)) == ie_walk(data@, 3, count as nat)) by {
        match ie_walk(data@, 3, count as nat) {
            Ok(rest) => assert(seen + rest =~= rest),
            Err(_) => {},
        }
    }
    while i < count
        invariant_except_break
            value_ies(data@) == prepend(seen, ie_walk(data@, cursor as int, (count - i) as nat)),
        invariant
            data@.len() >= 3,
            cursor <= data@.len(),
            i <= count,
            count == be16(data@[1], data@[2]),
            ran_ue_ngap_id == match last_ie(seen, 85, 4) {
                Some(ie) => Some(be32(content(data@, ie))),
                None => None,
            },
            nas_pdu@ == match last_ie(seen, 38, 0) {
                Some(ie) => content(data@, ie),
                None => seq![],
            },
            match last_ie(seen, 121, 6) {
                Some(ie) => location is Some && location_decoded(location->0, content(data@, ie)),
                None => location is None,
            },
            rrc_establishment_cause == match last_ie(seen, 90, 1) {
                Some(ie) => data@[ie.start],
                None => 0u8,
            },
        ensures
            value_ies(data@) == Ok::<Seq<IeRef>, DecodeError>(seen),
        decreases count - i,
    {
        match next_ie(data, cursor) {
            IeNext::Stop => {
                proof {
                    lemma_prepend_stop(seen);
                }
                break;
            },
            IeNext::Fail(e) => {
                return Err(e);
            },
            IeNext::Item { id, start, len, next } => {
                let ghost ie = IeRef { id, start: start as int, len: len as int };
                proof {
                    lemma_prepend_step(seen, ie, ie_walk(data@, next as int, (count - i - 1) as nat));
                    lemma_last_ie_push(seen, ie, 85, 4);
                    lemma_last_ie_push(seen, ie, 38, 0);
                    lemma_last_ie_push(seen, ie, 121, 6);
                    lemma_last_ie_push(seen, ie, 90, 1);
                }
                if id == 85 {
                    if len >= 4 {
                        let v: u64 = data[start] as u64 * 0x100_0000 + data[start + 1] as u64
                            * 0x1_0000 + data[start + 2] as u64 * 0x100 + data[start + 3] as u64;
                        ran_ue_ngap_id = Some(v);
                    }
                } else if id == 38 {
                    nas_pdu = vstd::slice::slice_to_vec(&data[start..start + len]);
                } else if id == 121 {
                    if len >= 6 {
                        location = Some(decode_location(data, start, len));
                    }
                } else if id == 90 {
                    if len >= 1 {
                        rrc_establishment_cause = data[start];
                    }
                }
                proof {
                    seen = seen.push(ie);
                }
                cursor = next;
            },
        }
        i += 1;
    }
    proof {
        if i == count {
            lemma_prepend_stop(seen);
        }
    }
    let ran_ue_ngap_id = match ran_ue_ngap_id {
        Some(v) => v,
        None => return Err(DecodeError::MissingMandatoryIe(85)),
    };
    let user_location_info = match location {
        Some(u) => u,
        None => return Err(DecodeError::MissingMandatoryIe(121)),
    };
    Ok(InitialUeMessage { ran_ue_ngap_id, nas_pdu, user_location_info, rrc_establishment_cause })
}

// ------------------------------------------------------ NG Setup Failure

/// Whether a value can be read as an NG Setup Failure, and the IEs read: a
/// cause of two octets is mandatory.
pub open spec fn setup_failure_status(data: Seq<u8>) -> Result<Seq<IeRef>, DecodeError> {
    if data.len() < 3 {
        Err(DecodeError::ShortBuffer)
    } else {
        match value_ies(data) {
            Err(e) => Err(e),
            Ok(ies) => if last_ie(ies, 15, 2) is None {
                Err(DecodeError::MissingMandatoryIe(15))
            } else {
                Ok(ies)
            },
        }
    }
}

/// `f` holds the cause of the last IE 15 of two octets or more and the
/// time to wait of the last non-empty IE 107, if any; no diagnostics.
pub open spec fn setup_failure_decoded(f: NgSetupFailure, data: Seq<u8>, ies: Seq<IeRef>) -> bool {
    &&& match last_ie(ies, 15, 2) {
        Some(ie) => f.cause == Cause { cause_type: data[ie.start], cause_value: data[ie.start + 1] },
        None => false,
    }
    &&& f.time_to_wait == match last_ie(ies, 107, 1) {
        Some(ie) => Some(data[ie.start]),
        None => None,
    }
    &&& f.critical_diagnostics is None
}

pub fn decode_ng_setup_failure(data: &[u8]) -> (r: Result<NgSetupFailure, DecodeError>)
    ensures
        match r {
            Ok(f) => setup_failure_status(data@) is Ok && setup_failure_decoded(
                f,
                data@,
                setup_failure_status(data@)->Ok_0,
            ),
            Err(e) => setup_failure_status(data@) == Err::<Seq<IeRef>, DecodeError>(e),
        },
{
    if data.len() < 3 {
        return Err(DecodeError::ShortBuffer);
    }
    let count: usize = data[1] as usize * 256 + data[2] as usize;
    let mut cursor: usize = 3;
    let mut cause: Option<Cause> = None;
    let mut time_to_wait: Option<u8> = None;
    let ghost mut seen: Seq<IeRef> = seq![];
    let mut i: usize = 0;
    assert(prepend(seen, ie_walk(data@, 3, count as nat)) == ie_walk(data@, 3, count as nat)) by {
        match ie_walk(data@, 3, count as nat) {
            Ok(rest) => assert(seen + rest =~= rest),
            Err(_) => {},
        }
    }
    while i < count
        invariant_except_break
            value_ies(data@) == prepend(seen, ie_walk(data@, cursor as int, (count - i) as nat)),
        invariant
            data@.len() >= 3,
            cursor <= data@.len(),
            i <= count,
            count == be16(data@[1], data@[2]),
            cause == match last_ie(seen, 15, 2) {
                Some(ie) => Some(
                    Cause { cause_type: data@[ie.start], cause_value: data@[ie.start + 1] },
                ),
                None => None,
            },
            time_to_wait == match last_ie(seen, 107, 1) {
                Some(ie) => Some(data@[ie.start]),
                None => None,
            },
        ensures
            value_ies(data@) == Ok::<Seq<IeRef>, DecodeError>(seen),
        decreases count - i,
    {
        match next_ie(data, cursor) {
            IeNext::Stop => {
                proof {
                    lemma_prepend_stop(seen);
                }
                break;
            },
            IeNext::Fail(e) => {
                return Err(e);
            },
            IeNext::Item { id, start, len, next } => {
                let ghost ie = IeRef { id, start: start as int, len: len as int };
                proof {
                    lemma_prepend_step(seen, ie, ie_walk(data@, next as int, (count - i - 1) as nat));
                    lemma_last_ie_push(seen, ie, 15, 2);
                    lemma_last_ie_push(seen, ie, 107, 1);
                }
                if id == 15 {
                    if len >= 2 {
                        cause = Some(Cause { cause_type: data[start], cause_value: data[start + 1] });
                    }
                } else if id == 107 {
                    if len >= 1 {
                        time_to_wait = Some(data[start]);
                    }
                }
                proof {
                    seen = seen.push(ie);
                }
                cursor = next;
            },
        }
        i += 1;
    }
    proof {
        if i == count {
            lemma_prepend_stop(seen);
        }
    }
    match cause {
        Some(cause) => Ok(NgSetupFailure { cause, time_to_wait, critical_diagnostics: None }),
        None => Err(DecodeError::MissingMandatoryIe(15)),
    }
}

} // verus!

verus! {

// ---------------------------------------------------------------- encoders

/// An IE as written: two-octet id, criticality octet, length, content.
pub open spec fn ie_octets(id: u16, criticality: u8, c: Seq<u8>) -> Seq<u8> {
    seq![(id / 256) as u8, (id % 256) as u8, criticality] + aper_length_octets(c.len()) + c
}

pub open spec fn plmn_valid(p: PlmnIdentity) -> bool {
    valid_plmn_text(p.mcc@, p.mnc@)
}

pub open spec fn plmn_identity_octets(p: PlmnIdentity) -> Seq<u8> {
    plmn_octets(p.mcc@, p.mnc@)
}

/// The AMF region octet: the first octet that the hex text spells, or 0
/// where it spells none.
pub open spec fn region_octet(s: Seq<char>) -> u8 {
    if is_hex_text(s) && s.len() >= 2 {
        hex_octets(s)[0]
    } else {
        0
    }
}

/// The two-octet AMF set field: the hex number shifted left by six within
/// sixteen bits, or 0 for text that is no 16-bit hex number.
pub open spec fn set_id_field(s: Seq<char>) -> int {
    match hex_number(s, 0x1_0000) {
        Some(v) => v * 64 % 0x1_0000,
        None => 0,
    }
}

/// The AMF pointer octet: the hex number shifted left by two within eight
/// bits, or 0 for text that is no 8-bit hex number.
pub open spec fn pointer_field(s: Seq<char>) -> int {
    match hex_number(s, 0x100) {
        Some(v) => v * 4 % 0x100,
        None => 0,
    }
}

pub open spec fn guami_octets(g: ServedGuami) -> Seq<u8> {
    seq![0u8] + plmn_identity_octets(g.plmn_identity) + seq![
        region_octet(g.amf_region_id@),
        (set_id_field(g.amf_set_id@) / 256) as u8,
        (set_id_field(g.amf_set_id@) % 256) as u8,
        pointer_field(g.amf_pointer@) as u8,
    ]
}

pub open spec fn guami_items_octets(gs: Seq<ServedGuami>) -> Seq<u8>
    decreases gs.len(),
{
    if gs.len() == 0 {
        seq![]
    } else {
        guami_items_octets(gs.drop_last()) + guami_octets(gs.last())
    }
}

/// A served GUAMI list: a count less one, then the items; one to 256
/// items with valid PLMNs.
pub open spec fn spec_guami_list(gs: Seq<ServedGuami>) -> Result<Seq<u8>, EncodeError> {
    if 1 <= gs.len() <= 256 && forall|i: int| 0 <= i < gs.len() ==> plmn_valid(#[trigger] gs[i].plmn_identity) {
        Ok(seq![(gs.len() - 1) as u8] + guami_items_octets(gs))
    } else {
        Err(EncodeError::FieldOutOfRange)
    }
}

pub open spec fn slice_items_octets(ss: Seq<SliceSupportItem>) -> Seq<u8>
    decreases ss.len(),
{
    if ss.len() == 0 {
        seq![]
    } else {
        slice_items_octets(ss.drop_last()) + seq![0u8, ss.last().s_nssai.sst]
    }
}

pub open spec fn plmn_support_item_ok(p: PlmnSupportItem) -> bool {
    plmn_valid(p.plmn_identity) && 1 <= p.slice_support_list@.len() <= 256
}

pub open spec fn plmn_support_octets(p: PlmnSupportItem) -> Seq<u8> {
    seq![0u8] + plmn_identity_octets(p.plmn_identity) + seq![(p.slice_support_list@.len() - 1) as u8]
        + slice_items_octets(p.slice_support_list@)
}

pub open spec fn plmn_support_items_octets(ps: Seq<PlmnSupportItem>) -> Seq<u8>
    decreases ps.len(),
{
    if ps.len() == 0 {
        seq![]
    } else {
        plmn_support_items_octets(ps.drop_last()) + plmn_support_octets(ps.last())
    }
}

/// A PLMN support list: a count less one, then the items, each with a
/// count less one of its slices (SST only); one to 256 of each.
pub open spec fn spec_plmn_support_list(ps: Seq<PlmnSupportItem>) -> Result<Seq<u8>, EncodeError> {
    if 1 <= ps.len() <= 256 && forall|i: int| 0 <= i < ps.len() ==> plmn_support_item_ok(#[trigger] ps[i]) {
        Ok(seq![(ps.len() - 1) as u8] + plmn_support_items_octets(ps))
    } else {
        Err(EncodeError::FieldOutOfRange)
    }
}

fn encode_plmn_identity(plmn: &PlmnIdentity, buf: &mut Vec<u8>) -> (r: Result<(), EncodeError>)
    ensures
        match r {
            Ok(_) => plmn_valid(*plmn) && final(buf)@ == old(buf)@ + plmn_identity_octets(*plmn),
            Err(e) => !plmn_valid(*plmn) && e == EncodeError::FieldOutOfRange,
        },
{
    let mut octets = encode_plmn(plmn.mcc.as_str(), plmn.mnc.as_str())?;
    buf.append(&mut octets);
    Ok(())
}

fn encode_served_guami(g: &ServedGuami, buf: &mut Vec<u8>) -> (r: Result<(), EncodeError>)
    ensures
        match r {
            Ok(_) => plmn_valid(g.plmn_identity) && final(buf)@ == old(buf)@ + guami_octets(*g),
            Err(e) => !plmn_valid(g.plmn_identity) && e == EncodeError::FieldOutOfRange,
        },
{
    buf.push(0x00);
    encode_plmn_identity(&g.plmn_identity, buf)?;
    let region: u8 = match hex_decode(g.amf_region_id.as_str()) {
        Some(v) => if v.len() >= 1 {
            v[0]
        } else {
            0
        },
        None => 0,
    };
    let set_field: u32 = match parse_hex_number(g.amf_set_id.as_str(), 0x1_0000) {
        Some(v) => v * 64 % 0x1_0000,
        None => 0,
    };
    let pointer: u32 = match parse_hex_number(g.amf_pointer.as_str(), 0x100) {
        Some(v) => v * 4 % 0x100,
        None => 0,
    };
    buf.push(region);
    buf.push((set_field / 256) as u8);
    buf.push((set_field % 256) as u8);
    buf.push(pointer as u8);
    assert(final(buf)@ =~= old(buf)@ + guami_octets(*g));
    Ok(())
}

pub fn encode_served_guami_list(guami_list: &[ServedGuami]) -> (r: Result<Vec<u8>, EncodeError>)
    ensures
        match r {
            Ok(v) => spec_guami_list(guami_list@) == Ok::<Seq<u8>, EncodeError>(v@),
            Err(e) => spec_guami_list(guami_list@) == Err::<Seq<u8>, EncodeError>(e),
        },
{
    let n = guami_list.len();
    if n == 0 || n > 256 {
        return Err(EncodeError::FieldOutOfRange);
    }
    let mut buf: Vec<u8> = Vec::new();
    buf.push((n - 1) as u8);
    let mut i: usize = 0;
    while i < n
        invariant
            n == guami_list@.len(),
            1 <= n <= 256,
            i <= n,
            buf@ == seq![(n - 1) as u8] + guami_items_octets(guami_list@.subrange(0, i as int)),
            forall|j: int| 0 <= j < i ==> plmn_valid(#[trigger] guami_list@[j].plmn_identity),
        decreases n - i,
    {
        match encode_served_guami(&guami_list[i], &mut buf) {
            Ok(_) => {},
            Err(e) => return Err(e),
        }
        assert(guami_list@.subrange(0, i + 1).drop_last() =~= guami_list@.subrange(0, i as int));
        assert(buf@ =~= seq![(n - 1) as u8] + guami_items_octets(guami_list@.subrange(0, i + 1)));
        i += 1;
    }
    assert(guami_list@.subrange(0, n as int) =~= guami_list@);
    Ok(buf)
}

fn encode_plmn_support_item(p: &PlmnSupportItem, buf: &mut Vec<u8>) -> (r: Result<(), EncodeError>)
    ensures
        match r {
            Ok(_) => plmn_support_item_ok(*p) && final(buf)@ == old(buf)@ + plmn_support_octets(*p),
            Err(e) => !plmn_support_item_ok(*p) && e == EncodeError::FieldOutOfRange,
        },
{
    let k = p.slice_support_list.len();
    buf.push(0x00);
    encode_plmn_identity(&p.plmn_identity, buf)?;
    if k == 0 || k > 256 {
        return Err(EncodeError::FieldOutOfRange);
    }
    buf.push((k - 1) as u8);
    let ghost head = buf@;
    let mut j: usize = 0;
    while j < k
        invariant
            k == p.slice_support_list@.len(),
            j <= k,
            buf@ == head + slice_items_octets(p.slice_support_list@.subrange(0, j as int)),
        decreases k - j,
    {
        buf.push(0x00);
        buf.push(p.slice_support_list[j].s_nssai.sst);
        assert(p.slice_support_list@.subrange(0, j + 1).drop_last() =~= p.slice_support_list@.subrange(0, j as int));
        assert(buf@ =~= head + slice_items_octets(p.slice_support_list@.subrange(0, j + 1)));
        j += 1;
    }
    assert(p.slice_support_list@.subrange(0, k as int) =~= p.slice_support_list@);
    assert(final(buf)@ =~= old(buf)@ + plmn_support_octets(*p));
    Ok(())
}

pub fn encode_plmn_support_list(plmn_list: &[PlmnSupportItem]) -> (r: Result<Vec<u8>, EncodeError>)
    ensures
        match r {
            Ok(v) => spec_plmn_support_list(plmn_list@) == Ok::<Seq<u8>, EncodeError>(v@),
            Err(e) => spec_plmn_support_list(plmn_list@) == Err::<Seq<u8>, EncodeError>(e),
        },
{
    let n = plmn_list.len();
    if n == 0 || n > 256 {
        return Err(EncodeError::FieldOutOfRange);
    }
    let mut buf: Vec<u8> = Vec::new();
    buf.push((n - 1) as u8);
    let mut i: usize = 0;
    while i < n
        invariant
            n == plmn_list@.len(),
            1 <= n <= 256,
            i <= n,
            buf@ == seq![(n - 1) as u8] + plmn_support_items_octets(plmn_list@.subrange(0, i as int)),
            forall|j: int| 0 <= j < i ==> plmn_support_item_ok(#[trigger] plmn_list@[j]),
        decreases n - i,
    {
        match encode_plmn_support_item(&plmn_list[i], &mut buf) {
            Ok(_) => {},
            Err(e) => return Err(e),
        }
        assert(plmn_list@.subrange(0, i + 1).drop_last() =~= plmn_list@.subrange(0, i as int));
        assert(buf@ =~= seq![(n - 1) as u8] + plmn_support_items_octets(plmn_list@.subrange(0, i + 1)));
        i += 1;
    }
    assert(plmn_list@.subrange(0, n as int) =~= plmn_list@);
    Ok(buf)
}

fn put_ie(buf: &mut Vec<u8>, id: u16, criticality: u8, content: &[u8])
    ensures
        final(buf)@ == old(buf)@ + ie_octets(id, criticality, content@),
{
    buf.push((id / 256) as u8);
    buf.push((id % 256) as u8);
    buf.push(criticality);
    encode_aper_length(content.len(), buf);
    let mut c = vstd::slice::slice_to_vec(content);
    buf.append(&mut c);
    assert(final(buf)@ =~= old(buf)@ + ie_octets(id, criticality, content@));
}

/// The value of an NG Setup Response: no extension, four IEs (AMF name,
/// served GUAMIs, relative capacity, PLMN support), each content under
/// 16384 octets.
pub open spec fn spec_setup_response_value(r: NgSetupResponse) -> Result<Seq<u8>, EncodeError> {
    match (spec_guami_list(r.served_guami_list@), spec_plmn_support_list(r.plmn_support_list@)) {
        (Ok(g), Ok(p)) => {
            if encode_utf8(r.amf_name@).len() < 16384 && g.len() < 16384 && p.len() < 16384 {
                Ok(
                    seq![0u8, 0u8, 4u8] + ie_octets(1, 0, encode_utf8(r.amf_name@)) + ie_octets(96, 0, g)
                        + ie_octets(80, 0, seq![r.relative_amf_capacity]) + ie_octets(86, 0, p),
                )
            } else {
                Err(EncodeError::FieldOutOfRange)
            }
        },
        _ => Err(EncodeError::FieldOutOfRange),
    }
}

pub fn encode_ng_setup_response(response: &NgSetupResponse) -> (r: Result<Vec<u8>, EncodeError>)
    ensures
        match r {
            Ok(v) => spec_setup_response_value(*response) == Ok::<Seq<u8>, EncodeError>(v@),
            Err(e) => spec_setup_response_value(*response) == Err::<Seq<u8>, EncodeError>(e),
        },
{
    let guamis = encode_served_guami_list(response.served_guami_list.as_slice())?;
    let plmns = encode_plmn_support_list(response.plmn_support_list.as_slice())?;
    let name = response.amf_name.as_str().as_bytes();
    if name.len() >= 16384 || guamis.len() >= 16384 || plmns.len() >= 16384 {
        return Err(EncodeError::FieldOutOfRange);
    }
    let mut buf: Vec<u8> = Vec::new();
    buf.push(0x00);
    buf.push(0x00);
    buf.push(0x04);
    put_ie(&mut buf, 1, 0x00, name);
    put_ie(&mut buf, 96, 0x00, guamis.as_slice());
    let capacity = [response.relative_amf_capacity];
    put_ie(&mut buf, 80, 0x00, &capacity);
    put_ie(&mut buf, 86, 0x00, plmns.as_slice());
    assert(buf@ =~= seq![0u8, 0u8, 4u8] + ie_octets(1, 0, encode_utf8(response.amf_name@)) + ie_octets(96, 0, guamis@)
        + ie_octets(80, 0, seq![response.relative_amf_capacity]) + ie_octets(86, 0, plmns@));
    Ok(buf)
}

/// The value of an NG Setup Failure: no extension, the cause IE and, when
/// there is one, the time-to-wait IE (criticality ignore).
pub open spec fn spec_setup_failure_value(f: NgSetupFailure) -> Seq<u8> {
    seq![0u8, 0u8, if f.time_to_wait is Some { 2u8 } else { 1u8 }] + ie_octets(
        15,
        0,
        seq![f.cause.cause_type, f.cause.cause_value],
    ) + match f.time_to_wait {
        Some(t) => ie_octets(107, 0x40, seq![t]),
        None => seq![],
    }
}

pub fn encode_ng_setup_failure(failure: &NgSetupFailure) -> (r: Vec<u8>)
    ensures
        r@ == spec_setup_failure_value(*failure),
{
    let mut buf: Vec<u8> = Vec::new();
    buf.push(0x00);
    buf.push(0x00);
    buf.push(if failure.time_to_wait.is_some() { 2 } else { 1 });
    let cause = [failure.cause.cause_type, failure.cause.cause_value];
    put_ie(&mut buf, 15, 0x00, &cause);
    match failure.time_to_wait {
        Some(t) => {
            let ttw = [t];
            put_ie(&mut buf, 107, 0x40, &ttw);
        },
        None => {},
    }
    assert(buf@ =~= spec_setup_failure_value(*failure));
    buf
}

} // verus!

verus! {

// -------------------------------------------------------------------- PDUs

pub const NGAP_PROCEDURE_CODE_NG_SETUP: u8 = 21;
pub const NGAP_PROCEDURE_CODE_INITIAL_UE_MESSAGE: u8 = 15;
pub const NGAP_PROCEDURE_CODE_UPLINK_NAS_TRANSPORT: u8 = 46;

#[derive(Debug)]
pub enum NgapPdu {
    InitiatingMessage(InitiatingMessage),
    SuccessfulOutcome(SuccessfulOutcome),
    UnsuccessfulOutcome(UnsuccessfulOutcome),
}

#[derive(Debug)]
pub struct InitiatingMessage {
    pub procedure_code: u8,
    pub criticality: u8,
    pub value: NgapMessageValue,
}

#[derive(Debug)]
pub struct SuccessfulOutcome {
    pub procedure_code: u8,
    pub criticality: u8,
    pub value: NgapMessageValue,
}

#[derive(Debug)]
pub struct UnsuccessfulOutcome {
    pub procedure_code: u8,
    pub criticality: u8,
    pub value: NgapMessageValue,
}

#[derive(Debug)]
pub enum NgapMessageValue {
    NgSetupRequest(NgSetupRequest),
    NgSetupResponse(NgSetupResponse),
    NgSetupFailure(NgSetupFailure),
    InitialUeMessage(InitialUeMessage),
    UplinkNasTransport,
    Unknown,
}

/// The discriminator (0 initiating, 1 successful, 2 unsuccessful),
/// procedure code, criticality and value of a PDU.
pub open spec fn pdu_parts(p: NgapPdu) -> (u8, u8, u8, NgapMessageValue) {
    match p {
        NgapPdu::InitiatingMessage(m) => (0, m.procedure_code, m.criticality, m.value),
        NgapPdu::SuccessfulOutcome(m) => (1, m.procedure_code, m.criticality, m.value),
        NgapPdu::UnsuccessfulOutcome(m) => (2, m.procedure_code, m.criticality, m.value),
    }
}

/// The frame of a PDU: the discriminator in the top three bits of the
/// first octet, the procedure code, the criticality in the top two bits of
/// the third octet, then an open-type length and exactly that many value
/// octets.
pub open spec fn pdu_frame(data: Seq<u8>) -> Result<(u8, u8, u8, Seq<u8>), DecodeError> {
    if data.len() < 3 {
        Err(DecodeError::ShortBuffer)
    } else if data[0] / 32 > 2 {
        Err(DecodeError::UnknownPduType((data[0] / 32 * 32) as u8))
    } else {
        match spec_aper_length(data.subrange(3, data.len() as int)) {
            Err(e) => Err(e),
            Ok((len, consumed)) => if 3 + consumed + len > data.len() {
                Err(DecodeError::ShortBuffer)
            } else {
                Ok(
                    (
                        data[0] / 32,
                        data[1],
                        data[2] / 64,
                        data.subrange(3 + consumed, 3 + consumed + len),
                    ),
                )
            },
        }
    }
}

/// Whether the value of a PDU of this kind and procedure can be read.
pub open spec fn value_status(kind: u8, procedure_code: u8, value: Seq<u8>) -> Result<(), DecodeError> {
    if kind == 0 && procedure_code == NGAP_PROCEDURE_CODE_NG_SETUP {
        match setup_request_status(value) {
            Ok(_) => Ok(()),
            Err(e) => Err(e),
        }
    } else if kind == 0 && procedure_code == NGAP_PROCEDURE_CODE_INITIAL_UE_MESSAGE {
        match initial_ue_status(value) {
            Ok(_) => Ok(()),
            Err(e) => Err(e),
        }
    } else if kind == 1 && procedure_code == NGAP_PROCEDURE_CODE_NG_SETUP {
        match setup_response_status(value) {
            Ok(_) => Ok(()),
            Err(e) => Err(e),
        }
    } else if kind == 2 && procedure_code == NGAP_PROCEDURE_CODE_NG_SETUP {
        match setup_failure_status(value) {
            Ok(_) => Ok(()),
            Err(e) => Err(e),
        }
    } else {
        Ok(())
    }
}

/// `v` is what a value of this kind and procedure reads as: the decoded
/// message for the procedures the codec knows, else `UplinkNasTransport`
/// or `Unknown`.
pub open spec fn value_decoded(v: NgapMessageValue, kind: u8, procedure_code: u8, value: Seq<u8>) -> bool {
    if kind == 0 && procedure_code == NGAP_PROCEDURE_CODE_NG_SETUP {
        v matches NgapMessageValue::NgSetupRequest(r) && setup_request_decoded(
            r,
            value,
            setup_request_status(value)->Ok_0,
        )
    } else if kind == 0 && procedure_code == NGAP_PROCEDURE_CODE_INITIAL_UE_MESSAGE {
        v matches NgapMessageValue::InitialUeMessage(m) && initial_ue_decoded(
            m,
            value,
            initial_ue_status(value)->Ok_0,
        )
    } else if kind == 0 && procedure_code == NGAP_PROCEDURE_CODE_UPLINK_NAS_TRANSPORT {
        v is UplinkNasTransport
    } else if kind == 1 && procedure_code == NGAP_PROCEDURE_CODE_NG_SETUP {
        v matches NgapMessageValue::NgSetupResponse(r) && setup_response_decoded(
            r,
            value,
            setup_response_status(value)->Ok_0,
        )
    } else if kind == 2 && procedure_code == NGAP_PROCEDURE_CODE_NG_SETUP {
        v matches NgapMessageValue::NgSetupFailure(f) && setup_failure_decoded(
            f,
            value,
            setup_failure_status(value)->Ok_0,
        )
    } else {
        v is Unknown
    }
}

/// Whether octets can be read as a PDU.
pub open spec fn pdu_status(data: Seq<u8>) -> Result<(), DecodeError> {
    match pdu_frame(data) {
        Err(e) => Err(e),
        Ok((kind, procedure_code, _, value)) => value_status(kind, procedure_code, value),
    }
}

/// `p` is the PDU that `data` holds.
pub open spec fn pdu_decoded(p: NgapPdu, data: Seq<u8>) -> bool {
    match pdu_frame(data) {
        Err(_) => false,
        Ok((kind, procedure_code, criticality, value)) => {
            let (k, pc, c, v) = pdu_parts(p);
            &&& k == kind
            &&& pc == procedure_code
            &&& c == criticality
            &&& value_decoded(v, kind, procedure_code, value)
        },
    }
}

fn decode_value(kind: u8, procedure_code: u8, value: &[u8]) -> (r: Result<NgapMessageValue, DecodeError>)
    ensures
        match r {
            Ok(v) => value_status(kind, procedure_code, value@) is Ok && value_decoded(v, kind, procedure_code, value@),
            Err(e) => value_status(kind, procedure_code, value@) == Err::<(), DecodeError>(e),
        },
{
    if kind == 0 && procedure_code == NGAP_PROCEDURE_CODE_NG_SETUP {
        match decode_ng_setup_request(value) {
            Ok(r) => Ok(NgapMessageValue::NgSetupRequest(r)),
            Err(e) => Err(e),
        }
    } else if kind == 0 && procedure_code == NGAP_PROCEDURE_CODE_INITIAL_UE_MESSAGE {
        match decode_initial_ue_message(value) {
            Ok(m) => Ok(NgapMessageValue::InitialUeMessage(m)),
            Err(e) => Err(e),
        }
    } else if kind == 0 && procedure_code == NGAP_PROCEDURE_CODE_UPLINK_NAS_TRANSPORT {
        Ok(NgapMessageValue::UplinkNasTransport)
    } else if kind == 1 && procedure_code == NGAP_PROCEDURE_CODE_NG_SETUP {
        match decode_ng_setup_response(value) {
            Ok(r) => Ok(NgapMessageValue::NgSetupResponse(r)),
            Err(e) => Err(e),
        }
    } else if kind == 2 && procedure_code == NGAP_PROCEDURE_CODE_NG_SETUP {
        match decode_ng_setup_failure(value) {
            Ok(f) => Ok(NgapMessageValue::NgSetupFailure(f)),
            Err(e) => Err(e),
        }
    } else {
        Ok(NgapMessageValue::Unknown)
    }
}

impl NgapPdu {
    pub fn decode(data: &[u8]) -> (r: Result<NgapPdu, DecodeError>)
        ensures
            match r {
                Ok(p) => pdu_status(data@) is Ok && pdu_decoded(p, data@),
                Err(e) => pdu_status(data@) == Err::<(), DecodeError>(e),
            },
    {
        if data.len() < 3 {
            return Err(DecodeError::ShortBuffer);
        }
        let kind = data[0] / 32;
        if kind > 2 {
            return Err(DecodeError::UnknownPduType(kind * 32));
        }
        let procedure_code = data[1];
        let criticality = data[2] / 64;
        let (len, consumed) = decode_aper_length(&data[3..data.len()])?;
        let start = 3 + consumed;
        if len > data.len() - start {
            return Err(DecodeError::ShortBuffer);
        }
        let value = decode_value(kind, procedure_code, &data[start..start + len])?;
        if kind == 0 {
            Ok(NgapPdu::InitiatingMessage(InitiatingMessage { procedure_code, criticality, value }))
        } else if kind == 1 {
            Ok(NgapPdu::SuccessfulOutcome(SuccessfulOutcome { procedure_code, criticality, value }))
        } else {
            Ok(NgapPdu::UnsuccessfulOutcome(UnsuccessfulOutcome { procedure_code, criticality, value }))
        }
    }

    pub fn encode(&self) -> (r: Result<Bytes, EncodeError>)
        ensures
            match r {
                Ok(b) => spec_encode_pdu(*self) == Ok::<Seq<u8>, EncodeError>(bytes_contents(b)),
                Err(e) => spec_encode_pdu(*self) == Err::<Seq<u8>, EncodeError>(e),
            },
    {
        let (tag, procedure_code, criticality, value) = match self {
            NgapPdu::InitiatingMessage(m) => (0x00u8, m.procedure_code, m.criticality, &m.value),
            NgapPdu::SuccessfulOutcome(m) => (0x20u8, m.procedure_code, m.criticality, &m.value),
            NgapPdu::UnsuccessfulOutcome(m) => (0x40u8, m.procedure_code, m.criticality, &m.value),
        };
        let value_octets = match (tag, value) {
            (0x00, NgapMessageValue::NgSetupRequest(request)) => encode_ng_setup_request(request)?,
            (0x00, NgapMessageValue::InitialUeMessage(message)) => encode_initial_ue_message(message)?,
            (0x20, NgapMessageValue::NgSetupResponse(response)) => encode_ng_setup_response(response)?,
            (0x40, NgapMessageValue::NgSetupFailure(failure)) => encode_ng_setup_failure(failure),
            _ => return Err(EncodeError::UnsupportedMessage),
        };
        if criticality > 3 || value_octets.len() >= 0x1_0000 {
            return Err(EncodeError::FieldOutOfRange);
        }
        let mut buf: Vec<u8> = Vec::new();
        buf.push(tag);
        buf.push(procedure_code);
        buf.push(criticality * 64);
        encode_aper_length(value_octets.len(), &mut buf);
        let mut v = value_octets;
        let ghost value_view = v@;
        buf.append(&mut v);
        assert(buf@ =~= seq![tag, procedure_code, (criticality * 64) as u8] + aper_length_octets(value_view.len())
            + value_view);
        Ok(bytes_from_vec(buf))
    }
}

/// The value octets of the PDUs the encoder writes: an NG Setup Request
/// or an Initial UE Message as an initiating message, an NG Setup
/// Response as a successful outcome, an NG Setup Failure as an
/// unsuccessful one.
pub open spec fn spec_encode_value(p: NgapPdu) -> Result<Seq<u8>, EncodeError> {
    match p {
        NgapPdu::SuccessfulOutcome(m) => match m.value {
            NgapMessageValue::NgSetupResponse(r) => spec_setup_response_value(r),
            _ => Err(EncodeError::UnsupportedMessage),
        },
        NgapPdu::UnsuccessfulOutcome(m) => match m.value {
            NgapMessageValue::NgSetupFailure(f) => Ok(spec_setup_failure_value(f)),
            _ => Err(EncodeError::UnsupportedMessage),
        },
        NgapPdu::InitiatingMessage(m) => match m.value {
            NgapMessageValue::NgSetupRequest(r) => spec_setup_request_value(r),
            NgapMessageValue::InitialUeMessage(u) => spec_initial_ue_value(u),
            _ => Err(EncodeError::UnsupportedMessage),
        },
    }
}

/// The octets of a PDU: discriminator, procedure code, criticality shifted
/// into the top two bits, open-type length, value. A criticality above 3 or
/// a value of 65536 octets or more is out of range.
pub open spec fn spec_encode_pdu(p: NgapPdu) -> Result<Seq<u8>, EncodeError> {
    let (kind, procedure_code, criticality, _) = pdu_parts(p);
    match spec_encode_value(p) {
        Err(e) => Err(e),
        Ok(v) => if criticality > 3 || v.len() >= 0x1_0000 {
            Err(EncodeError::FieldOutOfRange)
        } else {
            Ok(
                seq![(kind * 32) as u8, procedure_code, (criticality * 64) as u8] + aper_length_octets(
                    v.len(),
                ) + v,
            )
        },
    }
}

} // verus!

verus! {

// ----------------------------------------------------- NG Setup Response

/// The last IE with id `id` whose content passes `ok`.
pub open spec fn last_ie_where(data: Seq<u8>, ies: Seq<IeRef>, id: u16, ok: spec_fn(Seq<u8>) -> bool) -> Option<IeRef>
    decreases ies.len(),
{
    if ies.len() == 0 {
        None
    } else if ies.last().id == id && ok(content(data, ies.last())) {
        Some(ies.last())
    } else {
        last_ie_where(data, ies.drop_last(), id, ok)
    }
}

proof fn lemma_last_ie_where_push(data: Seq<u8>, ies: Seq<IeRef>, ie: IeRef, id: u16, ok: spec_fn(Seq<u8>) -> bool)
    ensures
        last_ie_where(data, ies.push(ie), id, ok) == if ie.id == id && ok(content(data, ie)) {
            Some(ie)
        } else {
            last_ie_where(data, ies, id, ok)
        },
{
    assert(ies.push(ie).drop_last() =~= ies);
}

/// A served GUAMI list content: a count less one, then that many items of
/// eight octets each.
pub open spec fn guami_list_ok(c: Seq<u8>) -> bool {
    c.len() >= 1 && c.len() == 1 + 8 * (c[0] + 1)
}

/// The AMF set id of a two-octet set field, as three hex digits.
pub open spec fn set_id_text(hi: u8, lo: u8) -> Seq<char> {
    hex3((hi * 256 + lo) / 64 as int)
}

/// `g` is the GUAMI item at `at` in a served GUAMI list content `c`.
pub open spec fn guami_decoded(g: ServedGuami, c: Seq<u8>, at: int) -> bool {
    &&& g.plmn_identity@ == plmn_view_of(c.subrange(at + 1, at + 4))
    &&& g.amf_region_id@ == hex_text(seq![c[at + 4]])
    &&& g.amf_set_id@ == set_id_text(c[at + 5], c[at + 6])
    &&& g.amf_pointer@ == hex2(c[at + 7] as int / 4)
}

pub open spec fn guami_list_decoded(list: Seq<ServedGuami>, c: Seq<u8>) -> bool {
    &&& list.len() == c[0] + 1
    &&& forall|i: int| 0 <= i < list.len() ==> guami_decoded(#[trigger] list[i], c, 1 + 8 * i)
}

fn decode_served_guami_list(c: &[u8]) -> (r: Vec<ServedGuami>)
    requires
        guami_list_ok(c@),
    ensures
        guami_list_decoded(r@, c@),
{
    let n = c[0] as usize + 1;
    let mut list: Vec<ServedGuami> = Vec::new();
    let mut i: usize = 0;
    while i < n
        invariant
            guami_list_ok(c@),
            n == c@[0] + 1,
            i <= n,
            list@.len() == i,
            forall|j: int| 0 <= j < i ==> guami_decoded(#[trigger] list@[j], c@, 1 + 8 * j),
        decreases n - i,
    {
        let at = 1 + 8 * i;
        let plmn = decode_plmn_identity(c, at + 1);
        let mut region = String::new();
        push_hex_text(&mut region, c, at + 4, at + 5);
        assert(c@.subrange(at + 4, at + 5) =~= seq![c@[at + 4]]);
        let mut set_id = String::new();
        push_hex3(&mut set_id, (c[at + 5] as u32 * 256 + c[at + 6] as u32) / 64);
        assert(set_id@ =~= set_id_text(c@[at + 5], c@[at + 6]));
        let mut pointer = String::new();
        push_hex2(&mut pointer, c[at + 7] as u32 / 4);
        assert(pointer@ =~= hex2(c@[at + 7] as int / 4));
        list.push(ServedGuami { plmn_identity: plmn, amf_region_id: region, amf_set_id: set_id, amf_pointer: pointer });
        i += 1;
    }
    list
}

/// The PLMN support items read from `cursor` on, at most `n` of them, each
/// an extension octet, a PLMN, a slice count less one and the slices (an
/// extension octet and an SST each); `None` unless they end exactly at the
/// end of the content.
pub open spec fn support_items_from(c: Seq<u8>, cursor: int, n: nat) -> Option<Seq<BroadcastView>>
    decreases n,
{
    if n == 0 {
        if cursor == c.len() {
            Some(seq![])
        } else {
            None
        }
    } else if cursor + 5 > c.len() {
        None
    } else {
        let k = c[cursor + 4] + 1;
        let end = cursor + 5 + 2 * k;
        if end > c.len() {
            None
        } else {
            match support_items_from(c, end, (n - 1) as nat) {
                Some(rest) => Some(
                    seq![
                        BroadcastView {
                            plmn: plmn_view_of(c.subrange(cursor + 1, cursor + 4)),
                            slices: Seq::new(k as nat, |j: int| SliceView { sst: c[cursor + 5 + 2 * j + 1], sd: None }),
                        },
                    ] + rest,
                ),
                None => None,
            }
        }
    }
}

/// A PLMN support list content: a count less one, then exactly the items.
pub open spec fn spec_plmn_support_items(c: Seq<u8>) -> Option<Seq<BroadcastView>> {
    if c.len() == 0 {
        None
    } else {
        support_items_from(c, 1, (c[0] + 1) as nat)
    }
}

pub open spec fn plmn_support_ok(c: Seq<u8>) -> bool {
    spec_plmn_support_items(c) is Some
}

/// A PLMN support item read as its PLMN and its slices.
pub open spec fn support_item_view(p: PlmnSupportItem) -> BroadcastView {
    BroadcastView { plmn: p.plmn_identity@, slices: slices_view(p.slice_support_list@) }
}

pub open spec fn support_items_view(v: Seq<PlmnSupportItem>) -> Seq<BroadcastView> {
    v.map_values(|p: PlmnSupportItem| support_item_view(p))
}

/// Checks and reads PLMN support items from `cursor` on.
fn decode_support_items(c: &[u8], start: usize, count: usize) -> (r: Option<Vec<PlmnSupportItem>>)
    requires
        start <= c@.len(),
    ensures
        match r {
            Some(v) => support_items_from(c@, start as int, count as nat) == Some(support_items_view(v@)),
            None => support_items_from(c@, start as int, count as nat) is None,
        },
    decreases count,
{
    if count == 0 {
        if start == c.len() {
            let v: Vec<PlmnSupportItem> = Vec::new();
            assert(support_items_view(v@) =~= seq![]);
            return Some(v);
        } else {
            return None;
        }
    }
    if c.len() - start < 5 {
        return None;
    }
    let k = c[start + 4] as usize + 1;
    if c.len() - (start + 5) < 2 * k {
        return None;
    }
    let end = start + 5 + 2 * k;
    let rest = match decode_support_items(c, end, count - 1) {
        Some(rest) => rest,
        None => return None,
    };
    let plmn = decode_plmn_identity(c, start + 1);
    let mut slices: Vec<SliceSupportItem> = Vec::new();
    let mut j: usize = 0;
    while j < k
        invariant
            start + 5 + 2 * k == end,
            end <= c@.len(),
            j <= k,
            slices@.len() == j,
            forall|q: int| 0 <= q < j ==> (#[trigger] slices@[q])@ == (SliceView { sst: c@[start + 5 + 2 * q + 1], sd: None }),
        decreases k - j,
    {
        slices.push(SliceSupportItem { s_nssai: SNssai { sst: c[start + 5 + 2 * j + 1], sd: None } });
        j += 1;
    }
    let item = PlmnSupportItem { plmn_identity: plmn, slice_support_list: slices };
    assert(slices_view(slices@) =~= Seq::new(k as nat, |q: int| SliceView { sst: c@[start + 5 + 2 * q + 1], sd: None }));
    let mut out: Vec<PlmnSupportItem> = Vec::new();
    out.push(item);
    let mut rest = rest;
    let ghost rest_view = support_items_view(rest@);
    out.append(&mut rest);
    assert(support_items_view(out@) =~= seq![support_item_view(item)] + rest_view);
    Some(out)
}

pub fn decode_plmn_support_list(c: &[u8]) -> (r: Option<Vec<PlmnSupportItem>>)
    ensures
        match r {
            Some(v) => spec_plmn_support_items(c@) == Some(support_items_view(v@)),
            None => spec_plmn_support_items(c@) is None,
        },
{
    if c.len() == 0 {
        return None;
    }
    decode_support_items(c, 1, c[0] as usize + 1)
}

pub open spec fn name_ok(c: Seq<u8>) -> bool {
    vstd::utf8::valid_utf8(c)
}

pub open spec fn name_ie(data: Seq<u8>, ies: Seq<IeRef>) -> Option<IeRef> {
    last_ie_where(data, ies, 1, |c: Seq<u8>| name_ok(c))
}

pub open spec fn guami_ie(data: Seq<u8>, ies: Seq<IeRef>) -> Option<IeRef> {
    last_ie_where(data, ies, 96, |c: Seq<u8>| guami_list_ok(c))
}

pub open spec fn support_ie(data: Seq<u8>, ies: Seq<IeRef>) -> Option<IeRef> {
    last_ie_where(data, ies, 86, |c: Seq<u8>| plmn_support_ok(c))
}

/// Whether a value can be read as an NG Setup Response, and the IEs read:
/// an AMF name in UTF-8, a well-formed served GUAMI list, a relative
/// capacity octet and a well-formed PLMN support list are mandatory.
pub open spec fn setup_response_status(data: Seq<u8>) -> Result<Seq<IeRef>, DecodeError> {
    if data.len() < 3 {
        Err(DecodeError::ShortBuffer)
    } else {
        match value_ies(data) {
            Err(e) => Err(e),
            Ok(ies) => if name_ie(data, ies) is None {
                Err(DecodeError::MissingMandatoryIe(1))
            } else if guami_ie(data, ies) is None {
                Err(DecodeError::MissingMandatoryIe(96))
            } else if last_ie(ies, 80, 1) is None {
                Err(DecodeError::MissingMandatoryIe(80))
            } else if support_ie(data, ies) is None {
                Err(DecodeError::MissingMandatoryIe(86))
            } else {
                Ok(ies)
            },
        }
    }
}

/// `r` holds what the IEs carry, each from the last IE of its id that can
/// be read: the AMF name, the GUAMIs, the capacity and the PLMN support
/// items (SST only).
pub open spec fn setup_response_decoded(r: NgSetupResponse, data: Seq<u8>, ies: Seq<IeRef>) -> bool {
    &&& match name_ie(data, ies) {
        Some(ie) => r.amf_name@ == vstd::utf8::decode_utf8(content(data, ie)),
        None => false,
    }
    &&& match guami_ie(data, ies) {
        Some(ie) => guami_list_decoded(r.served_guami_list@, content(data, ie)),
        None => false,
    }
    &&& match last_ie(ies, 80, 1) {
        Some(ie) => r.relative_amf_capacity == data[ie.start],
        None => false,
    }
    &&& match support_ie(data, ies) {
        Some(ie) => spec_plmn_support_items(content(data, ie)) == Some(support_items_view(r.plmn_support_list@)),
        None => false,
    }
}

pub fn decode_ng_setup_response(data: &[u8]) -> (r: Result<NgSetupResponse, DecodeError>)
    ensures
        match r {
            Ok(resp) => setup_response_status(data@) is Ok && setup_response_decoded(
                resp,
                data@,
                setup_response_status(data@)->Ok_0,
            ),
            Err(e) => setup_response_status(data@) == Err::<Seq<IeRef>, DecodeError>(e),
        },
{
    if data.len() < 3 {
        return Err(DecodeError::ShortBuffer);
    }
    let count: usize = data[1] as usize * 256 + data[2] as usize;
    let mut cursor: usize = 3;
    let mut name: Option<String> = None;
    let mut guamis: Option<Vec<ServedGuami>> = None;
    let mut capacity: Option<u8> = None;
    let mut plmns: Option<Vec<PlmnSupportItem>> = None;
    let ghost mut seen: Seq<IeRef> = seq![];
    let mut i: usize = 0;
    assert(prepend(seen, ie_walk(data@, 3, count as nat)) == ie_walk(data@, 3, count as nat)) by {
        match ie_walk(data@, 3, count as nat) {
            Ok(rest) => assert(seen + rest =~= rest),
            Err(_) => {},
        }
    }
    while i < count
        invariant_except_break
            value_ies(data@) == prepend(seen, ie_walk(data@, cursor as int, (count - i) as nat)),
        invariant
            data@.len() >= 3,
            cursor <= data@.len(),
            i <= count,
            count == be16(data@[1], data@[2]),
            match name_ie(data@, seen) {
                Some(ie) => name matches Some(s) && s@ == vstd::utf8::decode_utf8(content(data@, ie)),
                None => name is None,
            },
            match guami_ie(data@, seen) {
                Some(ie) => guamis matches Some(g) && guami_list_decoded(g@, content(data@, ie)),
                None => guamis is None,
            },
            capacity == match last_ie(seen, 80, 1) {
                Some(ie) => Some(data@[ie.start]),
                None => None,
            },
            match support_ie(data@, seen) {
                Some(ie) => plmns matches Some(p) && spec_plmn_support_items(content(data@, ie)) == Some(
                    support_items_view(p@),
                ),
                None => plmns is None,
            },
        ensures
            value_ies(data@) == Ok::<Seq<IeRef>, DecodeError>(seen),
        decreases count - i,
    {
        match next_ie(data, cursor) {
            IeNext::Stop => {
                proof {
                    lemma_prepend_stop(seen);
                }
                break;
            },
            IeNext::Fail(e) => {
                return Err(e);
            },
            IeNext::Item { id, start, len, next } => {
                let ghost ie = IeRef { id, start: start as int, len: len as int };
                proof {
                    lemma_prepend_step(seen, ie, ie_walk(data@, next as int, (count - i - 1) as nat));
                    lemma_last_ie_where_push(data@, seen, ie, 1, |c: Seq<u8>| name_ok(c));
                    lemma_last_ie_where_push(data@, seen, ie, 96, |c: Seq<u8>| guami_list_ok(c));
                    lemma_last_ie_where_push(data@, seen, ie, 86, |c: Seq<u8>| plmn_support_ok(c));
                    lemma_last_ie_push(seen, ie, 80, 1);
                }
                let c = &data[start..start + len];
                if id == 1 {
                    match utf8_text(c) {
                        Some(s) => {
                            name = Some(s);
                        },
                        None => {},
                    }
                } else if id == 96 {
                    if c.len() >= 1 && c.len() - 1 == 8 * (c[0] as usize + 1) {
                        guamis = Some(decode_served_guami_list(c));
                    }
                } else if id == 80 {
                    if len >= 1 {
                        capacity = Some(data[start]);
                    }
                } else if id == 86 {
                    match decode_plmn_support_list(c) {
                        Some(p) => {
                            plmns = Some(p);
                        },
                        None => {},
                    }
                }
                proof {
                    seen = seen.push(ie);
                }
                cursor = next;
            },
        }
        i += 1;
    }
    proof {
        if i == count {
            lemma_prepend_stop(seen);
        }
    }
    let amf_name = match name {
        Some(s) => s,
        None => return Err(DecodeError::MissingMandatoryIe(1)),
    };
    let served_guami_list = match guamis {
        Some(g) => g,
        None => return Err(DecodeError::MissingMandatoryIe(96)),
    };
    let relative_amf_capacity = match capacity {
        Some(c) => c,
        None => return Err(DecodeError::MissingMandatoryIe(80)),
    };
    let plmn_support_list = match plmns {
        Some(p) => p,
        None => return Err(DecodeError::MissingMandatoryIe(86)),
    };
    Ok(NgSetupResponse { amf_name, served_guami_list, relative_amf_capacity, plmn_support_list })
}

} // verus!

verus! {

// ------------------------------------------- encoders: initiating messages

/// Text of `n` hex digits, as the encoder takes a TAC (6) or a cell id (10).
pub open spec fn hex_text_of_len(s: Seq<char>, n: nat) -> bool {
    is_hex_text(s) && s.len() == n
}

/// Big-endian octets of a number below 2^32.
pub open spec fn be32_octets(v: u64) -> Seq<u8> {
    seq![(v / 0x100_0000 % 256) as u8, (v / 0x1_0000 % 256) as u8, (v / 0x100 % 256) as u8, (v % 256) as u8]
}

/// A User Location Info content: the TAI (PLMN and three TAC octets) and,
/// with an NR-CGI, its PLMN, five cell octets and one spare zero octet,
/// fifteen octets in all, the length from which the decoder reads it.
pub open spec fn spec_location_content(u: UserLocationInfo) -> Result<Seq<u8>, EncodeError> {
    if !plmn_valid(u.tai.plmn_identity) || !hex_text_of_len(u.tai.tac@, 6) {
        Err(EncodeError::FieldOutOfRange)
    } else {
        let tai = plmn_identity_octets(u.tai.plmn_identity) + hex_octets(u.tai.tac@);
        match u.nr_cgi {
            None => Ok(tai),
            Some(c) => if plmn_valid(c.plmn_identity) && hex_text_of_len(c.nr_cell_identity@, 10) {
                Ok(tai + plmn_identity_octets(c.plmn_identity) + hex_octets(c.nr_cell_identity@) + seq![0u8])
            } else {
                Err(EncodeError::FieldOutOfRange)
            },
        }
    }
}

/// The value of an Initial UE Message: RAN-UE-NGAP-ID (four octets, below
/// 2^32), NAS PDU (under 16384 octets), User Location Info and RRC
/// establishment cause.
pub open spec fn spec_initial_ue_value(m: InitialUeMessage) -> Result<Seq<u8>, EncodeError> {
    if m.ran_ue_ngap_id >= 0x1_0000_0000 || m.nas_pdu@.len() >= 16384 {
        Err(EncodeError::FieldOutOfRange)
    } else {
        match spec_location_content(m.user_location_info) {
            Err(e) => Err(e),
            Ok(l) => Ok(
                seq![0u8, 0u8, 4u8] + ie_octets(85, 0, be32_octets(m.ran_ue_ngap_id)) + ie_octets(38, 0, m.nas_pdu@)
                    + ie_octets(121, 0, l) + ie_octets(90, 0x40, seq![m.rrc_establishment_cause]),
            ),
        }
    }
}

/// Appends the octets that hex text of `n` digits spells.
fn put_hex_octets(buf: &mut Vec<u8>, s: &String, n: usize) -> (r: Result<(), EncodeError>)
    ensures
        match r {
            Ok(_) => hex_text_of_len(s@, n as nat) && final(buf)@ == old(buf)@ + hex_octets(s@),
            Err(e) => !hex_text_of_len(s@, n as nat) && e == EncodeError::FieldOutOfRange,
        },
{
    match hex_decode(s.as_str()) {
        Some(mut v) => {
            if n % 2 != 0 || v.len() != n / 2 {
                return Err(EncodeError::FieldOutOfRange);
            }
            buf.append(&mut v);
            Ok(())
        },
        None => Err(EncodeError::FieldOutOfRange),
    }
}

fn encode_location(u: &UserLocationInfo) -> (r: Result<Vec<u8>, EncodeError>)
    ensures
        match r {
            Ok(v) => spec_location_content(*u) == Ok::<Seq<u8>, EncodeError>(v@),
            Err(e) => spec_location_content(*u) == Err::<Seq<u8>, EncodeError>(e),
        },
{
    let mut buf: Vec<u8> = Vec::new();
    encode_plmn_identity(&u.tai.plmn_identity, &mut buf)?;
    put_hex_octets(&mut buf, &u.tai.tac, 6)?;
    match &u.nr_cgi {
        None => {
            assert(buf@ =~= plmn_identity_octets(u.tai.plmn_identity) + hex_octets(u.tai.tac@));
        },
        Some(c) => {
            let ghost tai = buf@;
            encode_plmn_identity(&c.plmn_identity, &mut buf)?;
            put_hex_octets(&mut buf, &c.nr_cell_identity, 10)?;
            buf.push(0);
            assert(buf@ =~= tai + plmn_identity_octets(c.plmn_identity) + hex_octets(c.nr_cell_identity@) + seq![0u8]);
        },
    }
    Ok(buf)
}

pub fn encode_initial_ue_message(m: &InitialUeMessage) -> (r: Result<Vec<u8>, EncodeError>)
    ensures
        match r {
            Ok(v) => spec_initial_ue_value(*m) == Ok::<Seq<u8>, EncodeError>(v@),
            Err(e) => spec_initial_ue_value(*m) == Err::<Seq<u8>, EncodeError>(e),
        },
{
    if m.ran_ue_ngap_id >= 0x1_0000_0000 || m.nas_pdu.len() >= 16384 {
        return Err(EncodeError::FieldOutOfRange);
    }
    let location = encode_location(&m.user_location_info)?;
    let id = m.ran_ue_ngap_id;
    let id_octets = [(id / 0x100_0000 % 256) as u8, (id / 0x1_0000 % 256) as u8, (id / 0x100 % 256) as u8, (id % 256) as u8];
    assert(id_octets@ =~= be32_octets(id));
    let mut buf: Vec<u8> = Vec::new();
    buf.push(0x00);
    buf.push(0x00);
    buf.push(0x04);
    put_ie(&mut buf, 85, 0x00, &id_octets);
    put_ie(&mut buf, 38, 0x00, m.nas_pdu.as_slice());
    put_ie(&mut buf, 121, 0x00, location.as_slice());
    let cause = [m.rrc_establishment_cause];
    put_ie(&mut buf, 90, 0x40, &cause);
    assert(buf@ =~= seq![0u8, 0u8, 4u8] + ie_octets(85, 0, be32_octets(id)) + ie_octets(38, 0, m.nas_pdu@)
        + ie_octets(121, 0, location@) + ie_octets(90, 0x40, seq![m.rrc_establishment_cause]));
    Ok(buf)
}

/// The choice tag of each kind of node.
pub open spec fn node_tag(n: GlobalRanNodeId) -> u8 {
    match n {
        GlobalRanNodeId::GNB(_) => 0,
        GlobalRanNodeId::NgENB(_) => 1,
        GlobalRanNodeId::N3IWF(_) => 2,
        GlobalRanNodeId::TNGF(_) => 3,
        GlobalRanNodeId::TWIF(_) => 4,
        GlobalRanNodeId::WAGF(_) => 5,
    }
}

/// A Global RAN Node ID content: the choice tag, the PLMN, an id header
/// octet (zero) and the identifier's octets, at least one.
pub open spec fn spec_node_content(n: GlobalRanNodeId) -> Result<Seq<u8>, EncodeError> {
    let v = spec_node_value(n);
    if plmn_valid(spec_node_plmn(n)) && is_hex_text(v) && v.len() >= 2 {
        Ok(seq![node_tag(n)] + plmn_identity_octets(spec_node_plmn(n)) + seq![0u8] + hex_octets(v))
    } else {
        Err(EncodeError::FieldOutOfRange)
    }
}

pub open spec fn broadcast_ok(b: BroadcastPlmnItem) -> bool {
    plmn_valid(b.plmn_identity) && 1 <= b.tai_slice_support_list@.len() <= 256
}

pub open spec fn broadcast_octets(b: BroadcastPlmnItem) -> Seq<u8> {
    plmn_identity_octets(b.plmn_identity) + seq![(b.tai_slice_support_list@.len() - 1) as u8] + slice_items_octets(
        b.tai_slice_support_list@,
    )
}

pub open spec fn broadcasts_octets(bs: Seq<BroadcastPlmnItem>) -> Seq<u8>
    decreases bs.len(),
{
    if bs.len() == 0 {
        seq![]
    } else {
        broadcasts_octets(bs.drop_last()) + broadcast_octets(bs.last())
    }
}

pub open spec fn ta_ok(t: SupportedTaItem) -> bool {
    &&& hex_text_of_len(t.tac@, 6)
    &&& 1 <= t.broadcast_plmn_list@.len() <= 256
    &&& forall|j: int| 0 <= j < t.broadcast_plmn_list@.len() ==> broadcast_ok(#[trigger] t.broadcast_plmn_list@[j])
}

pub open spec fn ta_octets(t: SupportedTaItem) -> Seq<u8> {
    seq![0u8] + hex_octets(t.tac@) + seq![(t.broadcast_plmn_list@.len() - 1) as u8] + broadcasts_octets(
        t.broadcast_plmn_list@,
    )
}

pub open spec fn tas_octets(ts: Seq<SupportedTaItem>) -> Seq<u8>
    decreases ts.len(),
{
    if ts.len() == 0 {
        seq![]
    } else {
        tas_octets(ts.drop_last()) + ta_octets(ts.last())
    }
}

/// A supported TA list content: a count less one, then the TAs; one to
/// 256 of each list, three-octet TACs, SSTs only.
pub open spec fn spec_ta_list_content(ts: Seq<SupportedTaItem>) -> Result<Seq<u8>, EncodeError> {
    if 1 <= ts.len() <= 256 && forall|i: int| 0 <= i < ts.len() ==> ta_ok(#[trigger] ts[i]) {
        Ok(seq![(ts.len() - 1) as u8] + tas_octets(ts))
    } else {
        Err(EncodeError::FieldOutOfRange)
    }
}

/// The value of an NG Setup Request: the node id, the supported TA list
/// and the paging DRX (one octet, below 256), each content under 16384
/// octets.
pub open spec fn spec_setup_request_value(r: NgSetupRequest) -> Result<Seq<u8>, EncodeError> {
    match (spec_node_content(r.global_ran_node_id), spec_ta_list_content(r.supported_ta_list@)) {
        (Ok(n), Ok(t)) => if r.default_paging_drx < 256 && n.len() < 16384 && t.len() < 16384 {
            Ok(
                seq![0u8, 0u8, 3u8] + ie_octets(27, 0, n) + ie_octets(102, 0, t) + ie_octets(
                    21,
                    0x40,
                    seq![r.default_paging_drx as u8],
                ),
            )
        } else {
            Err(EncodeError::FieldOutOfRange)
        },
        _ => Err(EncodeError::FieldOutOfRange),
    }
}

fn encode_node_id(n: &GlobalRanNodeId) -> (r: Result<Vec<u8>, EncodeError>)
    ensures
        match r {
            Ok(v) => spec_node_content(*n) == Ok::<Seq<u8>, EncodeError>(v@),
            Err(e) => spec_node_content(*n) == Err::<Seq<u8>, EncodeError>(e),
        },
{
    let tag: u8 = match n {
        GlobalRanNodeId::GNB(_) => 0,
        GlobalRanNodeId::NgENB(_) => 1,
        GlobalRanNodeId::N3IWF(_) => 2,
        GlobalRanNodeId::TNGF(_) => 3,
        GlobalRanNodeId::TWIF(_) => 4,
        GlobalRanNodeId::WAGF(_) => 5,
    };
    let value = n.ran_node_id();
    let mut id = match hex_decode(value.as_str()) {
        Some(v) => v,
        None => return Err(EncodeError::FieldOutOfRange),
    };
    if id.len() == 0 {
        return Err(EncodeError::FieldOutOfRange);
    }
    let mut buf: Vec<u8> = Vec::new();
    buf.push(tag);
    encode_plmn_identity(n.plmn_identity(), &mut buf)?;
    buf.push(0x00);
    let ghost idv = id@;
    buf.append(&mut id);
    assert(buf@ =~= seq![tag] + plmn_identity_octets(spec_node_plmn(*n)) + seq![0u8] + idv);
    Ok(buf)
}

fn encode_broadcast_plmn(b: &BroadcastPlmnItem, buf: &mut Vec<u8>) -> (r: Result<(), EncodeError>)
    ensures
        match r {
            Ok(_) => broadcast_ok(*b) && final(buf)@ == old(buf)@ + broadcast_octets(*b),
            Err(e) => !broadcast_ok(*b) && e == EncodeError::FieldOutOfRange,
        },
{
    let k = b.tai_slice_support_list.len();
    encode_plmn_identity(&b.plmn_identity, buf)?;
    if k == 0 || k > 256 {
        return Err(EncodeError::FieldOutOfRange);
    }
    buf.push((k - 1) as u8);
    let ghost head = buf@;
    let mut j: usize = 0;
    while j < k
        invariant
            k == b.tai_slice_support_list@.len(),
            j <= k,
            buf@ == head + slice_items_octets(b.tai_slice_support_list@.subrange(0, j as int)),
        decreases k - j,
    {
        buf.push(0x00);
        buf.push(b.tai_slice_support_list[j].s_nssai.sst);
        assert(b.tai_slice_support_list@.subrange(0, j + 1).drop_last() =~= b.tai_slice_support_list@.subrange(0, j as int));
        assert(buf@ =~= head + slice_items_octets(b.tai_slice_support_list@.subrange(0, j + 1)));
        j += 1;
    }
    assert(b.tai_slice_support_list@.subrange(0, k as int) =~= b.tai_slice_support_list@);
    assert(final(buf)@ =~= old(buf)@ + broadcast_octets(*b));
    Ok(())
}

fn encode_ta(t: &SupportedTaItem, buf: &mut Vec<u8>) -> (r: Result<(), EncodeError>)
    ensures
        match r {
            Ok(_) => ta_ok(*t) && final(buf)@ == old(buf)@ + ta_octets(*t),
            Err(e) => !ta_ok(*t) && e == EncodeError::FieldOutOfRange,
        },
{
    let m = t.broadcast_plmn_list.len();
    buf.push(0x00);
    put_hex_octets(buf, &t.tac, 6)?;
    if m == 0 || m > 256 {
        return Err(EncodeError::FieldOutOfRange);
    }
    buf.push((m - 1) as u8);
    let ghost head = buf@;
    let mut j: usize = 0;
    while j < m
        invariant
            m == t.broadcast_plmn_list@.len(),
            j <= m,
            buf@ == head + broadcasts_octets(t.broadcast_plmn_list@.subrange(0, j as int)),
            forall|q: int| 0 <= q < j ==> broadcast_ok(#[trigger] t.broadcast_plmn_list@[q]),
        decreases m - j,
    {
        match encode_broadcast_plmn(&t.broadcast_plmn_list[j], buf) {
            Ok(_) => {},
            Err(e) => return Err(e),
        }
        assert(t.broadcast_plmn_list@.subrange(0, j + 1).drop_last() =~= t.broadcast_plmn_list@.subrange(0, j as int));
        assert(buf@ =~= head + broadcasts_octets(t.broadcast_plmn_list@.subrange(0, j + 1)));
        j += 1;
    }
    assert(t.broadcast_plmn_list@.subrange(0, m as int) =~= t.broadcast_plmn_list@);
    assert(final(buf)@ =~= old(buf)@ + ta_octets(*t));
    Ok(())
}

pub fn encode_supported_ta_list(list: &[SupportedTaItem]) -> (r: Result<Vec<u8>, EncodeError>)
    ensures
        match r {
            Ok(v) => spec_ta_list_content(list@) == Ok::<Seq<u8>, EncodeError>(v@),
            Err(e) => spec_ta_list_content(list@) == Err::<Seq<u8>, EncodeError>(e),
        },
{
    let n = list.len();
    if n == 0 || n > 256 {
        return Err(EncodeError::FieldOutOfRange);
    }
    let mut buf: Vec<u8> = Vec::new();
    buf.push((n - 1) as u8);
    let mut i: usize = 0;
    while i < n
        invariant
            n == list@.len(),
            1 <= n <= 256,
            i <= n,
            buf@ == seq![(n - 1) as u8] + tas_octets(list@.subrange(0, i as int)),
            forall|j: int| 0 <= j < i ==> ta_ok(#[trigger] list@[j]),
        decreases n - i,
    {
        match encode_ta(&list[i], &mut buf) {
            Ok(_) => {},
            Err(e) => return Err(e),
        }
        assert(list@.subrange(0, i + 1).drop_last() =~= list@.subrange(0, i as int));
        assert(buf@ =~= seq![(n - 1) as u8] + tas_octets(list@.subrange(0, i + 1)));
        i += 1;
    }
    assert(list@.subrange(0, n as int) =~= list@);
    Ok(buf)
}

pub fn encode_ng_setup_request(request: &NgSetupRequest) -> (r: Result<Vec<u8>, EncodeError>)
    ensures
        match r {
            Ok(v) => spec_setup_request_value(*request) == Ok::<Seq<u8>, EncodeError>(v@),
            Err(e) => spec_setup_request_value(*request) == Err::<Seq<u8>, EncodeError>(e),
        },
{
    let node = encode_node_id(&request.global_ran_node_id)?;
    let tas = encode_supported_ta_list(request.supported_ta_list.as_slice())?;
    if request.default_paging_drx >= 256 || node.len() >= 16384 || tas.len() >= 16384 {
        return Err(EncodeError::FieldOutOfRange);
    }
    let mut buf: Vec<u8> = Vec::new();
    buf.push(0x00);
    buf.push(0x00);
    buf.push(0x03);
    put_ie(&mut buf, 27, 0x00, node.as_slice());
    put_ie(&mut buf, 102, 0x00, tas.as_slice());
    let drx = [request.default_paging_drx as u8];
    put_ie(&mut buf, 21, 0x40, &drx);
    assert(buf@ =~= seq![0u8, 0u8, 3u8] + ie_octets(27, 0, node@) + ie_octets(102, 0, tas@) + ie_octets(
        21,
        0x40,
        seq![request.default_paging_drx as u8],
    ));
    Ok(buf)
}

} // verus!
