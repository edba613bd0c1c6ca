//! Round-trip laws of the codec: what the encoder writes, the decoder
//! reads back.

use vstd::prelude::*;
use crate::error::{DecodeError, EncodeError};
use crate::ngap::aper::{aper_length_octets, lemma_aper_length_round_trip};
use crate::ngap::codec::{last_node_ie, node_id_decoded, node_id_status, node_tag, setup_request_decoded, setup_request_status, spec_node_content, spec_setup_request_value, spec_ta_list, spec_ta_list_content, tas_view, broadcast_octets, broadcast_ok, broadcasts_octets, ta_octets, ta_ok, tas_octets, tas_from, plmns_from, slices_from, NGAP_PROCEDURE_CODE_INITIAL_UE_MESSAGE, be32_octets, initial_ue_decoded, initial_ue_status, location_decoded, spec_initial_ue_value, spec_location_content, NGAP_PROCEDURE_CODE_NG_SETUP, NgapMessageValue, NgapPdu, SuccessfulOutcome, UnsuccessfulOutcome, guami_decoded, guami_ie, guami_items_octets, guami_list_decoded, guami_list_ok, guami_octets, ie_octets, last_ie_where, name_ie, pdu_decoded, pdu_frame, pdu_parts, pdu_status, plmn_identity_octets, plmn_support_item_ok, plmn_support_items_octets, plmn_support_octets, plmn_view_of, pointer_field, region_octet, set_id_field, set_id_text, setup_failure_status, setup_response_decoded, setup_response_status, slice_items_octets, spec_encode_pdu, spec_encode_value, spec_guami_list, spec_plmn_support_items, spec_plmn_support_list, spec_setup_failure_value, spec_setup_response_value, support_ie, support_items_from, support_items_view};
use crate::ngap::ies::{IeRef, IeStep, be16, content, ie_step, ie_walk, last_ie, value_ies};
use crate::ngap::messages::{GlobalRanNodeId, NgSetupRequest, spec_node_plmn, spec_node_value, BroadcastPlmnItem, SupportedTaItem, TaView, InitialUeMessage, UserLocationInfo, BroadcastView, NgSetupFailure, NgSetupResponse, PlmnSupportItem, ServedGuami, SliceSupportItem, SliceView};
use crate::text::{hex2, hex3, hex_char_value, hex_digit, hex_number, hex_octets, hex_text, hex_value, is_hex_char, is_hex_text};
use crate::utils::encoding::{lemma_plmn_round_trip};
use vstd::utf8::encode_utf8;

verus! {

// -------------------------------------------------------------------- laws

proof fn lemma_frame_of_encoded(kind: u8, procedure_code: u8, criticality: u8, v: Seq<u8>)
    requires
        kind <= 2,
        criticality <= 3,
        v.len() < 16384,
    ensures
        pdu_frame(
            seq![(kind * 32) as u8, procedure_code, (criticality * 64) as u8] + aper_length_octets(v.len())
                + v,
        ) == Ok::<(u8, u8, u8, Seq<u8>), DecodeError>((kind, procedure_code, criticality, v)),
{
    let data = seq![(kind * 32) as u8, procedure_code, (criticality * 64) as u8] + aper_length_octets(v.len())
        + v;
    let lb: int = if v.len() < 128 { 1 } else { 2 };
    assert(data.subrange(3, data.len() as int) =~= aper_length_octets(v.len()) + v);
    crate::ngap::aper::lemma_aper_length_round_trip(v.len(), v);
    assert(aper_length_octets(v.len()).len() == lb);
    assert(data.subrange(3 + lb, 3 + lb + v.len()) =~= v);
}

/// The IEs of an encoded NG Setup Failure value and what they carry.
proof fn lemma_failure_value_ies(f: NgSetupFailure)
    ensures
        setup_failure_status(spec_setup_failure_value(f)) is Ok,
        ({
            let v = spec_setup_failure_value(f);
            let ies = setup_failure_status(v)->Ok_0;
            &&& last_ie(ies, 15, 2) matches Some(ie) && v[ie.start] == f.cause.cause_type && v[ie.start + 1]
                == f.cause.cause_value
            &&& match f.time_to_wait {
                Some(t) => last_ie(ies, 107, 1) matches Some(ie) && v[ie.start] == t,
                None => last_ie(ies, 107, 1) is None,
            }
        }),
{
    let v = spec_setup_failure_value(f);
    let ct = f.cause.cause_type;
    let cv = f.cause.cause_value;
    let cause_ie = IeRef { id: 15, start: 7, len: 2 };
    match f.time_to_wait {
        Some(t) => {
            assert(v =~= seq![0u8, 0, 2, 0, 15, 0, 2, ct, cv, 0, 107, 0x40, 1, t]);
            assert(v.subrange(6, 14) =~= seq![2u8, ct, cv, 0, 107, 0x40, 1, t]);
            assert(ie_step(v, 3) == IeStep::Item(cause_ie, 9));
            let ttw_ie = IeRef { id: 107, start: 13, len: 1 };
            assert(v.subrange(12, 14) =~= seq![1u8, t]);
            assert(ie_step(v, 9) == IeStep::Item(ttw_ie, 14));
            assert(ie_walk(v, 14, 0) == Ok::<Seq<IeRef>, DecodeError>(seq![]));
            assert(ie_walk(v, 9, 1) == Ok::<Seq<IeRef>, DecodeError>(seq![ttw_ie] + seq![]));
            assert(ie_walk(v, 3, 2) == Ok::<Seq<IeRef>, DecodeError>(seq![cause_ie] + (seq![ttw_ie] + seq![])));
            let ies = seq![cause_ie] + (seq![ttw_ie] + seq![]);
            assert(ies =~= seq![cause_ie, ttw_ie]);
            assert(value_ies(v) == Ok::<Seq<IeRef>, DecodeError>(ies));
            assert(ies.drop_last() =~= seq![cause_ie]);
            assert(seq![cause_ie].drop_last() =~= Seq::<IeRef>::empty());
            assert(last_ie(ies, 107, 1) == Some(ttw_ie));
            assert(last_ie(seq![cause_ie], 15, 2) == Some(cause_ie));
            assert(last_ie(ies, 15, 2) == Some(cause_ie));
        },
        None => {
            assert(v =~= seq![0u8, 0, 1, 0, 15, 0, 2, ct, cv]);
            assert(v.subrange(6, 9) =~= seq![2u8, ct, cv]);
            assert(ie_step(v, 3) == IeStep::Item(cause_ie, 9));
            assert(ie_walk(v, 9, 0) == Ok::<Seq<IeRef>, DecodeError>(seq![]));
            assert(ie_walk(v, 3, 1) == Ok::<Seq<IeRef>, DecodeError>(seq![cause_ie] + seq![]));
            let ies = seq![cause_ie] + seq![];
            assert(ies =~= seq![cause_ie]);
            assert(value_ies(v) == Ok::<Seq<IeRef>, DecodeError>(ies));
            assert(ies.drop_last() =~= Seq::<IeRef>::empty());
            assert(last_ie(Seq::<IeRef>::empty(), 107, 1) is None);
            assert(last_ie(ies, 107, 1) is None);
            assert(last_ie(ies, 15, 2) == Some(cause_ie));
        },
    }
}

/// An NG Setup Failure that the encoder writes is read back whole: an
/// unsuccessful outcome with the same procedure code and criticality, the
/// same cause and time to wait. Only the criticality diagnostics, which the
/// wire form does not carry, are lost.
pub proof fn lemma_setup_failure_round_trip(p: NgapPdu, q: NgapPdu)
    requires
        p matches NgapPdu::UnsuccessfulOutcome(m) && m.value is NgSetupFailure,
        pdu_parts(p).1 == NGAP_PROCEDURE_CODE_NG_SETUP,
        spec_encode_pdu(p) is Ok,
    ensures
        pdu_status(spec_encode_pdu(p)->Ok_0) is Ok,
        pdu_decoded(q, spec_encode_pdu(p)->Ok_0) ==> {
            &&& q is UnsuccessfulOutcome
            &&& pdu_parts(q).1 == pdu_parts(p).1
            &&& pdu_parts(q).2 == pdu_parts(p).2
            &&& pdu_parts(q).3 matches NgapMessageValue::NgSetupFailure(g)
            &&& pdu_parts(p).3 matches NgapMessageValue::NgSetupFailure(f)
            &&& g.cause == f.cause
            &&& g.time_to_wait == f.time_to_wait
        },
{
    let (kind, pc, crit, value) = pdu_parts(p);
    let f = value->NgSetupFailure_0;
    let v = spec_setup_failure_value(f);
    assert(spec_encode_value(p) == Ok::<Seq<u8>, EncodeError>(v));
    assert(v.len() < 16384) by {
        match f.time_to_wait {
            Some(t) => assert(v.len() == 14),
            None => assert(v.len() == 9),
        }
    }
    lemma_frame_of_encoded(kind, pc, crit, v);
    lemma_failure_value_ies(f);
    if pdu_decoded(q, spec_encode_pdu(p)->Ok_0) {
        let (qk, qpc, qc, qv) = pdu_parts(q);
        assert(qk == 2);
        assert(q is UnsuccessfulOutcome);
    }
}

} // verus!

verus! {

// ------------------------------------------- laws: NG Setup Response

/// An IE as the encoder writes it is read back by one step of the walk,
/// with its content.
proof fn lemma_ie_step_encoded(data: Seq<u8>, at: int, id: u16, criticality: u8, c: Seq<u8>)
    requires
        0 <= at,
        c.len() < 16384,
        at + ie_octets(id, criticality, c).len() <= data.len(),
        data.subrange(at, at + ie_octets(id, criticality, c).len()) == ie_octets(id, criticality, c),
    ensures
        ({
            let lb: int = if c.len() < 128 { 1 } else { 2 };
            let ie = IeRef { id, start: at + 3 + lb, len: c.len() as int };
            &&& ie_step(data, at) == IeStep::Item(ie, at + ie_octets(id, criticality, c).len())
            &&& content(data, ie) == c
            &&& ie_octets(id, criticality, c).len() == 3 + lb + c.len()
        }),
{
    let lb: int = if c.len() < 128 { 1 } else { 2 };
    let o = ie_octets(id, criticality, c);
    let len_octets = aper_length_octets(c.len());
    assert(len_octets.len() == lb);
    assert(o.len() == 3 + lb + c.len());
    let rest = data.subrange(at + o.len(), data.len() as int);
    assert(data.subrange(at, at + o.len())[0] == data[at]);
    assert(data.subrange(at, at + o.len())[1] == data[at + 1]);
    assert(data[at] == o[0] && data[at + 1] == o[1]);
    assert(data.subrange(at + 3, data.len() as int) =~= len_octets + (c + rest)) by {
        assert forall|k: int| 0 <= k < data.len() - (at + 3) implies #[trigger] data.subrange(at + 3, data.len() as int)[k]
            == (len_octets + (c + rest))[k] by {
            if k < o.len() - 3 {
                assert(data.subrange(at, at + o.len())[3 + k] == data[at + 3 + k]);
                assert(data[at + 3 + k] == o[3 + k]);
            } else {
                assert(rest[k - (o.len() - 3)] == data[at + 3 + k]);
            }
        }
    }
    crate::ngap::aper::lemma_aper_length_round_trip(c.len(), c + rest);
    assert(be16((id / 256) as u8, (id % 256) as u8) == id);
    let ie = IeRef { id, start: at + 3 + lb, len: c.len() as int };
    assert forall|k: int| 0 <= k < c.len() implies #[trigger] content(data, ie)[k] == c[k] by {
        assert(content(data, ie)[k] == data[at + 3 + lb + k]);
        assert(data.subrange(at, at + o.len())[3 + lb + k] == data[at + 3 + lb + k]);
        assert(o[3 + lb + k] == c[k]);
    }
    assert(content(data, ie) =~= c);
}

proof fn lemma_guami_layout(gs: Seq<ServedGuami>)
    ensures
        guami_items_octets(gs).len() == 8 * gs.len(),
        forall|i: int, j: int| 0 <= i < gs.len() && 0 <= j < 8 ==> #[trigger] guami_items_octets(gs)[8 * i + j]
            == guami_octets(gs[i])[j],
    decreases gs.len(),
{
    if gs.len() > 0 {
        let init = gs.drop_last();
        lemma_guami_layout(init);
        assert forall|i: int, j: int| 0 <= i < gs.len() && 0 <= j < 8 implies #[trigger] guami_items_octets(gs)[8 * i + j]
            == guami_octets(gs[i])[j] by {
            if i < gs.len() - 1 {
                assert(guami_items_octets(init)[8 * i + j] == guami_octets(init[i])[j]);
            }
        }
    }
}

proof fn lemma_slice_layout(ss: Seq<SliceSupportItem>)
    ensures
        slice_items_octets(ss).len() == 2 * ss.len(),
        forall|j: int| 0 <= j < ss.len() ==> #[trigger] slice_items_octets(ss)[2 * j + 1] == ss[j].s_nssai.sst,
    decreases ss.len(),
{
    if ss.len() > 0 {
        lemma_slice_layout(ss.drop_last());
        assert forall|j: int| 0 <= j < ss.len() implies #[trigger] slice_items_octets(ss)[2 * j + 1] == ss[j].s_nssai.sst by {
            if j < ss.len() - 1 {
                assert(slice_items_octets(ss.drop_last())[2 * j + 1] == ss.drop_last()[j].s_nssai.sst);
            }
        }
    }
}

proof fn lemma_support_items_front(ps: Seq<PlmnSupportItem>)
    requires
        ps.len() >= 1,
    ensures
        plmn_support_items_octets(ps) == plmn_support_octets(ps[0]) + plmn_support_items_octets(ps.drop_first()),
    decreases ps.len(),
{
    if ps.len() == 1 {
        assert(ps.drop_first() =~= Seq::<PlmnSupportItem>::empty());
        assert(ps.drop_last() =~= Seq::<PlmnSupportItem>::empty());
        assert(plmn_support_items_octets(ps) =~= plmn_support_octets(ps[0]) + plmn_support_items_octets(ps.drop_first()));
    } else {
        let init = ps.drop_last();
        lemma_support_items_front(init);
        assert(init.drop_first() =~= ps.drop_first().drop_last());
        assert(plmn_support_items_octets(ps) =~= plmn_support_octets(ps[0]) + plmn_support_items_octets(ps.drop_first()));
    }
}

/// What a PLMN support list reads back as: the PLMNs and the SSTs; the SDs
/// are not carried.
pub open spec fn support_items_expected(ps: Seq<PlmnSupportItem>) -> Seq<BroadcastView> {
    ps.map_values(
        |p: PlmnSupportItem|
            BroadcastView {
                plmn: p.plmn_identity@,
                slices: p.slice_support_list@.map_values(|s: SliceSupportItem| SliceView { sst: s.s_nssai.sst, sd: None }),
            },
    )
}

proof fn lemma_support_items_parse(c: Seq<u8>, cursor: int, ps: Seq<PlmnSupportItem>)
    requires
        0 <= cursor <= c.len(),
        c.subrange(cursor, c.len() as int) == plmn_support_items_octets(ps),
        forall|i: int| 0 <= i < ps.len() ==> plmn_support_item_ok(#[trigger] ps[i]),
    ensures
        support_items_from(c, cursor, ps.len()) == Some(support_items_expected(ps)),
    decreases ps.len(),
{
    if ps.len() == 0 {
        assert(support_items_expected(ps) =~= seq![]);
    } else {
        let p = ps[0];
        lemma_support_items_front(ps);
        let k = p.slice_support_list@.len();
        let po = plmn_support_octets(p);
        lemma_slice_layout(p.slice_support_list@);
        assert(po.len() == 5 + 2 * k);
        let tail = ps.drop_first();
        assert(c.subrange(cursor, c.len() as int).len() == c.len() - cursor);
        assert(plmn_support_items_octets(ps).len() == po.len() + plmn_support_items_octets(tail).len());
        assert(c.len() - cursor == po.len() + plmn_support_items_octets(tail).len());
        assert forall|i: int| 0 <= i < tail.len() implies plmn_support_item_ok(#[trigger] tail[i]) by {
            assert(tail[i] == ps[i + 1]);
        }
        assert forall|j: int| 0 <= j < po.len() implies #[trigger] c[cursor + j] == po[j] by {
            assert(c.subrange(cursor, c.len() as int)[j] == c[cursor + j]);
            assert(plmn_support_items_octets(ps)[j] == po[j]);
        }
        assert(c[cursor + 4] == (k - 1) as u8);
        let end = cursor + 5 + 2 * k;
        assert(c.subrange(end, c.len() as int) =~= plmn_support_items_octets(tail)) by {
            assert forall|j: int| 0 <= j < c.len() - end implies #[trigger] c.subrange(end, c.len() as int)[j]
                == plmn_support_items_octets(tail)[j] by {
                assert(c.subrange(cursor, c.len() as int)[po.len() + j] == c[end + j]);
                assert(plmn_support_items_octets(ps)[po.len() + j] == plmn_support_items_octets(tail)[j]);
            }
        }
        lemma_support_items_parse(c, end, tail);
        assert forall|j: int| 0 <= j < 3 implies #[trigger] c.subrange(cursor + 1, cursor + 4)[j]
            == plmn_identity_octets(p.plmn_identity)[j] by {
            assert(c.subrange(cursor, c.len() as int)[1 + j] == c[cursor + 1 + j]);
            assert(plmn_support_items_octets(ps)[1 + j] == po[1 + j]);
            assert(c[cursor + 1 + j] == po[1 + j]);
        }
        assert(c.subrange(cursor + 1, cursor + 4) =~= plmn_identity_octets(p.plmn_identity));
        crate::utils::encoding::lemma_plmn_round_trip(p.plmn_identity.mcc@, p.plmn_identity.mnc@);
        let first = BroadcastView {
            plmn: plmn_view_of(c.subrange(cursor + 1, cursor + 4)),
            slices: Seq::new(k as nat, |j: int| SliceView { sst: c[cursor + 5 + 2 * j + 1], sd: None }),
        };
        assert(first.slices =~= p.slice_support_list@.map_values(|s: SliceSupportItem| SliceView { sst: s.s_nssai.sst, sd: None })) by {
            let expected = p.slice_support_list@.map_values(|s: SliceSupportItem| SliceView { sst: s.s_nssai.sst, sd: None });
            assert forall|j: int| 0 <= j < k implies #[trigger] first.slices[j] == expected[j] by {
                assert(c.subrange(cursor, c.len() as int)[5 + 2 * j + 1] == c[cursor + 5 + 2 * j + 1]);
                assert(plmn_support_items_octets(ps)[5 + 2 * j + 1] == po[5 + 2 * j + 1]);
                assert(c[cursor + 5 + 2 * j + 1] == po[5 + 2 * j + 1]);
                assert(po[5 + 2 * j + 1] == slice_items_octets(p.slice_support_list@)[2 * j + 1]);
            }
        }
        assert(seq![first] + support_items_expected(tail) =~= support_items_expected(ps));
    }
}

} // verus!

verus! {

proof fn lemma_hex_digit(n: u8)
    requires
        n < 16,
    ensures
        is_hex_char(hex_digit(n)),
        hex_char_value(hex_digit(n)) == n,
        hex_digit(n) != '+',
{
}

proof fn lemma_region_text(b: u8)
    ensures
        region_octet(hex_text(seq![b])) == b,
{
    let t = hex_text(seq![b]);
    assert(seq![b].drop_last() =~= Seq::<u8>::empty());
    assert(seq![b].last() == b);
    assert(hex_text(Seq::<u8>::empty()) =~= Seq::<char>::empty());
    assert(t == hex_text(Seq::<u8>::empty()) + seq![hex_digit(b / 16), hex_digit(b % 16)]);
    assert(t =~= seq![hex_digit(b / 16), hex_digit(b % 16)]);
    lemma_hex_digit(b / 16);
    lemma_hex_digit(b % 16);
    assert(is_hex_text(t));
    assert(hex_octets(t)[0] == (hex_char_value(t[0]) * 16 + hex_char_value(t[1])) as u8);
}

proof fn lemma_hex_number_of_digits(s: Seq<char>, v: int, limit: int)
    requires
        s.len() > 0,
        forall|i: int| 0 <= i < s.len() ==> is_hex_char(#[trigger] s[i]),
        s[0] != '+',
        hex_value(s) == v,
        v < limit,
    ensures
        hex_number(s, limit) == Some(v),
{
}

proof fn lemma_set_text(f: int)
    requires
        0 <= f < 0x1_0000,
        f % 64 == 0,
    ensures
        set_id_field(set_id_text((f / 256) as u8, (f % 256) as u8)) == f,
{
    let hi = (f / 256) as u8;
    let lo = (f % 256) as u8;
    assert(hi * 256 + lo == f);
    let v = f / 64;
    assert(v < 1024);
    let t = hex3(v);
    lemma_hex_digit((v / 256) as u8);
    lemma_hex_digit((v / 16 % 16) as u8);
    lemma_hex_digit((v % 16) as u8);
    assert(t.drop_last().drop_last().drop_last() =~= Seq::<char>::empty());
    assert(t.drop_last().drop_last() =~= seq![t[0]]);
    assert(t.drop_last() =~= seq![t[0], t[1]]);
    reveal_with_fuel(hex_value, 4);
    assert(hex_value(t) == (((v / 256) * 16 + v / 16 % 16) * 16 + v % 16)) by {
        assert(hex_value(seq![t[0]]) == hex_char_value(t[0])) by {
            assert(seq![t[0]].drop_last() =~= Seq::<char>::empty());
        }
        assert(seq![t[0], t[1]].drop_last() =~= seq![t[0]]);
    }
    assert((((v / 256) * 16 + v / 16 % 16) * 16 + v % 16) == v) by (nonlinear_arith)
        requires
            0 <= v < 4096,
    ;
    assert(forall|i: int| 0 <= i < t.len() ==> is_hex_char(#[trigger] t[i]));
    lemma_hex_number_of_digits(t, v, 0x1_0000);
    assert(v * 64 % 0x1_0000 == f) by (nonlinear_arith)
        requires
            v == f / 64,
            f % 64 == 0,
            0 <= f < 0x1_0000,
    ;
}

proof fn lemma_pointer_text(x: int)
    requires
        0 <= x < 256,
        x % 4 == 0,
    ensures
        pointer_field(hex2(x / 4)) == x,
{
    let v = x / 4;
    let t = hex2(v);
    lemma_hex_digit((v / 16) as u8);
    lemma_hex_digit((v % 16) as u8);
    assert(t.drop_last().drop_last() =~= Seq::<char>::empty());
    assert(t.drop_last() =~= seq![t[0]]);
    reveal_with_fuel(hex_value, 3);
    assert(hex_value(t) == (v / 16) * 16 + v % 16);
    assert(forall|i: int| 0 <= i < t.len() ==> is_hex_char(#[trigger] t[i]));
    lemma_hex_number_of_digits(t, v, 0x100);
    assert(v * 4 % 0x100 == x);
}

proof fn lemma_guami_fields(g: ServedGuami)
    ensures
        0 <= set_id_field(g.amf_set_id@) < 0x1_0000,
        set_id_field(g.amf_set_id@) % 64 == 0,
        0 <= pointer_field(g.amf_pointer@) < 0x100,
        pointer_field(g.amf_pointer@) % 4 == 0,
{
    match hex_number(g.amf_set_id@, 0x1_0000) {
        Some(v) => {
            assert((v * 64 % 0x1_0000) % 64 == 0) by (nonlinear_arith);
        },
        None => {},
    }
    match hex_number(g.amf_pointer@, 0x100) {
        Some(v) => {
            assert((v * 4 % 0x100) % 4 == 0) by (nonlinear_arith);
        },
        None => {},
    }
}

} // verus!

verus! {

/// A GUAMI read back carries what the wire form of the original carries:
/// the PLMN, the region octet, the set field and the pointer field.
pub open spec fn guami_same_on_wire(s: ServedGuami, r: ServedGuami) -> bool {
    &&& s.plmn_identity@ == r.plmn_identity@
    &&& region_octet(s.amf_region_id@) == region_octet(r.amf_region_id@)
    &&& set_id_field(s.amf_set_id@) == set_id_field(r.amf_set_id@)
    &&& pointer_field(s.amf_pointer@) == pointer_field(r.amf_pointer@)
}

/// A response read back carries what the wire form of the original
/// carries: the AMF name, the capacity, each GUAMI as above, and each
/// supported PLMN with the SSTs of its slices.
pub open spec fn response_same_on_wire(s: NgSetupResponse, r: NgSetupResponse) -> bool {
    &&& s.amf_name@ == r.amf_name@
    &&& s.relative_amf_capacity == r.relative_amf_capacity
    &&& s.served_guami_list@.len() == r.served_guami_list@.len()
    &&& forall|i: int| 0 <= i < s.served_guami_list@.len() ==> guami_same_on_wire(
        #[trigger] s.served_guami_list@[i],
        r.served_guami_list@[i],
    )
    &&& support_items_view(s.plmn_support_list@) == support_items_expected(r.plmn_support_list@)
}

proof fn lemma_guami_list_read_back(gs: Seq<ServedGuami>, list: Seq<ServedGuami>)
    requires
        spec_guami_list(gs) is Ok,
        guami_list_decoded(list, spec_guami_list(gs)->Ok_0),
    ensures
        list.len() == gs.len(),
        forall|i: int| 0 <= i < list.len() ==> guami_same_on_wire(#[trigger] list[i], gs[i]),
{
    let g = spec_guami_list(gs)->Ok_0;
    let items = guami_items_octets(gs);
    lemma_guami_layout(gs);
    assert forall|i: int| 0 <= i < list.len() implies guami_same_on_wire(#[trigger] list[i], gs[i]) by {
        let at = 1 + 8 * i;
        let o = guami_octets(gs[i]);
        assert forall|j: int| 0 <= j < 8 implies #[trigger] g[at + j] == o[j] by {
            assert(g[1 + (8 * i + j)] == items[8 * i + j]);
            assert(items[8 * i + j] == o[j]);
        }
        assert(guami_decoded(list[i], g, at));
        assert(g.subrange(at + 1, at + 4) =~= plmn_identity_octets(gs[i].plmn_identity)) by {
            assert(g[at + 1] == o[1] && g[at + 2] == o[2] && g[at + 3] == o[3]);
        }
        crate::utils::encoding::lemma_plmn_round_trip(gs[i].plmn_identity.mcc@, gs[i].plmn_identity.mnc@);
        assert(g[at + 4] == o[4]);
        lemma_region_text(region_octet(gs[i].amf_region_id@));
        lemma_guami_fields(gs[i]);
        let f = set_id_field(gs[i].amf_set_id@);
        assert(g[at + 5] == o[5] && g[at + 6] == o[6]);
        lemma_set_text(f);
        let x = pointer_field(gs[i].amf_pointer@);
        assert(g[at + 7] == o[7]);
        lemma_pointer_text(x);
    }
}

/// Where the four IEs of an encoded NG Setup Response value sit.
spec fn response_ies(r: NgSetupResponse) -> Seq<IeRef> {
    let name = encode_utf8(r.amf_name@);
    let g = spec_guami_list(r.served_guami_list@)->Ok_0;
    let pl = spec_plmn_support_list(r.plmn_support_list@)->Ok_0;
    let o1: int = 3;
    let o2 = o1 + ie_octets(1, 0, name).len();
    let o3 = o2 + ie_octets(96, 0, g).len();
    let o4 = o3 + ie_octets(80, 0, seq![r.relative_amf_capacity]).len();
    seq![
        IeRef { id: 1, start: o1 + 3 + (if name.len() < 128 { 1int } else { 2int }), len: name.len() as int },
        IeRef { id: 96, start: o2 + 3 + (if g.len() < 128 { 1int } else { 2int }), len: g.len() as int },
        IeRef { id: 80, start: o3 + 4, len: 1 },
        IeRef { id: 86, start: o4 + 3 + (if pl.len() < 128 { 1int } else { 2int }), len: pl.len() as int },
    ]
}

#[verifier::rlimit(80)]
proof fn lemma_response_walk(r: NgSetupResponse)
    requires
        spec_setup_response_value(r) is Ok,
    ensures
        ({
            let v = spec_setup_response_value(r)->Ok_0;
            let ies = response_ies(r);
            &&& value_ies(v) == Ok::<Seq<IeRef>, DecodeError>(ies)
            &&& v.len() >= 3
            &&& content(v, ies[0]) == encode_utf8(r.amf_name@)
            &&& content(v, ies[1]) == spec_guami_list(r.served_guami_list@)->Ok_0
            &&& content(v, ies[2]) == seq![r.relative_amf_capacity]
            &&& content(v, ies[3]) == spec_plmn_support_list(r.plmn_support_list@)->Ok_0
        }),
{
    let gs = r.served_guami_list@;
    let ps = r.plmn_support_list@;
    let g = spec_guami_list(gs)->Ok_0;
    let pl = spec_plmn_support_list(ps)->Ok_0;
    let name = encode_utf8(r.amf_name@);
    let cap = seq![r.relative_amf_capacity];
    let a = ie_octets(1, 0, name);
    let b = ie_octets(96, 0, g);
    let c = ie_octets(80, 0, cap);
    let d = ie_octets(86, 0, pl);
    let v = spec_setup_response_value(r)->Ok_0;
    assert(v == seq![0u8, 0u8, 4u8] + a + b + c + d);
    let o1: int = 3;
    let o2 = o1 + a.len();
    let o3 = o2 + b.len();
    let o4 = o3 + c.len();
    let o5 = o4 + d.len();
    assert(o5 == v.len());
    assert(v.subrange(o1, o2) =~= a);
    assert(v.subrange(o2, o3) =~= b);
    assert(v.subrange(o3, o4) =~= c);
    assert(v.subrange(o4, o5) =~= d);
    lemma_ie_step_encoded(v, o1, 1, 0, name);
    lemma_ie_step_encoded(v, o2, 96, 0, g);
    lemma_ie_step_encoded(v, o3, 80, 0, cap);
    lemma_ie_step_encoded(v, o4, 86, 0, pl);
    let ies = response_ies(r);
    reveal_with_fuel(ie_walk, 5);
    assert(ie_walk(v, o5, 0) == Ok::<Seq<IeRef>, DecodeError>(seq![]));
    assert(ie_walk(v, o4, 1) == Ok::<Seq<IeRef>, DecodeError>(seq![ies[3]] + seq![]));
    assert(ie_walk(v, o3, 2) == Ok::<Seq<IeRef>, DecodeError>(seq![ies[2]] + (seq![ies[3]] + seq![])));
    assert(ie_walk(v, o2, 3) == Ok::<Seq<IeRef>, DecodeError>(seq![ies[1]] + (seq![ies[2]] + (seq![ies[3]] + seq![]))));
    assert(ie_walk(v, o1, 4) == Ok::<Seq<IeRef>, DecodeError>(
        seq![ies[0]] + (seq![ies[1]] + (seq![ies[2]] + (seq![ies[3]] + seq![]))),
    ));
    assert(seq![ies[0]] + (seq![ies[1]] + (seq![ies[2]] + (seq![ies[3]] + seq![]))) =~= ies);
}

/// The value the encoder writes for an NG Setup Response is read back as
/// a response that carries the same things on the wire.
#[verifier::rlimit(50)]
proof fn lemma_response_value(r: NgSetupResponse)
    requires
        spec_setup_response_value(r) is Ok,
    ensures
        setup_response_status(spec_setup_response_value(r)->Ok_0) is Ok,
        forall|s: NgSetupResponse|
            setup_response_decoded(
                s,
                spec_setup_response_value(r)->Ok_0,
                setup_response_status(spec_setup_response_value(r)->Ok_0)->Ok_0,
            ) ==> response_same_on_wire(s, r),
{
    let gs = r.served_guami_list@;
    let ps = r.plmn_support_list@;
    let g = spec_guami_list(gs)->Ok_0;
    let pl = spec_plmn_support_list(ps)->Ok_0;
    let v = spec_setup_response_value(r)->Ok_0;
    lemma_response_walk(r);
    let ies = response_ies(r);
    let ie1 = ies[0];
    let ie2 = ies[1];
    let ie3 = ies[2];
    let ie4 = ies[3];
    assert(ies =~= seq![ie1, ie2, ie3, ie4]);
    assert(ies.drop_last() =~= seq![ie1, ie2, ie3]);
    assert(seq![ie1, ie2, ie3].drop_last() =~= seq![ie1, ie2]);
    assert(seq![ie1, ie2].drop_last() =~= seq![ie1]);
    assert(seq![ie1].drop_last() =~= Seq::<IeRef>::empty());
    vstd::utf8::encode_utf8_valid_utf8(r.amf_name@);
    vstd::utf8::encode_utf8_decode_utf8(r.amf_name@);
    reveal_with_fuel(last_ie_where, 5);
    assert(name_ie(v, ies) == Some(ie1));
    lemma_guami_layout(gs);
    assert(guami_list_ok(g));
    assert(guami_ie(v, ies) == Some(ie2));
    reveal_with_fuel(last_ie, 3);
    assert(last_ie(ies, 80, 1) == Some(ie3));
    assert(pl.subrange(1, pl.len() as int) =~= plmn_support_items_octets(ps));
    lemma_support_items_parse(pl, 1, ps);
    assert(spec_plmn_support_items(pl) == Some(support_items_expected(ps)));
    assert(support_ie(v, ies) == Some(ie4));
    assert(setup_response_status(v) == Ok::<Seq<IeRef>, DecodeError>(ies));
    assert forall|s: NgSetupResponse| setup_response_decoded(s, v, ies) implies response_same_on_wire(s, r) by {
        lemma_guami_list_read_back(gs, s.served_guami_list@);
        assert(v[ie3.start] == content(v, ie3)[0]);
    }
}

/// An NG Setup Response that the encoder writes, with a value under 16384
/// octets, is read back as a successful outcome with the same procedure
/// code and criticality, and a response that carries the same AMF name,
/// capacity, GUAMIs (PLMN, region, set and pointer fields) and supported
/// PLMNs with their SSTs. What the wire form does not carry (SDs, the
/// spelling of the GUAMI hex texts) is not kept.
pub proof fn lemma_setup_response_round_trip(p: NgapPdu, q: NgapPdu)
    requires
        p matches NgapPdu::SuccessfulOutcome(m) && m.value is NgSetupResponse,
        pdu_parts(p).1 == NGAP_PROCEDURE_CODE_NG_SETUP,
        spec_encode_pdu(p) is Ok,
        spec_encode_value(p)->Ok_0.len() < 16384,
    ensures
        pdu_status(spec_encode_pdu(p)->Ok_0) is Ok,
        pdu_decoded(q, spec_encode_pdu(p)->Ok_0) ==> {
            &&& q is SuccessfulOutcome
            &&& pdu_parts(q).1 == pdu_parts(p).1
            &&& pdu_parts(q).2 == pdu_parts(p).2
            &&& pdu_parts(q).3 matches NgapMessageValue::NgSetupResponse(s)
            &&& pdu_parts(p).3 matches NgapMessageValue::NgSetupResponse(r)
            &&& response_same_on_wire(s, r)
        },
{
    let (kind, pc, crit, value) = pdu_parts(p);
    let r = value->NgSetupResponse_0;
    let v = spec_setup_response_value(r)->Ok_0;
    assert(spec_encode_value(p) == Ok::<Seq<u8>, EncodeError>(v));
    lemma_frame_of_encoded(kind, pc, crit, v);
    lemma_response_value(r);
    if pdu_decoded(q, spec_encode_pdu(p)->Ok_0) {
        let (qk, qpc, qc, qv) = pdu_parts(q);
        assert(qk == 1);
        assert(q is SuccessfulOutcome);
    }
}

} // verus!

verus! {

// ------------------------------------------- laws: Initial UE Message

proof fn lemma_hex_text_layout(b: Seq<u8>)
    ensures
        hex_text(b).len() == 2 * b.len(),
        forall|i: int|
            #![trigger b[i]]
            0 <= i < b.len() ==> hex_text(b)[2 * i] == hex_digit(b[i] / 16) && hex_text(b)[2 * i + 1] == hex_digit(
                b[i] % 16,
            ),
    decreases b.len(),
{
    if b.len() > 0 {
        let init = b.drop_last();
        lemma_hex_text_layout(init);
        let h = hex_text(init);
        assert(hex_text(b) == h + seq![hex_digit(b.last() / 16), hex_digit(b.last() % 16)]);
        assert forall|i: int| #![trigger b[i]] 0 <= i < b.len() implies hex_text(b)[2 * i] == hex_digit(b[i] / 16)
            && hex_text(b)[2 * i + 1] == hex_digit(b[i] % 16) by {
            if i < b.len() - 1 {
                assert(init[i] == b[i]);
                assert(h[2 * i] == hex_digit(init[i] / 16));
                assert(h[2 * i + 1] == hex_digit(init[i] % 16));
            } else {
                assert(2 * i == h.len());
            }
        }
    }
}

/// Octets written as hex text are read back unchanged.
proof fn lemma_hex_text_octets(b: Seq<u8>)
    ensures
        is_hex_text(hex_text(b)),
        hex_octets(hex_text(b)) == b,
{
    lemma_hex_text_layout(b);
    let t = hex_text(b);
    assert forall|j: int| 0 <= j < t.len() implies is_hex_char(#[trigger] t[j]) by {
        let i = j / 2;
        assert(hex_text(b)[2 * i] == hex_digit(b[i] / 16) && hex_text(b)[2 * i + 1] == hex_digit(b[i] % 16));
        lemma_hex_digit(b[i] / 16);
        lemma_hex_digit(b[i] % 16);
        if j % 2 == 0 {
            assert(j == 2 * i);
        } else {
            assert(j == 2 * i + 1);
        }
    }
    assert forall|i: int| 0 <= i < b.len() implies #[trigger] hex_octets(t)[i] == b[i] by {
        assert(hex_text(b)[2 * i] == hex_digit(b[i] / 16) && hex_text(b)[2 * i + 1] == hex_digit(b[i] % 16));
        lemma_hex_digit(b[i] / 16);
        lemma_hex_digit(b[i] % 16);
    }
    assert(hex_octets(t) =~= b);
}

/// An Initial UE Message read back carries what the wire form of the
/// original carries: the ids, the NAS PDU, the TAI (PLMN and TAC octets),
/// the NR-CGI when there is one (PLMN and cell octets) and the cause.
pub open spec fn initial_ue_same_on_wire(d: InitialUeMessage, m: InitialUeMessage) -> bool {
    &&& d.ran_ue_ngap_id == m.ran_ue_ngap_id
    &&& d.nas_pdu@ == m.nas_pdu@
    &&& d.user_location_info.tai.plmn_identity@ == m.user_location_info.tai.plmn_identity@
    &&& hex_octets(d.user_location_info.tai.tac@) == hex_octets(m.user_location_info.tai.tac@)
    &&& match (d.user_location_info.nr_cgi, m.user_location_info.nr_cgi) {
        (Some(a), Some(b)) => a.plmn_identity@ == b.plmn_identity@ && hex_octets(a.nr_cell_identity@) == hex_octets(
            b.nr_cell_identity@,
        ),
        (None, None) => true,
        _ => false,
    }
    &&& d.rrc_establishment_cause == m.rrc_establishment_cause
}

spec fn initial_ue_ies(m: InitialUeMessage) -> Seq<IeRef> {
    let l = spec_location_content(m.user_location_info)->Ok_0;
    let nas = m.nas_pdu@;
    let o2: int = 3int + ie_octets(85, 0, be32_octets(m.ran_ue_ngap_id)).len();
    let o3 = o2 + ie_octets(38, 0, nas).len();
    let o4 = o3 + ie_octets(121, 0, l).len();
    seq![
        IeRef { id: 85, start: 7, len: 4 },
        IeRef { id: 38, start: o2 + 3 + (if nas.len() < 128 { 1int } else { 2int }), len: nas.len() as int },
        IeRef { id: 121, start: o3 + 4, len: l.len() as int },
        IeRef { id: 90, start: o4 + 4, len: 1 },
    ]
}

#[verifier::rlimit(80)]
proof fn lemma_initial_ue_walk(m: InitialUeMessage)
    requires
        spec_initial_ue_value(m) is Ok,
    ensures
        ({
            let v = spec_initial_ue_value(m)->Ok_0;
            let ies = initial_ue_ies(m);
            &&& value_ies(v) == Ok::<Seq<IeRef>, DecodeError>(ies)
            &&& v.len() >= 3
            &&& content(v, ies[0]) == be32_octets(m.ran_ue_ngap_id)
            &&& content(v, ies[1]) == m.nas_pdu@
            &&& content(v, ies[2]) == spec_location_content(m.user_location_info)->Ok_0
            &&& content(v, ies[3]) == seq![m.rrc_establishment_cause]
        }),
{
    let l = spec_location_content(m.user_location_info)->Ok_0;
    assert(l.len() == 6 || l.len() == 15);
    let id = be32_octets(m.ran_ue_ngap_id);
    let nas = m.nas_pdu@;
    let cause = seq![m.rrc_establishment_cause];
    let a = ie_octets(85, 0, id);
    let b = ie_octets(38, 0, nas);
    let c = ie_octets(121, 0, l);
    let d = ie_octets(90, 0x40, cause);
    let v = spec_initial_ue_value(m)->Ok_0;
    assert(v == seq![0u8, 0u8, 4u8] + a + b + c + d);
    let o1: int = 3;
    let o2 = o1 + a.len();
    let o3 = o2 + b.len();
    let o4 = o3 + c.len();
    let o5 = o4 + d.len();
    assert(o5 == v.len());
    assert(v.subrange(o1, o2) =~= a);
    assert(v.subrange(o2, o3) =~= b);
    assert(v.subrange(o3, o4) =~= c);
    assert(v.subrange(o4, o5) =~= d);
    lemma_ie_step_encoded(v, o1, 85, 0, id);
    lemma_ie_step_encoded(v, o2, 38, 0, nas);
    lemma_ie_step_encoded(v, o3, 121, 0, l);
    lemma_ie_step_encoded(v, o4, 90, 0x40, cause);
    let ies = initial_ue_ies(m);
    reveal_with_fuel(ie_walk, 5);
    assert(ie_walk(v, o5, 0) == Ok::<Seq<IeRef>, DecodeError>(seq![]));
    assert(ie_walk(v, o4, 1) == Ok::<Seq<IeRef>, DecodeError>(seq![ies[3]] + seq![]));
    assert(ie_walk(v, o3, 2) == Ok::<Seq<IeRef>, DecodeError>(seq![ies[2]] + (seq![ies[3]] + seq![])));
    assert(ie_walk(v, o2, 3) == Ok::<Seq<IeRef>, DecodeError>(seq![ies[1]] + (seq![ies[2]] + (seq![ies[3]] + seq![]))));
    assert(ie_walk(v, o1, 4) == Ok::<Seq<IeRef>, DecodeError>(
        seq![ies[0]] + (seq![ies[1]] + (seq![ies[2]] + (seq![ies[3]] + seq![]))),
    ));
    assert(seq![ies[0]] + (seq![ies[1]] + (seq![ies[2]] + (seq![ies[3]] + seq![]))) =~= ies);
}

proof fn lemma_location_read_back(u: UserLocationInfo, d: UserLocationInfo)
    requires
        spec_location_content(u) is Ok,
        location_decoded(d, spec_location_content(u)->Ok_0),
    ensures
        d.tai.plmn_identity@ == u.tai.plmn_identity@,
        hex_octets(d.tai.tac@) == hex_octets(u.tai.tac@),
        match (d.nr_cgi, u.nr_cgi) {
            (Some(a), Some(b)) => a.plmn_identity@ == b.plmn_identity@ && hex_octets(a.nr_cell_identity@) == hex_octets(
                b.nr_cell_identity@,
            ),
            (None, None) => true,
            _ => false,
        },
{
    let c = spec_location_content(u)->Ok_0;
    let p = plmn_identity_octets(u.tai.plmn_identity);
    let t = hex_octets(u.tai.tac@);
    assert(t.len() == 3);
    assert(c.subrange(0, 3) =~= p);
    assert(c.subrange(3, 6) =~= t);
    lemma_plmn_round_trip(u.tai.plmn_identity.mcc@, u.tai.plmn_identity.mnc@);
    lemma_hex_text_octets(t);
    match u.nr_cgi {
        Some(g) => {
            let q = plmn_identity_octets(g.plmn_identity);
            let e = hex_octets(g.nr_cell_identity@);
            assert(e.len() == 5);
            assert(c.len() == 15);
            assert(c.subrange(6, 9) =~= q);
            assert(c.subrange(9, 14) =~= e);
            lemma_plmn_round_trip(g.plmn_identity.mcc@, g.plmn_identity.mnc@);
            lemma_hex_text_octets(e);
        },
        None => {
            assert(c.len() == 6);
        },
    }
}

proof fn lemma_initial_ue_value(m: InitialUeMessage)
    requires
        spec_initial_ue_value(m) is Ok,
    ensures
        initial_ue_status(spec_initial_ue_value(m)->Ok_0) is Ok,
        forall|d: InitialUeMessage|
            initial_ue_decoded(d, spec_initial_ue_value(m)->Ok_0, initial_ue_status(spec_initial_ue_value(m)->Ok_0)->Ok_0)
                ==> initial_ue_same_on_wire(d, m),
{
    let v = spec_initial_ue_value(m)->Ok_0;
    let l = spec_location_content(m.user_location_info)->Ok_0;
    assert(l.len() == 6 || l.len() == 15);
    lemma_initial_ue_walk(m);
    let ies = initial_ue_ies(m);
    let ie1 = ies[0];
    let ie2 = ies[1];
    let ie3 = ies[2];
    let ie4 = ies[3];
    assert(ies =~= seq![ie1, ie2, ie3, ie4]);
    assert(ies.drop_last() =~= seq![ie1, ie2, ie3]);
    assert(seq![ie1, ie2, ie3].drop_last() =~= seq![ie1, ie2]);
    assert(seq![ie1, ie2].drop_last() =~= seq![ie1]);
    assert(seq![ie1].drop_last() =~= Seq::<IeRef>::empty());
    reveal_with_fuel(last_ie, 5);
    assert(last_ie(ies, 85, 4) == Some(ie1));
    assert(last_ie(ies, 38, 0) == Some(ie2));
    assert(last_ie(ies, 121, 6) == Some(ie3));
    assert(last_ie(ies, 90, 1) == Some(ie4));
    assert(initial_ue_status(v) == Ok::<Seq<IeRef>, DecodeError>(ies));
    let x = m.ran_ue_ngap_id;
    let o = be32_octets(x);
    assert(crate::ngap::codec::be32(o) == x) by {
        assert((x / 0x100_0000 % 256) * 0x100_0000 + (x / 0x1_0000 % 256) * 0x1_0000 + (x / 0x100 % 256) * 0x100 + x % 256 == x)
            by (nonlinear_arith)
            requires
                x < 0x1_0000_0000,
        ;
    }
    assert forall|d: InitialUeMessage| initial_ue_decoded(d, v, ies) implies initial_ue_same_on_wire(d, m) by {
        lemma_location_read_back(m.user_location_info, d.user_location_info);
        assert(v[ie4.start] == content(v, ie4)[0]);
    }
}

/// An Initial UE Message that the encoder writes is read back as an
/// initiating message with the same procedure code and criticality, and a
/// message that carries the same ids, NAS PDU, location and cause. What the
/// wire form does not carry (the spelling of the hex texts) is not kept.
pub proof fn lemma_initial_ue_round_trip(p: NgapPdu, q: NgapPdu)
    requires
        p matches NgapPdu::InitiatingMessage(m) && m.value is InitialUeMessage,
        pdu_parts(p).1 == NGAP_PROCEDURE_CODE_INITIAL_UE_MESSAGE,
        spec_encode_pdu(p) is Ok,
        spec_encode_value(p)->Ok_0.len() < 16384,
    ensures
        pdu_status(spec_encode_pdu(p)->Ok_0) is Ok,
        pdu_decoded(q, spec_encode_pdu(p)->Ok_0) ==> {
            &&& q is InitiatingMessage
            &&& pdu_parts(q).1 == pdu_parts(p).1
            &&& pdu_parts(q).2 == pdu_parts(p).2
            &&& pdu_parts(q).3 matches NgapMessageValue::InitialUeMessage(d)
            &&& pdu_parts(p).3 matches NgapMessageValue::InitialUeMessage(m)
            &&& initial_ue_same_on_wire(d, m)
        },
{
    let (kind, pc, crit, value) = pdu_parts(p);
    let m = value->InitialUeMessage_0;
    let v = spec_initial_ue_value(m)->Ok_0;
    assert(spec_encode_value(p) == Ok::<Seq<u8>, EncodeError>(v));
    lemma_frame_of_encoded(kind, pc, crit, v);
    lemma_initial_ue_value(m);
    if pdu_decoded(q, spec_encode_pdu(p)->Ok_0) {
        let (qk, qpc, qc, qv) = pdu_parts(q);
        assert(qk == 0);
        assert(q is InitiatingMessage);
    }
}

} // verus!

verus! {

// ------------------------------------------- laws: NG Setup Request

proof fn lemma_slice_items_front(ss: Seq<SliceSupportItem>)
    requires
        ss.len() >= 1,
    ensures
        slice_items_octets(ss) == seq![0u8, ss[0].s_nssai.sst] + slice_items_octets(ss.drop_first()),
    decreases ss.len(),
{
    if ss.len() == 1 {
        assert(ss.drop_first() =~= Seq::<SliceSupportItem>::empty());
        assert(ss.drop_last() =~= Seq::<SliceSupportItem>::empty());
        assert(slice_items_octets(ss) =~= seq![0u8, ss[0].s_nssai.sst] + slice_items_octets(ss.drop_first()));
    } else {
        lemma_slice_items_front(ss.drop_last());
        assert(ss.drop_last().drop_first() =~= ss.drop_first().drop_last());
        assert(slice_items_octets(ss) =~= seq![0u8, ss[0].s_nssai.sst] + slice_items_octets(ss.drop_first()));
    }
}

proof fn lemma_broadcasts_front(bs: Seq<BroadcastPlmnItem>)
    requires
        bs.len() >= 1,
    ensures
        broadcasts_octets(bs) == broadcast_octets(bs[0]) + broadcasts_octets(bs.drop_first()),
    decreases bs.len(),
{
    if bs.len() == 1 {
        assert(bs.drop_first() =~= Seq::<BroadcastPlmnItem>::empty());
        assert(bs.drop_last() =~= Seq::<BroadcastPlmnItem>::empty());
        assert(broadcasts_octets(bs) =~= broadcast_octets(bs[0]) + broadcasts_octets(bs.drop_first()));
    } else {
        lemma_broadcasts_front(bs.drop_last());
        assert(bs.drop_last().drop_first() =~= bs.drop_first().drop_last());
        assert(broadcasts_octets(bs) =~= broadcast_octets(bs[0]) + broadcasts_octets(bs.drop_first()));
    }
}

proof fn lemma_tas_front(ts: Seq<SupportedTaItem>)
    requires
        ts.len() >= 1,
    ensures
        tas_octets(ts) == ta_octets(ts[0]) + tas_octets(ts.drop_first()),
    decreases ts.len(),
{
    if ts.len() == 1 {
        assert(ts.drop_first() =~= Seq::<SupportedTaItem>::empty());
        assert(ts.drop_last() =~= Seq::<SupportedTaItem>::empty());
        assert(tas_octets(ts) =~= ta_octets(ts[0]) + tas_octets(ts.drop_first()));
    } else {
        lemma_tas_front(ts.drop_last());
        assert(ts.drop_last().drop_first() =~= ts.drop_first().drop_last());
        assert(tas_octets(ts) =~= ta_octets(ts[0]) + tas_octets(ts.drop_first()));
    }
}

pub open spec fn slices_expected(ss: Seq<SliceSupportItem>) -> Seq<SliceView> {
    ss.map_values(|s: SliceSupportItem| SliceView { sst: s.s_nssai.sst, sd: None })
}

pub open spec fn broadcasts_expected(bs: Seq<BroadcastPlmnItem>) -> Seq<BroadcastView> {
    bs.map_values(
        |b: BroadcastPlmnItem| BroadcastView { plmn: b.plmn_identity@, slices: slices_expected(b.tai_slice_support_list@) },
    )
}

/// What a TA list reads back as: each TAC as the lower-case hex text of
/// its octets, the broadcast PLMNs, and the SSTs; the SDs are not carried.
pub open spec fn tas_expected(ts: Seq<SupportedTaItem>) -> Seq<TaView> {
    ts.map_values(
        |t: SupportedTaItem|
            TaView { tac: hex_text(hex_octets(t.tac@)), plmns: broadcasts_expected(t.broadcast_plmn_list@) },
    )
}

proof fn lemma_slices_parse(c: Seq<u8>, cursor: int, ss: Seq<SliceSupportItem>, acc: Seq<SliceView>)
    requires
        0 <= cursor,
        cursor + slice_items_octets(ss).len() <= c.len(),
        c.subrange(cursor, cursor + slice_items_octets(ss).len()) == slice_items_octets(ss),
    ensures
        slices_from(c, cursor, ss.len(), acc) == (acc + slices_expected(ss), cursor + 2 * ss.len()),
    decreases ss.len(),
{
    lemma_slice_layout(ss);
    if ss.len() == 0 {
        assert(acc + slices_expected(ss) =~= acc);
    } else {
        lemma_slice_items_front(ss);
        let o = slice_items_octets(ss);
        let rest = ss.drop_first();
        lemma_slice_layout(rest);
        assert(c[cursor + 1] == o[1]);
        assert(c.subrange(cursor + 2, cursor + 2 + slice_items_octets(rest).len()) =~= slice_items_octets(rest)) by {
            assert forall|j: int| 0 <= j < slice_items_octets(rest).len() implies #[trigger] c.subrange(
                cursor + 2,
                cursor + 2 + slice_items_octets(rest).len(),
            )[j] == slice_items_octets(rest)[j] by {
                assert(c.subrange(cursor, cursor + o.len())[2 + j] == c[cursor + 2 + j]);
            }
        }
        let a1 = acc.push(SliceView { sst: ss[0].s_nssai.sst, sd: None });
        lemma_slices_parse(c, cursor + 2, rest, a1);
        assert(a1 + slices_expected(rest) =~= acc + slices_expected(ss));
    }
}

proof fn lemma_broadcasts_parse(c: Seq<u8>, cursor: int, bs: Seq<BroadcastPlmnItem>, acc: Seq<BroadcastView>)
    requires
        0 <= cursor,
        cursor + broadcasts_octets(bs).len() <= c.len(),
        c.subrange(cursor, cursor + broadcasts_octets(bs).len()) == broadcasts_octets(bs),
        forall|j: int| 0 <= j < bs.len() ==> broadcast_ok(#[trigger] bs[j]),
    ensures
        plmns_from(c, cursor, bs.len(), acc) == (acc + broadcasts_expected(bs), cursor + broadcasts_octets(bs).len()),
    decreases bs.len(),
{
    if bs.len() == 0 {
        assert(acc + broadcasts_expected(bs) =~= acc);
    } else {
        lemma_broadcasts_front(bs);
        let b = bs[0];
        let bo = broadcast_octets(b);
        let o = broadcasts_octets(bs);
        let rest = bs.drop_first();
        assert forall|j: int| 0 <= j < rest.len() implies broadcast_ok(#[trigger] rest[j]) by {
            assert(rest[j] == bs[j + 1]);
        }
        let ss = b.tai_slice_support_list@;
        lemma_slice_layout(ss);
        assert(bo.len() == 4 + 2 * ss.len());
        assert forall|j: int| 0 <= j < bo.len() implies #[trigger] c[cursor + j] == bo[j] by {
            assert(c.subrange(cursor, cursor + o.len())[j] == c[cursor + j]);
        }
        assert(c[cursor + 3] == (ss.len() - 1) as u8);
        assert(c.subrange(cursor, cursor + 3) =~= plmn_identity_octets(b.plmn_identity)) by {
            assert forall|j: int| 0 <= j < 3 implies #[trigger] c.subrange(cursor, cursor + 3)[j]
                == plmn_identity_octets(b.plmn_identity)[j] by {
                assert(c[cursor + j] == bo[j]);
            }
        }
        lemma_plmn_round_trip(b.plmn_identity.mcc@, b.plmn_identity.mnc@);
        assert(c.subrange(cursor + 4, cursor + 4 + 2 * ss.len()) =~= slice_items_octets(ss)) by {
            assert forall|j: int| 0 <= j < 2 * ss.len() implies #[trigger] c.subrange(cursor + 4, cursor + 4 + 2 * ss.len())[j]
                == slice_items_octets(ss)[j] by {
                assert(c[cursor + (4 + j)] == bo[4 + j]);
            }
        }
        lemma_slices_parse(c, cursor + 4, ss, seq![]);
        assert(seq![] + slices_expected(ss) =~= slices_expected(ss));
        let next = cursor + bo.len();
        assert(c.subrange(next, next + broadcasts_octets(rest).len()) =~= broadcasts_octets(rest)) by {
            assert forall|j: int| 0 <= j < broadcasts_octets(rest).len() implies #[trigger] c.subrange(
                next,
                next + broadcasts_octets(rest).len(),
            )[j] == broadcasts_octets(rest)[j] by {
                assert(c.subrange(cursor, cursor + o.len())[bo.len() + j] == c[next + j]);
            }
        }
        let a1 = acc.push(BroadcastView { plmn: b.plmn_identity@, slices: slices_expected(ss) });
        lemma_broadcasts_parse(c, next, rest, a1);
        assert(a1 + broadcasts_expected(rest) =~= acc + broadcasts_expected(bs));
    }
}

proof fn lemma_tas_parse(c: Seq<u8>, cursor: int, ts: Seq<SupportedTaItem>, acc: Seq<TaView>)
    requires
        0 <= cursor,
        cursor + tas_octets(ts).len() <= c.len(),
        c.subrange(cursor, cursor + tas_octets(ts).len()) == tas_octets(ts),
        forall|j: int| 0 <= j < ts.len() ==> ta_ok(#[trigger] ts[j]),
    ensures
        tas_from(c, cursor, ts.len(), acc).0 == acc + tas_expected(ts),
    decreases ts.len(),
{
    if ts.len() == 0 {
        assert(acc + tas_expected(ts) =~= acc);
    } else {
        lemma_tas_front(ts);
        let t = ts[0];
        let to = ta_octets(t);
        let o = tas_octets(ts);
        let rest = ts.drop_first();
        assert forall|j: int| 0 <= j < rest.len() implies ta_ok(#[trigger] rest[j]) by {
            assert(rest[j] == ts[j + 1]);
        }
        let bs = t.broadcast_plmn_list@;
        let tac = hex_octets(t.tac@);
        assert(tac.len() == 3);
        let bo = broadcasts_octets(bs);
        assert(to.len() == 5 + bo.len());
        assert(bo.len() >= 1) by {
            lemma_broadcasts_front(bs);
        }
        assert forall|j: int| 0 <= j < to.len() implies #[trigger] c[cursor + j] == to[j] by {
            assert(c.subrange(cursor, cursor + o.len())[j] == c[cursor + j]);
        }
        assert(c[cursor + 4] == (bs.len() - 1) as u8);
        assert(c.subrange(cursor + 1, cursor + 4) =~= tac) by {
            assert forall|j: int| 0 <= j < 3 implies #[trigger] c.subrange(cursor + 1, cursor + 4)[j] == tac[j] by {
                assert(c[cursor + (1 + j)] == to[1 + j]);
            }
        }
        assert(c.subrange(cursor + 5, cursor + 5 + bo.len()) =~= bo) by {
            assert forall|j: int| 0 <= j < bo.len() implies #[trigger] c.subrange(cursor + 5, cursor + 5 + bo.len())[j]
                == bo[j] by {
                assert(c[cursor + (5 + j)] == to[5 + j]);
            }
        }
        lemma_broadcasts_parse(c, cursor + 5, bs, seq![]);
        assert(seq![] + broadcasts_expected(bs) =~= broadcasts_expected(bs));
        let next = cursor + to.len();
        assert(c.subrange(next, next + tas_octets(rest).len()) =~= tas_octets(rest)) by {
            assert forall|j: int| 0 <= j < tas_octets(rest).len() implies #[trigger] c.subrange(
                next,
                next + tas_octets(rest).len(),
            )[j] == tas_octets(rest)[j] by {
                assert(c.subrange(cursor, cursor + o.len())[to.len() + j] == c[next + j]);
            }
        }
        let a1 = acc.push(TaView { tac: hex_text(tac), plmns: broadcasts_expected(bs) });
        lemma_tas_parse(c, next, rest, a1);
        assert(a1 + tas_expected(rest) =~= acc + tas_expected(ts));
    }
}

} // verus!

verus! {

/// An NG Setup Request read back carries what the wire form of the
/// original carries: the kind of node, its PLMN and identifier octets, the
/// TA list as `tas_expected` gives it, and the paging DRX.
pub open spec fn setup_request_same_on_wire(d: NgSetupRequest, r: NgSetupRequest) -> bool {
    &&& node_tag(d.global_ran_node_id) == node_tag(r.global_ran_node_id)
    &&& spec_node_plmn(d.global_ran_node_id)@ == spec_node_plmn(r.global_ran_node_id)@
    &&& hex_octets(spec_node_value(d.global_ran_node_id)) == hex_octets(spec_node_value(r.global_ran_node_id))
    &&& tas_view(d.supported_ta_list@) == tas_expected(r.supported_ta_list@)
    &&& d.default_paging_drx == r.default_paging_drx
}

spec fn setup_request_ies(r: NgSetupRequest) -> Seq<IeRef> {
    let n = spec_node_content(r.global_ran_node_id)->Ok_0;
    let t = spec_ta_list_content(r.supported_ta_list@)->Ok_0;
    let o2: int = 3int + ie_octets(27, 0, n).len();
    let o3 = o2 + ie_octets(102, 0, t).len();
    seq![
        IeRef { id: 27, start: 3 + 3 + (if n.len() < 128 { 1int } else { 2int }), len: n.len() as int },
        IeRef { id: 102, start: o2 + 3 + (if t.len() < 128 { 1int } else { 2int }), len: t.len() as int },
        IeRef { id: 21, start: o3 + 4, len: 1 },
    ]
}

#[verifier::rlimit(80)]
proof fn lemma_setup_request_walk(r: NgSetupRequest)
    requires
        spec_setup_request_value(r) is Ok,
    ensures
        ({
            let v = spec_setup_request_value(r)->Ok_0;
            let ies = setup_request_ies(r);
            &&& value_ies(v) == Ok::<Seq<IeRef>, DecodeError>(ies)
            &&& v.len() >= 3
            &&& content(v, ies[0]) == spec_node_content(r.global_ran_node_id)->Ok_0
            &&& content(v, ies[1]) == spec_ta_list_content(r.supported_ta_list@)->Ok_0
            &&& content(v, ies[2]) == seq![r.default_paging_drx as u8]
        }),
{
    let n = spec_node_content(r.global_ran_node_id)->Ok_0;
    let t = spec_ta_list_content(r.supported_ta_list@)->Ok_0;
    let drx = seq![r.default_paging_drx as u8];
    let a = ie_octets(27, 0, n);
    let b = ie_octets(102, 0, t);
    let c = ie_octets(21, 0x40, drx);
    let v = spec_setup_request_value(r)->Ok_0;
    assert(v == seq![0u8, 0u8, 3u8] + a + b + c);
    let o1: int = 3;
    let o2 = o1 + a.len();
    let o3 = o2 + b.len();
    let o4 = o3 + c.len();
    assert(o4 == v.len());
    assert(v.subrange(o1, o2) =~= a);
    assert(v.subrange(o2, o3) =~= b);
    assert(v.subrange(o3, o4) =~= c);
    lemma_ie_step_encoded(v, o1, 27, 0, n);
    lemma_ie_step_encoded(v, o2, 102, 0, t);
    lemma_ie_step_encoded(v, o3, 21, 0x40, drx);
    let ies = setup_request_ies(r);
    reveal_with_fuel(ie_walk, 4);
    assert(ie_walk(v, o4, 0) == Ok::<Seq<IeRef>, DecodeError>(seq![]));
    assert(ie_walk(v, o3, 1) == Ok::<Seq<IeRef>, DecodeError>(seq![ies[2]] + seq![]));
    assert(ie_walk(v, o2, 2) == Ok::<Seq<IeRef>, DecodeError>(seq![ies[1]] + (seq![ies[2]] + seq![])));
    assert(ie_walk(v, o1, 3) == Ok::<Seq<IeRef>, DecodeError>(seq![ies[0]] + (seq![ies[1]] + (seq![ies[2]] + seq![]))));
    assert(seq![ies[0]] + (seq![ies[1]] + (seq![ies[2]] + seq![])) =~= ies);
}

proof fn lemma_node_read_back(g: GlobalRanNodeId, d: GlobalRanNodeId)
    requires
        spec_node_content(g) is Ok,
    ensures
        node_id_status(spec_node_content(g)->Ok_0) is Ok,
        node_id_decoded(d, spec_node_content(g)->Ok_0) ==> {
            &&& node_tag(d) == node_tag(g)
            &&& spec_node_plmn(d)@ == spec_node_plmn(g)@
            &&& hex_octets(spec_node_value(d)) == hex_octets(spec_node_value(g))
        },
{
    let n = spec_node_content(g)->Ok_0;
    let id = hex_octets(spec_node_value(g));
    assert(id.len() >= 1);
    assert(n.subrange(1, 4) =~= plmn_identity_octets(spec_node_plmn(g)));
    assert(n.subrange(5, n.len() as int) =~= id);
    lemma_plmn_round_trip(spec_node_plmn(g).mcc@, spec_node_plmn(g).mnc@);
    lemma_hex_text_octets(id);
}

proof fn lemma_setup_request_value(r: NgSetupRequest)
    requires
        spec_setup_request_value(r) is Ok,
    ensures
        setup_request_status(spec_setup_request_value(r)->Ok_0) is Ok,
        forall|d: NgSetupRequest|
            setup_request_decoded(d, spec_setup_request_value(r)->Ok_0, setup_request_status(spec_setup_request_value(r)->Ok_0)->Ok_0)
                ==> setup_request_same_on_wire(d, r),
{
    let v = spec_setup_request_value(r)->Ok_0;
    let n = spec_node_content(r.global_ran_node_id)->Ok_0;
    let t = spec_ta_list_content(r.supported_ta_list@)->Ok_0;
    let ts = r.supported_ta_list@;
    lemma_setup_request_walk(r);
    let ies = setup_request_ies(r);
    let ie1 = ies[0];
    let ie2 = ies[1];
    let ie3 = ies[2];
    assert(ies =~= seq![ie1, ie2, ie3]);
    assert(ies.drop_last() =~= seq![ie1, ie2]);
    assert(seq![ie1, ie2].drop_last() =~= seq![ie1]);
    assert(seq![ie1].drop_last() =~= Seq::<IeRef>::empty());
    lemma_node_read_back(r.global_ran_node_id, r.global_ran_node_id);
    reveal_with_fuel(last_node_ie, 4);
    assert(last_node_ie(v, ies) == Some(ie1));
    reveal_with_fuel(last_ie, 4);
    assert(last_ie(ies, 102, 0) == Some(ie2));
    assert(last_ie(ies, 21, 1) == Some(ie3));
    assert(setup_request_status(v) == Ok::<Seq<IeRef>, DecodeError>(ies));
    lemma_tas_front(ts);
    assert(t.len() >= 5) by {
        assert(ta_ok(ts[0]));
        lemma_broadcasts_front(ts[0].broadcast_plmn_list@);
    }
    assert(t.subrange(1, 1int + tas_octets(ts).len()) =~= tas_octets(ts));
    lemma_tas_parse(t, 1, ts, seq![]);
    assert(seq![] + tas_expected(ts) =~= tas_expected(ts));
    assert(spec_ta_list(t).0 == tas_expected(ts));
    assert forall|d: NgSetupRequest| setup_request_decoded(d, v, ies) implies setup_request_same_on_wire(d, r) by {
        lemma_node_read_back(r.global_ran_node_id, d.global_ran_node_id);
        assert(v[ie3.start] == content(v, ie3)[0]);
    }
}

/// An NG Setup Request that the encoder writes is read back as an
/// initiating message with the same procedure code and criticality, and a
/// request that carries the same node (kind, PLMN, identifier octets), TA
/// list and paging DRX. What the wire form does not carry (SDs, the
/// spelling of hex texts, the ng-eNB id form, a gNB's stated bit length) is
/// not kept.
pub proof fn lemma_setup_request_round_trip(p: NgapPdu, q: NgapPdu)
    requires
        p matches NgapPdu::InitiatingMessage(m) && m.value is NgSetupRequest,
        pdu_parts(p).1 == NGAP_PROCEDURE_CODE_NG_SETUP,
        spec_encode_pdu(p) is Ok,
        spec_encode_value(p)->Ok_0.len() < 16384,
    ensures
        pdu_status(spec_encode_pdu(p)->Ok_0) is Ok,
        pdu_decoded(q, spec_encode_pdu(p)->Ok_0) ==> {
            &&& q is InitiatingMessage
            &&& pdu_parts(q).1 == pdu_parts(p).1
            &&& pdu_parts(q).2 == pdu_parts(p).2
            &&& pdu_parts(q).3 matches NgapMessageValue::NgSetupRequest(d)
            &&& pdu_parts(p).3 matches NgapMessageValue::NgSetupRequest(r)
            &&& setup_request_same_on_wire(d, r)
        },
{
    let (kind, pc, crit, value) = pdu_parts(p);
    let r = value->NgSetupRequest_0;
    let v = spec_setup_request_value(r)->Ok_0;
    assert(spec_encode_value(p) == Ok::<Seq<u8>, EncodeError>(v));
    lemma_frame_of_encoded(kind, pc, crit, v);
    lemma_setup_request_value(r);
    if pdu_decoded(q, spec_encode_pdu(p)->Ok_0) {
        let (qk, qpc, qc, qv) = pdu_parts(q);
        assert(qk == 0);
        assert(q is InitiatingMessage);
    }
}

} // verus!
