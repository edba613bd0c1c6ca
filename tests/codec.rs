use amf_ngap::error::{DecodeError, EncodeError};
use amf_ngap::ngap::aper::{decode_aper_length, encode_aper_length};
use amf_ngap::ngap::codec::{
    decode_global_ran_node_id, decode_supported_ta_list, NgapMessageValue, NgapPdu,
    SuccessfulOutcome, UnsuccessfulOutcome,
};
use amf_ngap::ngap::messages::{
    BroadcastPlmnItem, Cause, GlobalGnbId, GlobalRanNodeId, GnbId, InitialUeMessage, NgSetupFailure,
    NgSetupRequest, NgSetupResponse, NrCgi, PlmnIdentity, PlmnSupportItem, SNssai, ServedGuami,
    SliceSupportItem, SupportedTaItem, Tai, UserLocationInfo,
};
use amf_ngap::utils::encoding::{decode_5g_s_tmsi, decode_plmn, encode_5g_s_tmsi, encode_plmn};

fn setup_request_bytes(tac: [u8; 3]) -> Vec<u8> {
    let mut v = vec![0x00, 0x15, 0x00, 0x25, 0x00, 0x00, 0x03];
    v.extend_from_slice(&[0x00, 0x1B, 0x00, 0x09, 0x00, 0x02, 0xF8, 0x39, 0x00, 0x01, 0x02, 0x03, 0x04]);
    v.extend_from_slice(&[0x00, 0x66, 0x00, 0x0C, 0x00, 0x00, tac[0], tac[1], tac[2], 0x00, 0x02, 0xF8, 0x39, 0x00, 0x00, 0x00]);
    v.extend_from_slice(&[0x00, 0x15, 0x00, 0x01, 0x20]);
    v
}

#[test]
fn aper_length_single_octet() {
    assert_eq!(decode_aper_length(&[0x05, 0xFF]).unwrap(), (5, 1));
    let mut buf = Vec::new();
    encode_aper_length(127, &mut buf);
    assert_eq!(buf, vec![0x7F]);
}

#[test]
fn aper_length_two_octets() {
    assert_eq!(decode_aper_length(&[0x81, 0x2C]).unwrap(), (300, 2));
    let mut buf = vec![0xAA];
    encode_aper_length(300, &mut buf);
    assert_eq!(buf, vec![0xAA, 0x81, 0x2C]);
    let mut buf = Vec::new();
    encode_aper_length(16383, &mut buf);
    assert_eq!(buf, vec![0xBF, 0xFF]);
}

#[test]
fn aper_length_three_octet_form_is_not_read_back() {
    let mut buf = Vec::new();
    encode_aper_length(20000, &mut buf);
    assert_eq!(buf, vec![0xC0, 0x4E, 0x20]);
    assert!(matches!(decode_aper_length(&buf), Err(DecodeError::UnsupportedFragmentedLength)));
}

#[test]
fn aper_length_round_trip_below_16384() {
    for n in [0usize, 1, 127, 128, 255, 256, 4095, 16383] {
        let mut buf = Vec::new();
        encode_aper_length(n, &mut buf);
        buf.push(0x99);
        let consumed = if n < 128 { 1 } else { 2 };
        assert_eq!(decode_aper_length(&buf).unwrap(), (n, consumed));
    }
}

#[test]
fn aper_length_short_buffer() {
    assert!(matches!(decode_aper_length(&[]), Err(DecodeError::ShortBuffer)));
    assert!(matches!(decode_aper_length(&[0x81]), Err(DecodeError::ShortBuffer)));
}

#[test]
fn plmn_two_digit_mnc() {
    assert_eq!(encode_plmn("208", "93").unwrap(), vec![0x02, 0xF8, 0x39]);
    let (mcc, mnc) = decode_plmn(&[0x02, 0xF8, 0x39]).unwrap();
    assert_eq!(mcc, "208");
    assert_eq!(mnc, "93");
}

#[test]
fn plmn_three_digit_mnc() {
    assert_eq!(encode_plmn("310", "410").unwrap(), vec![0x13, 0x00, 0x14]);
    let (mcc, mnc) = decode_plmn(&[0x13, 0x00, 0x14]).unwrap();
    assert_eq!(mcc, "310");
    assert_eq!(mnc, "410");
}

#[test]
fn plmn_round_trip_edge_mncs() {
    for (mcc, mnc) in [("001", "00"), ("999", "999"), ("001", "001"), ("460", "00")] {
        let octets = encode_plmn(mcc, mnc).unwrap();
        let (m, n) = decode_plmn(&octets).unwrap();
        assert_eq!(m, mcc);
        assert_eq!(n, mnc);
    }
}

#[test]
fn plmn_invalid_text_is_out_of_range() {
    assert!(matches!(encode_plmn("20", "93"), Err(EncodeError::FieldOutOfRange)));
    assert!(matches!(encode_plmn("208", "9"), Err(EncodeError::FieldOutOfRange)));
    assert!(matches!(encode_plmn("2a8", "93"), Err(EncodeError::FieldOutOfRange)));
    assert!(matches!(encode_plmn("208", "9300"), Err(EncodeError::FieldOutOfRange)));
}

#[test]
fn plmn_wrong_length_is_invalid() {
    assert!(matches!(decode_plmn(&[0x02, 0xF8]), Err(DecodeError::InvalidLength)));
}

#[test]
fn plmn_nibbles_above_nine_read_as_two_digits() {
    let (mcc, mnc) = decode_plmn(&[0xA2, 0xFB, 0x39]).unwrap();
    assert_eq!(mcc, "21011");
    assert_eq!(mnc, "93");
}

#[test]
fn s_tmsi_packs_and_unpacks() {
    let v = encode_5g_s_tmsi(0x3FF, 0x3F, 0xDEADBEEF);
    assert_eq!(v, (0x3FFu64 << 38) | (0x3Fu64 << 32) | 0xDEADBEEF);
    assert_eq!(decode_5g_s_tmsi(v), (0x3FF, 0x3F, 0xDEADBEEF));
    assert_eq!(decode_5g_s_tmsi(encode_5g_s_tmsi(5, 2, 7)), (5, 2, 7));
}

#[test]
fn decode_ng_setup_request_scenario() {
    let pdu = NgapPdu::decode(&setup_request_bytes([0x01, 0x02, 0x03])).unwrap();
    let msg = match pdu {
        NgapPdu::InitiatingMessage(m) => m,
        other => panic!("unexpected {:?}", other),
    };
    assert_eq!(msg.procedure_code, 21);
    assert_eq!(msg.criticality, 0);
    let req = match msg.value {
        NgapMessageValue::NgSetupRequest(r) => r,
        other => panic!("unexpected {:?}", other),
    };
    match &req.global_ran_node_id {
        GlobalRanNodeId::GNB(g) => {
            assert_eq!(g.plmn_identity.mcc, "208");
            assert_eq!(g.plmn_identity.mnc, "93");
            match &g.gnb_id {
                GnbId::GnbId { value, bit_length } => {
                    assert_eq!(value, "01020304");
                    assert_eq!(*bit_length, 32);
                }
            }
        }
        other => panic!("unexpected {:?}", other),
    }
    assert_eq!(req.global_ran_node_id.node_type(), "gNB");
    assert_eq!(req.global_ran_node_id.ran_node_id(), "01020304");
    assert_eq!(req.supported_ta_list.len(), 1);
    let ta = &req.supported_ta_list[0];
    assert_eq!(ta.tac, "010203");
    assert_eq!(ta.broadcast_plmn_list.len(), 1);
    assert_eq!(ta.broadcast_plmn_list[0].plmn_identity.mcc, "208");
    assert_eq!(ta.broadcast_plmn_list[0].plmn_identity.mnc, "93");
    assert_eq!(ta.broadcast_plmn_list[0].tai_slice_support_list.len(), 1);
    assert_eq!(ta.broadcast_plmn_list[0].tai_slice_support_list[0].s_nssai.sst, 0);
    assert!(ta.broadcast_plmn_list[0].tai_slice_support_list[0].s_nssai.sd.is_none());
    assert_eq!(req.default_paging_drx, 32);
}

#[test]
fn decode_node_id_kinds() {
    let (n, used) = decode_global_ran_node_id(&[0x02, 0x02, 0xF8, 0x39, 0x00, 0xAB, 0xCD]).unwrap();
    assert_eq!(used, 7);
    assert_eq!(n.node_type(), "N3IWF");
    assert_eq!(n.ran_node_id(), "abcd");
    assert_eq!(n.plmn_identity().mcc, "208");
    let (n, _) = decode_global_ran_node_id(&[0x05, 0x02, 0xF8, 0x39, 0x00, 0x01]).unwrap();
    assert_eq!(n.node_type(), "W-AGF");
    let (n, _) = decode_global_ran_node_id(&[0x01, 0x02, 0xF8, 0x39, 0x00, 0x01]).unwrap();
    assert_eq!(n.node_type(), "ng-eNB");
}

#[test]
fn decode_node_id_errors() {
    assert!(matches!(
        decode_global_ran_node_id(&[0x07, 0x02, 0xF8, 0x39, 0x00, 0x01]),
        Err(DecodeError::UnknownNodeTypeTag(7))
    ));
    assert!(matches!(
        decode_global_ran_node_id(&[0x00, 0x02, 0xF8, 0x39, 0x00]),
        Err(DecodeError::ShortBuffer)
    ));
}

#[test]
fn ta_list_keeps_what_could_be_read() {
    let (list, _) = decode_supported_ta_list(&[0x01, 0x00, 0x00, 0x00, 0x01, 0x00, 0x02, 0xF8, 0x39, 0x01, 0x00, 0x05, 0x00, 0x07]);
    assert_eq!(list.len(), 1);
    assert_eq!(list[0].tac, "000001");
    let slices = &list[0].broadcast_plmn_list[0].tai_slice_support_list;
    assert_eq!(slices.len(), 2);
    assert_eq!(slices[0].s_nssai.sst, 5);
    assert_eq!(slices[1].s_nssai.sst, 7);
    let (empty, used) = decode_supported_ta_list(&[0x00, 0x00, 0x00]);
    assert!(empty.is_empty());
    assert_eq!(used, 0);
}

#[test]
fn missing_node_id_is_missing_mandatory_ie() {
    let bytes = [0x00, 0x15, 0x00, 0x08, 0x00, 0x00, 0x01, 0x00, 0x15, 0x00, 0x01, 0x20];
    assert!(matches!(NgapPdu::decode(&bytes), Err(DecodeError::MissingMandatoryIe(27))));
}

#[test]
fn ie_longer_than_value_stops_the_walk() {
    let bytes = [0x00, 0x15, 0x00, 0x08, 0x00, 0x00, 0x02, 0x00, 0x1B, 0x00, 0x09, 0x00];
    assert!(matches!(NgapPdu::decode(&bytes), Err(DecodeError::MissingMandatoryIe(27))));
}

#[test]
fn unknown_pdu_type_is_refused() {
    assert!(matches!(NgapPdu::decode(&[0x60, 0x15, 0x00, 0x00]), Err(DecodeError::UnknownPduType(0x60))));
}

#[test]
fn malformed_pdu_is_a_decode_error() {
    assert!(matches!(NgapPdu::decode(&[0xE3, 0x77, 0xFE, 0x01, 0x02]), Err(DecodeError::UnknownPduType(0xE0))));
    assert!(matches!(NgapPdu::decode(&[0x00, 0x15]), Err(DecodeError::ShortBuffer)));
    assert!(matches!(NgapPdu::decode(&[0x00, 0x15, 0x00, 0x05, 0x00]), Err(DecodeError::ShortBuffer)));
    assert!(matches!(NgapPdu::decode(&[0x00, 0x15, 0x00, 0xC1, 0x00]), Err(DecodeError::UnsupportedFragmentedLength)));
}

#[test]
fn unknown_procedures_decode_to_unknown() {
    let pdu = NgapPdu::decode(&[0x00, 0x63, 0x40, 0x00]).unwrap();
    match pdu {
        NgapPdu::InitiatingMessage(m) => {
            assert_eq!(m.procedure_code, 0x63);
            assert_eq!(m.criticality, 1);
            assert!(matches!(m.value, NgapMessageValue::Unknown));
        }
        other => panic!("unexpected {:?}", other),
    }
    let pdu = NgapPdu::decode(&[0x00, 0x2E, 0x40, 0x00]).unwrap();
    match pdu {
        NgapPdu::InitiatingMessage(m) => assert!(matches!(m.value, NgapMessageValue::UplinkNasTransport)),
        other => panic!("unexpected {:?}", other),
    }
}

#[test]
fn decode_initial_ue_message_fields() {
    let mut v = vec![0x00, 0x0F, 0x40, 0x24, 0x00, 0x00, 0x04];
    v.extend_from_slice(&[0x00, 0x55, 0x00, 0x04, 0x00, 0x00, 0x00, 0x2A]);
    v.extend_from_slice(&[0x00, 0x26, 0x00, 0x03, 0x7E, 0x00, 0x41]);
    v.extend_from_slice(&[0x00, 0x79, 0x00, 0x09, 0x02, 0xF8, 0x39, 0x00, 0x00, 0x01, 0x00, 0x00, 0x00]);
    v.extend_from_slice(&[0x00, 0x5A, 0x00, 0x01, 0x03]);
    assert_eq!(v.len() - 4, 0x24);
    let pdu = NgapPdu::decode(&v).unwrap();
    let m = match pdu {
        NgapPdu::InitiatingMessage(m) => match m.value {
            NgapMessageValue::InitialUeMessage(x) => x,
            other => panic!("unexpected {:?}", other),
        },
        other => panic!("unexpected {:?}", other),
    };
    assert_eq!(m.ran_ue_ngap_id, 42);
    assert_eq!(m.nas_pdu, vec![0x7E, 0x00, 0x41]);
    assert_eq!(m.user_location_info.tai.plmn_identity.mcc, "208");
    assert_eq!(m.user_location_info.tai.plmn_identity.mnc, "93");
    assert_eq!(m.user_location_info.tai.tac, "000001");
    assert!(m.user_location_info.nr_cgi.is_none());
    assert_eq!(m.rrc_establishment_cause, 3);
}

#[test]
fn initial_ue_without_ran_ue_id_is_refused() {
    let bytes = [0x00, 0x0F, 0x00, 0x08, 0x00, 0x00, 0x01, 0x00, 0x5A, 0x00, 0x01, 0x03];
    assert!(matches!(NgapPdu::decode(&bytes), Err(DecodeError::MissingMandatoryIe(85))));
}

fn sample_response() -> NgSetupResponse {
    NgSetupResponse {
        amf_name: "AMF".to_string(),
        served_guami_list: vec![ServedGuami {
            plmn_identity: PlmnIdentity { mcc: "208".to_string(), mnc: "93".to_string() },
            amf_region_id: "ca".to_string(),
            amf_set_id: "3f8".to_string(),
            amf_pointer: "1".to_string(),
        }],
        relative_amf_capacity: 255,
        plmn_support_list: vec![PlmnSupportItem {
            plmn_identity: PlmnIdentity { mcc: "208".to_string(), mnc: "93".to_string() },
            slice_support_list: vec![SliceSupportItem { s_nssai: SNssai { sst: 1, sd: None } }],
        }],
    }
}

#[test]
fn encode_ng_setup_response_octets() {
    let pdu = NgapPdu::SuccessfulOutcome(SuccessfulOutcome {
        procedure_code: 21,
        criticality: 0,
        value: NgapMessageValue::NgSetupResponse(sample_response()),
    });
    let bytes = pdu.encode().unwrap();
    let expected: Vec<u8> = vec![
        0x20, 0x15, 0x00, 0x28, 0x00, 0x00, 0x04,
        0x00, 0x01, 0x00, 0x03, b'A', b'M', b'F',
        0x00, 0x60, 0x00, 0x09, 0x00, 0x00, 0x02, 0xF8, 0x39, 0xCA, 0xFE, 0x00, 0x04,
        0x00, 0x50, 0x00, 0x01, 0xFF,
        0x00, 0x56, 0x00, 0x08, 0x00, 0x00, 0x02, 0xF8, 0x39, 0x00, 0x00, 0x01,
    ];
    assert_eq!(&bytes[..], &expected[..]);
}

#[test]
fn encode_response_rejects_empty_lists_and_bad_plmns() {
    let mut r = sample_response();
    r.served_guami_list.clear();
    let pdu = NgapPdu::SuccessfulOutcome(SuccessfulOutcome {
        procedure_code: 21,
        criticality: 0,
        value: NgapMessageValue::NgSetupResponse(r),
    });
    assert!(matches!(pdu.encode(), Err(EncodeError::FieldOutOfRange)));
    let mut r = sample_response();
    r.plmn_support_list[0].plmn_identity.mcc = "2x8".to_string();
    let pdu = NgapPdu::SuccessfulOutcome(SuccessfulOutcome {
        procedure_code: 21,
        criticality: 0,
        value: NgapMessageValue::NgSetupResponse(r),
    });
    assert!(matches!(pdu.encode(), Err(EncodeError::FieldOutOfRange)));
}

#[test]
fn encode_rejects_criticality_above_three() {
    let pdu = NgapPdu::UnsuccessfulOutcome(UnsuccessfulOutcome {
        procedure_code: 21,
        criticality: 4,
        value: NgapMessageValue::NgSetupFailure(NgSetupFailure {
            cause: Cause { cause_type: 1, cause_value: 0 },
            time_to_wait: None,
            critical_diagnostics: None,
        }),
    });
    assert!(matches!(pdu.encode(), Err(EncodeError::FieldOutOfRange)));
}

#[test]
fn encode_unsupported_message() {
    let pdu = NgapPdu::InitiatingMessage(amf_ngap::ngap::codec::InitiatingMessage {
        procedure_code: 46,
        criticality: 0,
        value: NgapMessageValue::UplinkNasTransport,
    });
    assert!(matches!(pdu.encode(), Err(EncodeError::UnsupportedMessage)));
}

#[test]
fn setup_failure_round_trip() {
    for ttw in [Some(10u8), None] {
        let pdu = NgapPdu::UnsuccessfulOutcome(UnsuccessfulOutcome {
            procedure_code: 21,
            criticality: 2,
            value: NgapMessageValue::NgSetupFailure(NgSetupFailure {
                cause: Cause { cause_type: 1, cause_value: 0 },
                time_to_wait: ttw,
                critical_diagnostics: Some("dropped".to_string()),
            }),
        });
        let bytes = pdu.encode().unwrap();
        let back = NgapPdu::decode(&bytes).unwrap();
        match back {
            NgapPdu::UnsuccessfulOutcome(m) => {
                assert_eq!(m.procedure_code, 21);
                assert_eq!(m.criticality, 2);
                match m.value {
                    NgapMessageValue::NgSetupFailure(f) => {
                        assert_eq!(f.cause, Cause { cause_type: 1, cause_value: 0 });
                        assert_eq!(f.time_to_wait, ttw);
                        assert!(f.critical_diagnostics.is_none());
                    }
                    other => panic!("unexpected {:?}", other),
                }
            }
            other => panic!("unexpected {:?}", other),
        }
    }
}

#[test]
fn setup_failure_octets() {
    let pdu = NgapPdu::UnsuccessfulOutcome(UnsuccessfulOutcome {
        procedure_code: 21,
        criticality: 0,
        value: NgapMessageValue::NgSetupFailure(NgSetupFailure {
            cause: Cause { cause_type: 1, cause_value: 0 },
            time_to_wait: Some(10),
            critical_diagnostics: None,
        }),
    });
    let bytes = pdu.encode().unwrap();
    let expected = [0x40, 0x15, 0x00, 0x0E, 0x00, 0x00, 0x02, 0x00, 0x0F, 0x00, 0x02, 0x01, 0x00, 0x00, 0x6B, 0x40, 0x01, 0x0A];
    assert_eq!(&bytes[..], &expected[..]);
}

#[test]
fn missing_cause_in_failure() {
    let bytes = [0x40, 0x15, 0x00, 0x08, 0x00, 0x00, 0x01, 0x00, 0x6B, 0x40, 0x01, 0x0A];
    assert!(matches!(NgapPdu::decode(&bytes), Err(DecodeError::MissingMandatoryIe(15))));
}

#[test]
fn setup_response_round_trip() {
    let mut original = sample_response();
    original.plmn_support_list[0].slice_support_list[0].s_nssai.sd = Some("000001".to_string());
    let pdu = NgapPdu::SuccessfulOutcome(SuccessfulOutcome {
        procedure_code: 21,
        criticality: 0,
        value: NgapMessageValue::NgSetupResponse(original.clone()),
    });
    let bytes = pdu.encode().unwrap();
    let back = NgapPdu::decode(&bytes).unwrap();
    let r = match back {
        NgapPdu::SuccessfulOutcome(m) => {
            assert_eq!(m.procedure_code, 21);
            assert_eq!(m.criticality, 0);
            match m.value {
                NgapMessageValue::NgSetupResponse(r) => r,
                other => panic!("unexpected {:?}", other),
            }
        }
        other => panic!("unexpected {:?}", other),
    };
    assert_eq!(r.amf_name, "AMF");
    assert_eq!(r.relative_amf_capacity, 255);
    assert_eq!(r.served_guami_list.len(), 1);
    let g = &r.served_guami_list[0];
    assert_eq!(g.plmn_identity.mcc, "208");
    assert_eq!(g.plmn_identity.mnc, "93");
    assert_eq!(g.amf_region_id, "ca");
    assert_eq!(g.amf_set_id, "3f8");
    assert_eq!(g.amf_pointer, "01");
    assert_eq!(r.plmn_support_list.len(), 1);
    assert_eq!(r.plmn_support_list[0].plmn_identity.mcc, "208");
    assert_eq!(r.plmn_support_list[0].slice_support_list.len(), 1);
    assert_eq!(r.plmn_support_list[0].slice_support_list[0].s_nssai.sst, 1);
    assert!(r.plmn_support_list[0].slice_support_list[0].s_nssai.sd.is_none());
}

#[test]
fn setup_response_missing_guamis() {
    let bytes = [0x20, 0x15, 0x00, 0x0A, 0x00, 0x00, 0x01, 0x00, 0x01, 0x00, 0x03, b'A', b'M', b'F'];
    assert!(matches!(NgapPdu::decode(&bytes), Err(DecodeError::MissingMandatoryIe(96))));
}

#[test]
fn six_octet_location_carries_the_tai() {
    let mut v = vec![0x00, 0x0F, 0x40, 0x15, 0x00, 0x00, 0x02];
    v.extend_from_slice(&[0x00, 0x55, 0x00, 0x04, 0x00, 0x00, 0x00, 0x2A]);
    v.extend_from_slice(&[0x00, 0x79, 0x00, 0x06, 0x02, 0xF8, 0x39, 0x00, 0x00, 0x01]);
    assert_eq!(v.len() - 4, 0x15);
    let m = match NgapPdu::decode(&v).unwrap() {
        NgapPdu::InitiatingMessage(m) => match m.value {
            NgapMessageValue::InitialUeMessage(x) => x,
            other => panic!("unexpected {:?}", other),
        },
        other => panic!("unexpected {:?}", other),
    };
    assert_eq!(m.user_location_info.tai.tac, "000001");
    assert_eq!(m.user_location_info.tai.plmn_identity.mnc, "93");
    assert!(m.user_location_info.nr_cgi.is_none());
    assert!(m.nas_pdu.is_empty());
    assert_eq!(m.rrc_establishment_cause, 0);
}

#[test]
fn five_octet_location_is_missing() {
    let mut v = vec![0x00, 0x0F, 0x40, 0x14, 0x00, 0x00, 0x02];
    v.extend_from_slice(&[0x00, 0x55, 0x00, 0x04, 0x00, 0x00, 0x00, 0x2A]);
    v.extend_from_slice(&[0x00, 0x79, 0x00, 0x05, 0x02, 0xF8, 0x39, 0x00, 0x00]);
    assert!(matches!(NgapPdu::decode(&v), Err(DecodeError::MissingMandatoryIe(121))));
}

fn gnb_request(drx: u32) -> NgSetupRequest {
    let plmn = PlmnIdentity { mcc: "208".to_string(), mnc: "93".to_string() };
    NgSetupRequest {
        global_ran_node_id: GlobalRanNodeId::GNB(GlobalGnbId {
            plmn_identity: plmn.clone(),
            gnb_id: GnbId::GnbId { value: "01020304".to_string(), bit_length: 32 },
        }),
        supported_ta_list: vec![SupportedTaItem {
            tac: "01020A".to_string(),
            broadcast_plmn_list: vec![BroadcastPlmnItem {
                plmn_identity: plmn,
                tai_slice_support_list: vec![
                    SliceSupportItem { s_nssai: SNssai { sst: 1, sd: Some("000001".to_string()) } },
                    SliceSupportItem { s_nssai: SNssai { sst: 2, sd: None } },
                ],
            }],
        }],
        default_paging_drx: drx,
    }
}

#[test]
fn setup_request_round_trip() {
    let pdu = NgapPdu::InitiatingMessage(amf_ngap::ngap::codec::InitiatingMessage {
        procedure_code: 21,
        criticality: 0,
        value: NgapMessageValue::NgSetupRequest(gnb_request(64)),
    });
    let bytes = pdu.encode().unwrap();
    assert_eq!(&bytes[..4], &[0x00, 0x15, 0x00, 0x27]);
    let req = match NgapPdu::decode(&bytes).unwrap() {
        NgapPdu::InitiatingMessage(m) => {
            assert_eq!(m.procedure_code, 21);
            match m.value {
                NgapMessageValue::NgSetupRequest(r) => r,
                other => panic!("unexpected {:?}", other),
            }
        }
        other => panic!("unexpected {:?}", other),
    };
    assert_eq!(req.global_ran_node_id.node_type(), "gNB");
    assert_eq!(req.global_ran_node_id.ran_node_id(), "01020304");
    assert_eq!(req.global_ran_node_id.plmn_identity().mnc, "93");
    assert_eq!(req.supported_ta_list.len(), 1);
    assert_eq!(req.supported_ta_list[0].tac, "01020a");
    let slices = &req.supported_ta_list[0].broadcast_plmn_list[0].tai_slice_support_list;
    assert_eq!(slices.len(), 2);
    assert_eq!(slices[0].s_nssai.sst, 1);
    assert!(slices[0].s_nssai.sd.is_none());
    assert_eq!(slices[1].s_nssai.sst, 2);
    assert_eq!(req.default_paging_drx, 64);
}

#[test]
fn setup_request_drx_out_of_range() {
    let pdu = NgapPdu::InitiatingMessage(amf_ngap::ngap::codec::InitiatingMessage {
        procedure_code: 21,
        criticality: 0,
        value: NgapMessageValue::NgSetupRequest(gnb_request(256)),
    });
    assert!(matches!(pdu.encode(), Err(EncodeError::FieldOutOfRange)));
}

#[test]
fn initial_ue_round_trip() {
    for cgi in [None, Some("0123456789")] {
        let m = InitialUeMessage {
            ran_ue_ngap_id: 0xDEADBEEF,
            nas_pdu: vec![0x7E, 0x00, 0x41, 0x01],
            user_location_info: UserLocationInfo {
                nr_cgi: cgi.map(|c| NrCgi {
                    plmn_identity: PlmnIdentity { mcc: "001".to_string(), mnc: "001".to_string() },
                    nr_cell_identity: c.to_string(),
                }),
                tai: Tai { plmn_identity: PlmnIdentity { mcc: "208".to_string(), mnc: "93".to_string() }, tac: "000001".to_string() },
            },
            rrc_establishment_cause: 3,
        };
        let pdu = NgapPdu::InitiatingMessage(amf_ngap::ngap::codec::InitiatingMessage {
            procedure_code: 15,
            criticality: 1,
            value: NgapMessageValue::InitialUeMessage(m),
        });
        let bytes = pdu.encode().unwrap();
        let d = match NgapPdu::decode(&bytes).unwrap() {
            NgapPdu::InitiatingMessage(x) => {
                assert_eq!(x.criticality, 1);
                match x.value {
                    NgapMessageValue::InitialUeMessage(d) => d,
                    other => panic!("unexpected {:?}", other),
                }
            }
            other => panic!("unexpected {:?}", other),
        };
        assert_eq!(d.ran_ue_ngap_id, 0xDEADBEEF);
        assert_eq!(d.nas_pdu, vec![0x7E, 0x00, 0x41, 0x01]);
        assert_eq!(d.user_location_info.tai.tac, "000001");
        assert_eq!(d.user_location_info.tai.plmn_identity.mcc, "208");
        assert_eq!(d.rrc_establishment_cause, 3);
        match (cgi, d.user_location_info.nr_cgi) {
            (Some(c), Some(x)) => {
                assert_eq!(x.nr_cell_identity, c);
                assert_eq!(x.plmn_identity.mnc, "001");
            }
            (None, None) => {}
            _ => panic!("NR-CGI not read back"),
        }
    }
}

#[test]
fn initial_ue_large_id_out_of_range() {
    let m = InitialUeMessage {
        ran_ue_ngap_id: 1u64 << 32,
        nas_pdu: vec![],
        user_location_info: UserLocationInfo {
            nr_cgi: None,
            tai: Tai { plmn_identity: PlmnIdentity { mcc: "208".to_string(), mnc: "93".to_string() }, tac: "000001".to_string() },
        },
        rrc_establishment_cause: 0,
    };
    let pdu = NgapPdu::InitiatingMessage(amf_ngap::ngap::codec::InitiatingMessage {
        procedure_code: 15,
        criticality: 0,
        value: NgapMessageValue::InitialUeMessage(m),
    });
    assert!(matches!(pdu.encode(), Err(EncodeError::FieldOutOfRange)));
}
