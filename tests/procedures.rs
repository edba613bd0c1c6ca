use amf_ngap::config::{
    AmfConfig, AusfConfig, Config, DatabaseConfig, Guami, NgapConfig, NrfConfig, PlmnId,
    PlmnSupport, SNssai, SbiConfig, SecurityConfig, Tai, TimersConfig, UdmConfig,
};
use amf_ngap::context::ran_context::{RanContext, RanContextManager, RanState};
use amf_ngap::context::ue_context::{UeContextManager, UeState};
use amf_ngap::error::{HandlingError, ProtocolError};
use amf_ngap::ngap::codec::{NgapMessageValue, NgapPdu};
use amf_ngap::ngap::handlers::{
    handle_initial_context_setup_response, handle_pdu_session_resource_setup_response,
    handle_ue_context_release_request, handle_uplink_nas_transport,
    handle_initial_ue_message, handle_ng_setup_request, handle_ngap_message, release_association,
    validate_supported_tai_list, Reply,
};
use amf_ngap::ngap::messages::{
    BroadcastPlmnItem, GlobalGnbId, GlobalRanNodeId, GnbId, InitialUeMessage, NgSetupRequest,
    PlmnIdentity, SliceSupportItem, SupportedTaItem, Tai as MsgTai, UserLocationInfo,
};

fn config() -> Config {
    Config {
        amf: AmfConfig {
            amf_name: "open5g-amf".to_string(),
            region_id: "ca".to_string(),
            set_id: "3f8".to_string(),
            pointer: "1".to_string(),
            guami_list: vec![Guami {
                plmn_id: PlmnId { mcc: "208".to_string(), mnc: "93".to_string() },
                amf_region_id: "ca".to_string(),
                amf_set_id: "3f8".to_string(),
                amf_pointer: "1".to_string(),
            }],
            plmn_support_list: vec![PlmnSupport {
                plmn_id: PlmnId { mcc: "208".to_string(), mnc: "93".to_string() },
                s_nssai_list: vec![SNssai { sst: 1, sd: Some("010203".to_string()) }],
                tai_list: vec![
                    Tai { plmn_id: PlmnId { mcc: "208".to_string(), mnc: "93".to_string() }, tac: "010203".to_string() },
                    Tai { plmn_id: PlmnId { mcc: "208".to_string(), mnc: "93".to_string() }, tac: "000001".to_string() },
                ],
            }],
            relative_capacity: 255,
        },
        sbi: SbiConfig {
            bind_addr: "127.0.0.1:8000".to_string(),
            scheme: "http".to_string(),
            registered_ip_addr: "127.0.0.1".to_string(),
            port: 8000,
            api_root: "".to_string(),
        },
        ngap: NgapConfig { bind_addr: "127.0.0.1:38412".to_string() },
        database: DatabaseConfig { uri: "mongodb://localhost".to_string(), database_name: "amf".to_string() },
        nrf: NrfConfig { uri: "http://nrf".to_string() },
        ausf: AusfConfig { uri: None },
        udm: UdmConfig { uri: None },
        security: SecurityConfig { integrity_order: vec![], ciphering_order: vec![] },
        timers: TimersConfig {
            t3502: 720, t3510: 15, t3511: 10, t3512: 3240, t3513: 6, t3516: 30, t3517: 15,
            t3519: 60, t3520: 15, t3521: 15, t3522: 6, t3525: 60, t3540: 10, t3550: 6,
            t3555: 6, t3560: 6, t3565: 6, t3570: 6,
        },
    }
}

fn plmn() -> PlmnIdentity {
    PlmnIdentity { mcc: "208".to_string(), mnc: "93".to_string() }
}

fn request(node: &str, tac: &str) -> NgSetupRequest {
    NgSetupRequest {
        global_ran_node_id: GlobalRanNodeId::GNB(GlobalGnbId {
            plmn_identity: plmn(),
            gnb_id: GnbId::GnbId { value: node.to_string(), bit_length: 32 },
        }),
        supported_ta_list: vec![SupportedTaItem {
            tac: tac.to_string(),
            broadcast_plmn_list: vec![BroadcastPlmnItem {
                plmn_identity: plmn(),
                tai_slice_support_list: vec![SliceSupportItem {
                    s_nssai: amf_ngap::ngap::messages::SNssai { sst: 0, sd: None },
                }],
            }],
        }],
        default_paging_drx: 32,
    }
}

fn initial_ue(ran_ue_ngap_id: u64) -> InitialUeMessage {
    InitialUeMessage {
        ran_ue_ngap_id,
        nas_pdu: vec![0x7E, 0x00, 0x41],
        user_location_info: UserLocationInfo {
            nr_cgi: None,
            tai: MsgTai { plmn_identity: plmn(), tac: "000001".to_string() },
        },
        rrc_establishment_cause: 3,
    }
}

#[test]
fn ng_setup_accepted_records_context() {
    let cfg = config();
    let mut rans = RanContextManager::new();
    let pdu = handle_ng_setup_request(request("01020304", "010203"), &cfg, &mut rans, "10.0.0.1:38412");
    match pdu {
        NgapPdu::SuccessfulOutcome(m) => {
            assert_eq!(m.procedure_code, 21);
            assert_eq!(m.criticality, 0);
            match m.value {
                NgapMessageValue::NgSetupResponse(r) => {
                    assert_eq!(r.amf_name, "open5g-amf");
                    assert_eq!(r.served_guami_list.len(), 1);
                    assert_eq!(r.served_guami_list[0].amf_set_id, "3f8");
                    assert_eq!(r.relative_amf_capacity, 255);
                    assert_eq!(r.plmn_support_list.len(), 1);
                    assert_eq!(r.plmn_support_list[0].slice_support_list[0].s_nssai.sst, 1);
                    assert_eq!(r.plmn_support_list[0].slice_support_list[0].s_nssai.sd.as_deref(), Some("010203"));
                }
                other => panic!("unexpected {:?}", other),
            }
        }
        other => panic!("unexpected {:?}", other),
    }
    let ctx = rans.get("208_gNB_01020304").unwrap();
    assert_eq!(ctx.ran_name, "208_gNB_01020304");
    assert_eq!(ctx.addr, "10.0.0.1:38412");
    assert_eq!(ctx.state, RanState::Connected);
    assert_eq!(ctx.default_paging_drx, Some(32));
    assert_eq!(ctx.supported_ta_list.len(), 1);
    assert_eq!(ctx.supported_ta_list[0].tac, "010203");
    assert_eq!(rans.get_by_addr("10.0.0.1:38412").unwrap().ran_id, "208_gNB_01020304");
}

#[test]
fn ng_setup_with_unknown_tac_fails() {
    let cfg = config();
    let mut rans = RanContextManager::new();
    let pdu = handle_ng_setup_request(request("01020304", "ffffff"), &cfg, &mut rans, "10.0.0.1:38412");
    match pdu {
        NgapPdu::UnsuccessfulOutcome(m) => {
            assert_eq!(m.procedure_code, 21);
            assert_eq!(m.criticality, 0);
            match m.value {
                NgapMessageValue::NgSetupFailure(f) => {
                    assert_eq!(f.cause.cause_type, 1);
                    assert_eq!(f.cause.cause_value, 0);
                    assert_eq!(f.time_to_wait, Some(10));
                }
                other => panic!("unexpected {:?}", other),
            }
        }
        other => panic!("unexpected {:?}", other),
    }
    assert!(rans.get("208_gNB_01020304").is_none());
    assert!(rans.get_by_addr("10.0.0.1:38412").is_none());
}

#[test]
fn empty_ta_list_is_invalid() {
    let cfg = config();
    assert!(!validate_supported_tai_list(&[], &cfg));
    let r = request("01", "010203");
    assert!(validate_supported_tai_list(&r.supported_ta_list, &cfg));
}

#[test]
fn initial_ue_without_setup_is_ran_not_found() {
    let mut rans = RanContextManager::new();
    let mut ues = UeContextManager::new();
    let r = handle_initial_ue_message(initial_ue(42), &mut rans, &mut ues, "10.0.0.9:1");
    match r {
        Err(ProtocolError::RanNotFound(a)) => assert_eq!(a, "10.0.0.9:1"),
        other => panic!("unexpected {:?}", other),
    }
    assert!(ues.get(1).is_none());
}

#[test]
fn initial_ue_after_setup_creates_context() {
    let cfg = config();
    let mut rans = RanContextManager::new();
    let mut ues = UeContextManager::new();
    handle_ng_setup_request(request("01020304", "010203"), &cfg, &mut rans, "10.0.0.1:38412");
    let id = handle_initial_ue_message(initial_ue(42), &mut rans, &mut ues, "10.0.0.1:38412").unwrap();
    assert_eq!(id, 1);
    let ue = ues.get(1).unwrap();
    assert_eq!(ue.amf_ue_ngap_id, 1);
    assert_eq!(ue.ran_ue_ngap_id, Some(42));
    assert_eq!(ue.state, UeState::Connected);
    assert_eq!(ue.ran_id.as_deref(), Some("208_gNB_01020304"));
    let tai = ue.tai.unwrap();
    assert_eq!(tai.tac, "000001");
    assert_eq!(tai.plmn_id.mcc, "208");
    assert_eq!(tai.plmn_id.mnc, "93");
    assert_eq!(ue.nas_uplink_count, 0);
    assert_eq!(rans.get("208_gNB_01020304").unwrap().state, RanState::Active);
    let id2 = handle_initial_ue_message(initial_ue(43), &mut rans, &mut ues, "10.0.0.1:38412").unwrap();
    assert_eq!(id2, 2);
    assert_eq!(rans.get("208_gNB_01020304").unwrap().state, RanState::Active);
}

#[test]
fn two_associations_two_contexts() {
    let cfg = config();
    let mut rans = RanContextManager::new();
    handle_ng_setup_request(request("01020304", "010203"), &cfg, &mut rans, "10.0.0.1:38412");
    handle_ng_setup_request(request("0a0b0c0d", "010203"), &cfg, &mut rans, "10.0.0.2:38412");
    let a = rans.get_by_addr("10.0.0.1:38412").unwrap();
    let b = rans.get_by_addr("10.0.0.2:38412").unwrap();
    assert_ne!(a.ran_id, b.ran_id);
    assert_eq!(a.state, RanState::Connected);
    assert_eq!(b.state, RanState::Connected);
    assert_eq!(b.ran_id, "208_gNB_0a0b0c0d");
}

#[test]
fn malformed_pdu_then_valid_pdu() {
    let cfg = config();
    let mut rans = RanContextManager::new();
    let mut ues = UeContextManager::new();
    assert!(NgapPdu::decode(&[0xE3, 0x77, 0xFE, 0x01, 0x02]).is_err());
    let mut v = vec![0x00, 0x15, 0x00, 0x25, 0x00, 0x00, 0x03];
    v.extend_from_slice(&[0x00, 0x1B, 0x00, 0x09, 0x00, 0x02, 0xF8, 0x39, 0x00, 0x01, 0x02, 0x03, 0x04]);
    v.extend_from_slice(&[0x00, 0x66, 0x00, 0x0C, 0x00, 0x00, 0x01, 0x02, 0x03, 0x00, 0x02, 0xF8, 0x39, 0x00, 0x00, 0x00]);
    v.extend_from_slice(&[0x00, 0x15, 0x00, 0x01, 0x20]);
    let pdu = NgapPdu::decode(&v).unwrap();
    let out = match handle_ngap_message(pdu, &cfg, &mut rans, &mut ues, "10.0.0.1:38412").unwrap() {
        Reply::Send(b) => b,
        other => panic!("unexpected {:?}", other),
    };
    assert_eq!(out[0], 0x20);
    assert_eq!(out[1], 0x15);
    assert!(rans.get_by_addr("10.0.0.1:38412").is_some());
}

#[test]
fn dispatch_reports_protocol_errors() {
    let cfg = config();
    let mut rans = RanContextManager::new();
    let mut ues = UeContextManager::new();
    let pdu = NgapPdu::InitiatingMessage(amf_ngap::ngap::codec::InitiatingMessage {
        procedure_code: 15,
        criticality: 1,
        value: NgapMessageValue::InitialUeMessage(initial_ue(7)),
    });
    let r = handle_ngap_message(pdu, &cfg, &mut rans, &mut ues, "10.0.0.3:1");
    assert!(matches!(r, Err(HandlingError::Protocol(ProtocolError::RanNotFound(_)))));
}

#[test]
fn association_close_drops_context() {
    let cfg = config();
    let mut rans = RanContextManager::new();
    let mut ues = UeContextManager::new();
    handle_ng_setup_request(request("01020304", "010203"), &cfg, &mut rans, "10.0.0.1:38412");
    handle_ng_setup_request(request("0a0b0c0d", "010203"), &cfg, &mut rans, "10.0.0.2:38412");
    let a = handle_initial_ue_message(initial_ue(1), &mut rans, &mut ues, "10.0.0.1:38412").unwrap();
    let b = handle_initial_ue_message(initial_ue(2), &mut rans, &mut ues, "10.0.0.2:38412").unwrap();
    let dropped = release_association(&mut rans, &mut ues, "10.0.0.1:38412").unwrap();
    assert_eq!(dropped.ran_id, "208_gNB_01020304");
    assert!(rans.get("208_gNB_01020304").is_none());
    assert!(ues.get(a).is_none());
    assert!(ues.get(b).is_some());
    assert!(release_association(&mut rans, &mut ues, "10.0.0.1:38412").is_none());
}

fn ran(id: &str, addr: &str) -> RanContext {
    RanContext {
        ran_id: id.to_string(),
        ran_name: id.to_string(),
        addr: addr.to_string(),
        state: RanState::Connected,
        supported_ta_list: vec![],
        default_paging_drx: None,
    }
}

#[test]
fn ran_store_keeps_one_context_per_address() {
    let mut rans = RanContextManager::new();
    rans.update(ran("x", "A"));
    rans.update(ran("y", "A"));
    assert!(rans.get("x").is_none());
    assert_eq!(rans.get_by_addr("A").unwrap().ran_id, "y");
    rans.update(ran("y", "B"));
    assert!(rans.get_by_addr("A").is_none());
    assert_eq!(rans.get_by_addr("B").unwrap().ran_id, "y");
    let removed = rans.remove("y").unwrap();
    assert_eq!(removed.addr, "B");
    assert!(rans.get_by_addr("B").is_none());
    assert!(rans.remove("y").is_none());
}

#[test]
fn create_ran_context_starts_disconnected() {
    let mut rans = RanContextManager::new();
    let c = rans.create_ran_context("r1".to_string(), "C".to_string());
    assert_eq!(c.state, RanState::Disconnected);
    assert!(c.ran_name.is_empty());
    assert_eq!(rans.get_by_addr("C").unwrap().ran_id, "r1");
}

#[test]
fn allocator_is_strictly_increasing() {
    let mut ues = UeContextManager::new();
    let a = ues.allocate_amf_ue_ngap_id();
    let b = ues.allocate_amf_ue_ngap_id();
    ues.create_ue_context(100);
    let c = ues.allocate_amf_ue_ngap_id();
    assert_eq!(a, 1);
    assert!(a < b && b < c);
}

#[test]
fn ue_store_supi_index() {
    let mut ues = UeContextManager::new();
    let mut c = ues.create_ue_context(5);
    assert_eq!(c.state, UeState::Deregistered);
    c.supi = Some("imsi-208930000000001".to_string());
    ues.update(c.clone());
    assert_eq!(ues.get_by_supi("imsi-208930000000001").unwrap().amf_ue_ngap_id, 5);
    let mut d = ues.create_ue_context(6);
    d.supi = Some("imsi-208930000000001".to_string());
    ues.update(d);
    assert!(ues.get(5).is_none());
    assert_eq!(ues.get_by_supi("imsi-208930000000001").unwrap().amf_ue_ngap_id, 6);
    let mut e = ues.get(6).unwrap();
    e.supi = None;
    ues.update(e);
    assert!(ues.get_by_supi("imsi-208930000000001").is_none());
    assert!(ues.remove(6).is_some());
    assert!(ues.get(6).is_none());
}

#[test]
fn reserved_procedures_are_dropped() {
    assert!(handle_uplink_nas_transport().is_ok());
    assert!(handle_initial_context_setup_response().is_ok());
    assert!(handle_pdu_session_resource_setup_response().is_ok());
    assert!(handle_ue_context_release_request().is_ok());
}

#[test]
fn dispatch_hands_nas_pdu_on() {
    let cfg = config();
    let mut rans = RanContextManager::new();
    let mut ues = UeContextManager::new();
    handle_ng_setup_request(request("01020304", "010203"), &cfg, &mut rans, "10.0.0.1:38412");
    let pdu = NgapPdu::InitiatingMessage(amf_ngap::ngap::codec::InitiatingMessage {
        procedure_code: 15,
        criticality: 1,
        value: NgapMessageValue::InitialUeMessage(initial_ue(42)),
    });
    match handle_ngap_message(pdu, &cfg, &mut rans, &mut ues, "10.0.0.1:38412").unwrap() {
        Reply::NasEntry { amf_ue_ngap_id, ran_ue_ngap_id, nas_pdu, tai } => {
            assert_eq!(amf_ue_ngap_id, 1);
            assert_eq!(ran_ue_ngap_id, 42);
            assert_eq!(nas_pdu, vec![0x7E, 0x00, 0x41]);
            assert_eq!(tai.tac, "000001");
            assert_eq!(tai.plmn_identity.mcc, "208");
        }
        other => panic!("unexpected {:?}", other),
    }
    assert!(ues.get(1).is_some());
}

#[test]
fn unencodable_response_is_answered_with_failure() {
    let mut cfg = config();
    cfg.amf.guami_list.clear();
    let mut rans = RanContextManager::new();
    let mut ues = UeContextManager::new();
    let pdu = NgapPdu::InitiatingMessage(amf_ngap::ngap::codec::InitiatingMessage {
        procedure_code: 21,
        criticality: 0,
        value: NgapMessageValue::NgSetupRequest(request("01020304", "010203")),
    });
    match handle_ngap_message(pdu, &cfg, &mut rans, &mut ues, "10.0.0.1:38412").unwrap() {
        Reply::Send(b) => {
            assert_eq!(&b[..], &[0x40, 0x15, 0x00, 0x0E, 0x00, 0x00, 0x02, 0x00, 0x0F, 0x00, 0x02, 0x01, 0x00, 0x00, 0x6B, 0x40, 0x01, 0x0A]);
        }
        other => panic!("unexpected {:?}", other),
    }
}
