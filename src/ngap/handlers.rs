//! The NG Setup and Initial UE Message procedures, the dispatch of one
//! received PDU, and the release of an association.

use vstd::prelude::*;
use vstd::string::StringExecFns;
use crate::config::{Config, Guami, PlmnSupport, SNssai as ConfigSNssai, Tai as ConfigTai};
use crate::context::ran_context::{
    kept_besides, BroadcastPlmn, PlmnId as ContextPlmnId, RanContext, RanContextManager, RanState,
    SNssai as ContextSNssai, SupportedTa,
};
use crate::context::ue_context::{allocated, owned_by, PlmnId as UePlmnId, Tai as UeTai, UeContext, UeContextManager, UeState};
use crate::error::ProtocolError;
use crate::bytes_buf::bytes_contents;
use bytes::Bytes;
use crate::ngap::codec::{spec_encode_pdu, spec_setup_failure_value, 
    slices_view, tas_view, plmns_view, NgapMessageValue, NgapPdu, SuccessfulOutcome,
    UnsuccessfulOutcome, NGAP_PROCEDURE_CODE_NG_SETUP,
};
use crate::ngap::messages::{spec_node_plmn, spec_node_type, spec_node_value, BroadcastPlmnItem, Cause, InitialUeMessage, NgSetupFailure, NgSetupRequest, NgSetupResponse, PlmnIdentity, PlmnSupportItem, PlmnView, ServedGuami, Tai, SliceSupportItem, SNssai, SupportedTaItem, TaView};

verus! {

// ------------------------------------------------------------- TA check

/// A configured TAI serves a TA when the TACs agree and its PLMN is one
/// that the TA broadcasts.
pub open spec fn tai_matches(t: ConfigTai, tac: Seq<char>, bp: BroadcastPlmnItem) -> bool {
    &&& t.tac@ == tac
    &&& t.plmn_id.mcc@ == bp.plmn_identity.mcc@
    &&& t.plmn_id.mnc@ == bp.plmn_identity.mnc@
}

/// Some configured TAI, of some supported PLMN, serves the TA.
pub open spec fn ta_supported(ta: SupportedTaItem, config: Config) -> bool {
    exists|i: int, j: int, k: int|
        0 <= i < config.amf.plmn_support_list@.len() && 0 <= j
            < config.amf.plmn_support_list@[i].tai_list@.len() && 0 <= k
            < ta.broadcast_plmn_list@.len() && #[trigger] tai_matches(
            config.amf.plmn_support_list@[i].tai_list@[j],
            ta.tac@,
            ta.broadcast_plmn_list@[k],
        )
}

/// A TA list passes NG Setup when it is not empty and every TA in it is
/// served.
pub open spec fn spec_tai_list_valid(list: Seq<SupportedTaItem>, config: Config) -> bool {
    list.len() > 0 && forall|i: int| 0 <= i < list.len() ==> ta_supported(#[trigger] list[i], config)
}

fn is_ta_supported(ta: &SupportedTaItem, config: &Config) -> (r: bool)
    ensures
        r == ta_supported(*ta, *config),
{
    let psl = &config.amf.plmn_support_list;
    let bps = &ta.broadcast_plmn_list;
    let mut i: usize = 0;
    while i < psl.len()
        invariant
            psl == &config.amf.plmn_support_list,
            bps == &ta.broadcast_plmn_list,
            i <= psl@.len(),
            forall|i2: int, j2: int, k2: int|
                0 <= i2 < i && 0 <= j2 < psl@[i2].tai_list@.len() && 0 <= k2 < bps@.len()
                    ==> !#[trigger] tai_matches(psl@[i2].tai_list@[j2], ta.tac@, bps@[k2]),
        decreases psl@.len() - i,
    {
        let tais = &psl[i].tai_list;
        let mut j: usize = 0;
        while j < tais.len()
            invariant
                psl == &config.amf.plmn_support_list,
                bps == &ta.broadcast_plmn_list,
                i < psl@.len(),
                tais == &psl@[i as int].tai_list,
                j <= tais@.len(),
                forall|i2: int, j2: int, k2: int|
                    0 <= i2 < i && 0 <= j2 < psl@[i2].tai_list@.len() && 0 <= k2 < bps@.len()
                        ==> !#[trigger] tai_matches(psl@[i2].tai_list@[j2], ta.tac@, bps@[k2]),
                forall|j2: int, k2: int|
                    0 <= j2 < j && 0 <= k2 < bps@.len() ==> !#[trigger] tai_matches(
                        psl@[i as int].tai_list@[j2],
                        ta.tac@,
                        bps@[k2],
                    ),
            decreases tais@.len() - j,
        {
            let t = &tais[j];
            let mut k: usize = 0;
            while k < bps.len()
                invariant
                    psl == &config.amf.plmn_support_list,
                    bps == &ta.broadcast_plmn_list,
                    i < psl@.len(),
                    tais == &psl@[i as int].tai_list,
                    j < tais@.len(),
                    t == &tais@[j as int],
                    k <= bps@.len(),
                    forall|k2: int| 0 <= k2 < k ==> !#[trigger] tai_matches(*t, ta.tac@, bps@[k2]),
                decreases bps@.len() - k,
            {
                let bp = &bps[k];
                if t.tac == ta.tac && t.plmn_id.mcc == bp.plmn_identity.mcc && t.plmn_id.mnc
                    == bp.plmn_identity.mnc {
                    assert(tai_matches(psl@[i as int].tai_list@[j as int], ta.tac@, bps@[k as int]));
                    return true;
                }
                k += 1;
            }
            j += 1;
        }
        i += 1;
    }
    false
}

pub fn validate_supported_tai_list(tai_list: &[SupportedTaItem], config: &Config) -> (r: bool)
    ensures
        r == spec_tai_list_valid(tai_list@, *config),
{
    if tai_list.len() == 0 {
        return false;
    }
    let mut i: usize = 0;
    while i < tai_list.len()
        invariant
            i <= tai_list@.len(),
            forall|i2: int| 0 <= i2 < i ==> ta_supported(#[trigger] tai_list@[i2], *config),
        decreases tai_list@.len() - i,
    {
        if !is_ta_supported(&tai_list[i], config) {
            return false;
        }
        i += 1;
    }
    true
}

// ------------------------------------------------------------ NG Setup

/// The RAN id of a node: `{mcc}_{node type}_{node id}`.
pub open spec fn spec_ran_id(request: NgSetupRequest) -> Seq<char> {
    spec_node_plmn(request.global_ran_node_id).mcc@ + seq!['_'] + spec_node_type(
        request.global_ran_node_id,
    ) + seq!['_'] + spec_node_value(request.global_ran_node_id)
}

fn ran_id_of(request: &NgSetupRequest) -> (r: String)
    ensures
        r@ == spec_ran_id(*request),
{
    let mut id = String::new();
    id.append(request.global_ran_node_id.plmn_identity().mcc.as_str());
    id.push('_');
    id.append(request.global_ran_node_id.node_type());
    id.push('_');
    let node = request.global_ran_node_id.ran_node_id();
    id.append(node.as_str());
    id
}

pub open spec fn ctx_tas_view(v: Seq<SupportedTa>) -> Seq<TaView> {
    v.map_values(|t: SupportedTa| t@)
}

/// The context that a successful NG Setup from `addr` records.
pub open spec fn registered_context(c: RanContext, request: NgSetupRequest, addr: Seq<char>) -> bool {
    &&& c.ran_id@ == spec_ran_id(request)
    &&& c.ran_name@ == spec_ran_id(request)
    &&& c.addr@ == addr
    &&& c.state == RanState::Connected
    &&& ctx_tas_view(c.supported_ta_list@) == tas_view(request.supported_ta_list@)
    &&& c.default_paging_drx == Some(request.default_paging_drx)
}

/// What NG Setup does to the RAN contexts: when the TA list passes, the
/// node's context is stored as `update` stores it; else nothing changes.
pub open spec fn setup_applied(
    before: Map<Seq<char>, RanContext>,
    after: Map<Seq<char>, RanContext>,
    request: NgSetupRequest,
    config: Config,
    addr: Seq<char>,
) -> bool {
    if spec_tai_list_valid(request.supported_ta_list@, config) {
        let id = spec_ran_id(request);
        &&& after.contains_key(id)
        &&& registered_context(after[id], request, addr)
        &&& forall|k: Seq<char>| k != id ==> (#[trigger] after.contains_key(k) <==> kept_besides(before, after[id], k))
        &&& forall|k: Seq<char>| k != id && #[trigger] after.contains_key(k) ==> after[k] == before[k]
    } else {
        after == before
    }
}

pub open spec fn plmn_of_config(p: crate::config::PlmnId) -> PlmnView {
    PlmnView { mcc: p.mcc@, mnc: p.mnc@ }
}

pub open spec fn guami_from_config(s: ServedGuami, g: Guami) -> bool {
    &&& s.plmn_identity@ == plmn_of_config(g.plmn_id)
    &&& s.amf_region_id@ == g.amf_region_id@
    &&& s.amf_set_id@ == g.amf_set_id@
    &&& s.amf_pointer@ == g.amf_pointer@
}

pub open spec fn plmn_support_from_config(p: PlmnSupportItem, c: PlmnSupport) -> bool {
    &&& p.plmn_identity@ == plmn_of_config(c.plmn_id)
    &&& slices_view(p.slice_support_list@) == c.s_nssai_list@.map_values(|s: ConfigSNssai| s@)
}

/// The NG Setup Response that the configuration gives: the AMF name, every
/// GUAMI, the relative capacity, and every PLMN with its slices.
pub open spec fn response_from_config(r: NgSetupResponse, config: Config) -> bool {
    &&& r.amf_name@ == config.amf.amf_name@
    &&& r.served_guami_list@.len() == config.amf.guami_list@.len()
    &&& forall|i: int| 0 <= i < r.served_guami_list@.len() ==> guami_from_config(
        #[trigger] r.served_guami_list@[i],
        config.amf.guami_list@[i],
    )
    &&& r.relative_amf_capacity == config.amf.relative_capacity
    &&& r.plmn_support_list@.len() == config.amf.plmn_support_list@.len()
    &&& forall|i: int| 0 <= i < r.plmn_support_list@.len() ==> plmn_support_from_config(
        #[trigger] r.plmn_support_list@[i],
        config.amf.plmn_support_list@[i],
    )
}

fn copy_text(s: &Option<String>) -> (r: Option<String>)
    ensures
        r == *s,
{
    match s {
        Some(t) => Some(t.clone()),
        None => None,
    }
}

fn context_slices(list: &Vec<SliceSupportItem>) -> (r: Vec<ContextSNssai>)
    ensures
        r@.map_values(|s: ContextSNssai| s@) == slices_view(list@),
{
    let mut out: Vec<ContextSNssai> = Vec::new();
    let mut i: usize = 0;
    while i < list.len()
        invariant
            i <= list@.len(),
            out@.map_values(|s: ContextSNssai| s@) == slices_view(list@.subrange(0, i as int)),
        decreases list@.len() - i,
    {
        let item = ContextSNssai { sst: list[i].s_nssai.sst, sd: copy_text(&list[i].s_nssai.sd) };
        let ghost before = out@;
        out.push(item);
        assert(out@.map_values(|s: ContextSNssai| s@) =~= before.map_values(|s: ContextSNssai| s@).push(item@));
        assert(list@.subrange(0, i + 1) =~= list@.subrange(0, i as int).push(list@[i as int]));
        assert(slices_view(list@.subrange(0, i + 1)) =~= slices_view(list@.subrange(0, i as int)).push(list@[i as int]@));
        i += 1;
    }
    assert(list@.subrange(0, i as int) =~= list@);
    out
}

fn context_broadcast_plmns(list: &Vec<BroadcastPlmnItem>) -> (r: Vec<BroadcastPlmn>)
    ensures
        r@.map_values(|b: BroadcastPlmn| b@) == plmns_view(list@),
{
    let mut out: Vec<BroadcastPlmn> = Vec::new();
    let mut i: usize = 0;
    while i < list.len()
        invariant
            i <= list@.len(),
            out@.map_values(|b: BroadcastPlmn| b@) == plmns_view(list@.subrange(0, i as int)),
        decreases list@.len() - i,
    {
        let bp = &list[i];
        let item = BroadcastPlmn {
            plmn_id: ContextPlmnId {
                mcc: bp.plmn_identity.mcc.clone(),
                mnc: bp.plmn_identity.mnc.clone(),
            },
            s_nssai_list: context_slices(&bp.tai_slice_support_list),
        };
        let ghost before = out@;
        out.push(item);
        assert(out@.map_values(|b: BroadcastPlmn| b@) =~= before.map_values(|b: BroadcastPlmn| b@).push(item@));
        assert(list@.subrange(0, i + 1) =~= list@.subrange(0, i as int).push(list@[i as int]));
        assert(plmns_view(list@.subrange(0, i + 1)) =~= plmns_view(list@.subrange(0, i as int)).push(list@[i as int]@));
        i += 1;
    }
    assert(list@.subrange(0, i as int) =~= list@);
    out
}

fn context_ta_list(list: &Vec<SupportedTaItem>) -> (r: Vec<SupportedTa>)
    ensures
        ctx_tas_view(r@) == tas_view(list@),
{
    let mut out: Vec<SupportedTa> = Vec::new();
    let mut i: usize = 0;
    while i < list.len()
        invariant
            i <= list@.len(),
            ctx_tas_view(out@) == tas_view(list@.subrange(0, i as int)),
        decreases list@.len() - i,
    {
        let ta = &list[i];
        let item = SupportedTa {
            tac: ta.tac.clone(),
            broadcast_plmn_list: context_broadcast_plmns(&ta.broadcast_plmn_list),
        };
        let ghost before = out@;
        out.push(item);
        assert(ctx_tas_view(out@) =~= ctx_tas_view(before).push(item@));
        assert(list@.subrange(0, i + 1) =~= list@.subrange(0, i as int).push(list@[i as int]));
        assert(tas_view(list@.subrange(0, i + 1)) =~= tas_view(list@.subrange(0, i as int)).push(list@[i as int]@));
        i += 1;
    }
    assert(list@.subrange(0, i as int) =~= list@);
    out
}

fn served_guamis(list: &Vec<Guami>) -> (r: Vec<ServedGuami>)
    ensures
        r@.len() == list@.len(),
        forall|i: int| 0 <= i < r@.len() ==> guami_from_config(#[trigger] r@[i], list@[i]),
{
    let mut out: Vec<ServedGuami> = Vec::new();
    let mut i: usize = 0;
    while i < list.len()
        invariant
            i <= list@.len(),
            out@.len() == i,
            forall|j: int| 0 <= j < i ==> guami_from_config(#[trigger] out@[j], list@[j]),
        decreases list@.len() - i,
    {
        let g = &list[i];
        out.push(
            ServedGuami {
                plmn_identity: PlmnIdentity { mcc: g.plmn_id.mcc.clone(), mnc: g.plmn_id.mnc.clone() },
                amf_region_id: g.amf_region_id.clone(),
                amf_set_id: g.amf_set_id.clone(),
                amf_pointer: g.amf_pointer.clone(),
            },
        );
        i += 1;
    }
    out
}

fn response_slices(list: &Vec<ConfigSNssai>) -> (r: Vec<SliceSupportItem>)
    ensures
        slices_view(r@) == list@.map_values(|s: ConfigSNssai| s@),
{
    let mut out: Vec<SliceSupportItem> = Vec::new();
    let mut i: usize = 0;
    while i < list.len()
        invariant
            i <= list@.len(),
            slices_view(out@) == list@.subrange(0, i as int).map_values(|s: ConfigSNssai| s@),
        decreases list@.len() - i,
    {
        let item = SliceSupportItem { s_nssai: SNssai { sst: list[i].sst, sd: copy_text(&list[i].sd) } };
        let ghost before = out@;
        out.push(item);
        assert(slices_view(out@) =~= slices_view(before).push(item@));
        assert(list@.subrange(0, i + 1) =~= list@.subrange(0, i as int).push(list@[i as int]));
        assert(list@.subrange(0, i + 1).map_values(|s: ConfigSNssai| s@) =~= list@.subrange(0, i as int).map_values(|s: ConfigSNssai| s@).push(list@[i as int]@));
        i += 1;
    }
    assert(list@.subrange(0, i as int) =~= list@);
    out
}

fn plmn_support_items(list: &Vec<PlmnSupport>) -> (r: Vec<PlmnSupportItem>)
    ensures
        r@.len() == list@.len(),
        forall|i: int| 0 <= i < r@.len() ==> plmn_support_from_config(#[trigger] r@[i], list@[i]),
{
    let mut out: Vec<PlmnSupportItem> = Vec::new();
    let mut i: usize = 0;
    while i < list.len()
        invariant
            i <= list@.len(),
            out@.len() == i,
            forall|j: int| 0 <= j < i ==> plmn_support_from_config(#[trigger] out@[j], list@[j]),
        decreases list@.len() - i,
    {
        let ps = &list[i];
        out.push(
            PlmnSupportItem {
                plmn_identity: PlmnIdentity { mcc: ps.plmn_id.mcc.clone(), mnc: ps.plmn_id.mnc.clone() },
                slice_support_list: response_slices(&ps.s_nssai_list),
            },
        );
        i += 1;
    }
    out
}

/// A successful NG Setup outcome (criticality reject) carrying the
/// response that the configuration gives.
pub open spec fn is_setup_response(r: NgapPdu, config: Config) -> bool {
    match r {
        NgapPdu::SuccessfulOutcome(m) => m.procedure_code == NGAP_PROCEDURE_CODE_NG_SETUP && m.criticality
            == 0 && match m.value {
            NgapMessageValue::NgSetupResponse(resp) => response_from_config(resp, config),
            _ => false,
        },
        _ => false,
    }
}

/// An unsuccessful NG Setup outcome (criticality reject) carrying a
/// failure with transport cause 0 and a time to wait of 10.
pub open spec fn is_setup_failure(r: NgapPdu) -> bool {
    match r {
        NgapPdu::UnsuccessfulOutcome(m) => m.procedure_code == NGAP_PROCEDURE_CODE_NG_SETUP && m.criticality
            == 0 && match m.value {
            NgapMessageValue::NgSetupFailure(f) => f.cause == (Cause { cause_type: 1, cause_value: 0 })
                && f.time_to_wait == Some(10u8) && f.critical_diagnostics is None,
            _ => false,
        },
        _ => false,
    }
}

/// Handles an NG Setup Request from peer `addr`. When the TA list passes,
/// records the node's context (Connected, with its TAs and paging DRX)
/// and answers with an NG Setup Response built from the configuration;
/// else answers with an NG Setup Failure (transport cause 0, time to wait
/// 10) and records nothing.
pub fn handle_ng_setup_request(
    request: NgSetupRequest,
    config: &Config,
    ran_context: &mut RanContextManager,
    addr: &str,
) -> (r: NgapPdu)
    requires
        old(ran_context).wf(),
    ensures
        final(ran_context).wf(),
        setup_applied(old(ran_context).contexts(), final(ran_context).contexts(), request, *config, addr@),
        spec_tai_list_valid(request.supported_ta_list@, *config) ==> is_setup_response(r, *config),
        !spec_tai_list_valid(request.supported_ta_list@, *config) ==> is_setup_failure(r),
{
    let ran_id = ran_id_of(&request);
    if !validate_supported_tai_list(request.supported_ta_list.as_slice(), config) {
        return NgapPdu::UnsuccessfulOutcome(
            UnsuccessfulOutcome {
                procedure_code: NGAP_PROCEDURE_CODE_NG_SETUP,
                criticality: 0,
                value: NgapMessageValue::NgSetupFailure(
                    NgSetupFailure {
                        cause: Cause { cause_type: 1, cause_value: 0 },
                        time_to_wait: Some(10),
                        critical_diagnostics: None,
                    },
                ),
            },
        );
    }
    let ran_ctx = RanContext {
        ran_id: ran_id.clone(),
        ran_name: ran_id.clone(),
        addr: addr.to_owned(),
        state: RanState::Connected,
        supported_ta_list: context_ta_list(&request.supported_ta_list),
        default_paging_drx: Some(request.default_paging_drx),
    };
    ran_context.update(ran_ctx);
    let response = NgSetupResponse {
        amf_name: config.amf.amf_name.clone(),
        served_guami_list: served_guamis(&config.amf.guami_list),
        relative_amf_capacity: config.amf.relative_capacity,
        plmn_support_list: plmn_support_items(&config.amf.plmn_support_list),
    };
    NgapPdu::SuccessfulOutcome(
        SuccessfulOutcome {
            procedure_code: NGAP_PROCEDURE_CODE_NG_SETUP,
            criticality: 0,
            value: NgapMessageValue::NgSetupResponse(response),
        },
    )
}

} // verus!

verus! {

// -------------------------------------------------- Initial UE Message

/// The UE context that an Initial UE Message creates: Connected, with the
/// RAN-UE-NGAP-ID and TAI of the message, owned by RAN `ran_id`, and no
/// identifiers or security context yet.
pub open spec fn registered_ue(c: UeContext, id: u64, message: InitialUeMessage, ran_id: Seq<char>) -> bool {
    &&& c.amf_ue_ngap_id == id
    &&& c.ran_ue_ngap_id == Some(message.ran_ue_ngap_id)
    &&& c.supi is None
    &&& c.suci is None
    &&& c.guti is None
    &&& c.pei is None
    &&& c.state == UeState::Connected
    &&& c.registration_type is None
    &&& c.security_context is None
    &&& c.kamf is None
    &&& c.kseaf is None
    &&& c.nas_uplink_count == 0
    &&& c.nas_downlink_count == 0
    &&& c.ecgi is None
    &&& c.ran_id matches Some(r) && r@ == ran_id
    &&& c.tai matches Some(t) && t.tac@ == message.user_location_info.tai.tac@
        && t.plmn_id.mcc@ == message.user_location_info.tai.plmn_identity.mcc@
        && t.plmn_id.mnc@ == message.user_location_info.tai.plmn_identity.mnc@
}

/// A RAN context after its first UE procedure: Connected becomes Active.
pub open spec fn activated(c: RanContext) -> RanContext {
    RanContext { state: if c.state == RanState::Connected { RanState::Active } else { c.state }, ..c }
}

/// What an Initial UE Message from `addr` does to the stores. With a RAN
/// context on `addr` (`id` is `Some`): the next AMF-UE-NGAP-ID is
/// allocated, a UE context owned by that RAN is recorded under it, no
/// other UE context changes, and the RAN context is activated. Without one
/// (`id` is `None`): nothing changes.
pub open spec fn initial_ue_applied(
    ran0: RanContextManager,
    ran1: RanContextManager,
    ue0: UeContextManager,
    ue1: UeContextManager,
    message: InitialUeMessage,
    addr: Seq<char>,
    id: Option<u64>,
) -> bool {
    match id {
        Some(id) => {
            &&& id == ue0.next_id()
            &&& ue1.next_id() == id + 1
            &&& ue1.contexts().dom() == ue0.contexts().dom().insert(id)
            &&& forall|k: u64| k != id && #[trigger] ue0.contexts().contains_key(k) ==> ue1.contexts()[k]
                == ue0.contexts()[k]
            &&& exists|k: Seq<char>| #[trigger] ran0.contexts().contains_key(k) && ran0.contexts()[k].addr@ == addr
                && registered_ue(ue1.contexts()[id], id, message, k) && ran1.contexts() == ran0.contexts().insert(
                k,
                activated(ran0.contexts()[k]),
            )
        },
        None => {
            &&& forall|k: Seq<char>| #[trigger] ran0.contexts().contains_key(k) ==> ran0.contexts()[k].addr@ != addr
            &&& ran1.contexts() == ran0.contexts()
            &&& ue1.contexts() == ue0.contexts()
            &&& ue1.next_id() == ue0.next_id()
        },
    }
}

/// Handles an Initial UE Message from peer `addr`: allocates a fresh
/// AMF-UE-NGAP-ID and records a Connected UE context owned by the RAN
/// context on that address, which becomes Active if it was Connected.
/// Returns the id, for the NAS PDU to be handed on with it. Without a RAN
/// context on `addr` nothing changes.
pub fn handle_initial_ue_message(
    message: InitialUeMessage,
    ran_context: &mut RanContextManager,
    ue_context: &mut UeContextManager,
    addr: &str,
) -> (r: Result<u64, ProtocolError>)
    requires
        old(ran_context).wf(),
        old(ue_context).wf(),
        old(ue_context).next_id() < u64::MAX,
    ensures
        final(ran_context).wf(),
        final(ue_context).wf(),
        match r {
            Ok(id) => initial_ue_applied(*old(ran_context), *final(ran_context), *old(ue_context), *final(ue_context), message, addr@, Some(id)),
            Err(e) => e matches ProtocolError::RanNotFound(a) && a@ == addr@ && initial_ue_applied(
                *old(ran_context),
                *final(ran_context),
                *old(ue_context),
                *final(ue_context),
                message,
                addr@,
                None,
            ),
        },
{
    let mut ran = match ran_context.get_by_addr(addr) {
        Some(ran) => ran,
        None => return Err(ProtocolError::RanNotFound(addr.to_owned())),
    };
    let ghost rid = ran.ran_id@;
    assert(ran_context.contexts().contains_key(rid) && ran_context.contexts()[rid].addr@ == addr@);
    let amf_ue_ngap_id = ue_context.allocate_amf_ue_ngap_id();
    let ghost c1 = ue_context.contexts();
    let mut ue_ctx = ue_context.create_ue_context(amf_ue_ngap_id);
    let ghost c2 = ue_context.contexts();
    ue_ctx.ran_ue_ngap_id = Some(message.ran_ue_ngap_id);
    ue_ctx.state = UeState::Connected;
    ue_ctx.ran_id = Some(ran.ran_id.clone());
    ue_ctx.tai = Some(
        UeTai {
            plmn_id: UePlmnId {
                mcc: message.user_location_info.tai.plmn_identity.mcc.clone(),
                mnc: message.user_location_info.tai.plmn_identity.mnc.clone(),
            },
            tac: message.user_location_info.tai.tac.clone(),
        },
    );
    let ghost stored = ue_ctx;
    ue_context.update(ue_ctx);
    assert(ue_context.contexts().dom() =~= c1.dom().insert(amf_ue_ngap_id)) by {
        assert forall|k: u64| #[trigger] ue_context.contexts().contains_key(k) <==> c1.dom().insert(amf_ue_ngap_id).contains(k) by {
            if k != amf_ue_ngap_id {
                assert(ue_context.contexts().contains_key(k) <==> c2.contains_key(k));
            }
        }
    }
    assert(registered_ue(stored, amf_ue_ngap_id, message, rid));
    assert(ue_context.contexts()[amf_ue_ngap_id] == stored);
    assert forall|k: u64| k != amf_ue_ngap_id && #[trigger] c1.contains_key(k) implies ue_context.contexts()[k] == c1[k] by {
        assert(c2.contains_key(k));
        assert(ue_context.contexts().contains_key(k));
    }
    let ghost r0 = ran_context.contexts();
    if ran.state == RanState::Connected {
        ran.state = RanState::Active;
        ran_context.update(ran);
        assert forall|k: Seq<char>| k != rid implies (#[trigger] ran_context.contexts().contains_key(k) <==> r0.contains_key(k)) by {
            if r0.contains_key(k) && r0[k].addr@ == addr@ {
                assert(old(ran_context).addr_index()[r0[k].addr@] == k);
                assert(old(ran_context).addr_index()[r0[rid].addr@] == rid);
            }
        }
        assert(ran_context.contexts() =~= r0.insert(rid, activated(r0[rid])));
    } else {
        assert(r0.insert(rid, activated(r0[rid])) =~= r0);
    }
    Ok(amf_ue_ngap_id)
}

// ------------------------------------------------------------ dispatch

/// What to do after one PDU has been handled.
#[derive(Debug)]
pub enum Reply {
    /// Write these octets on the association.
    Send(Bytes),
    /// Hand the NAS PDU of a new UE to the NAS side, with its ids and TAI.
    NasEntry { amf_ue_ngap_id: u64, ran_ue_ngap_id: u64, nas_pdu: Vec<u8>, tai: Tai },
    /// Nothing to do.
    Nothing,
}

/// The NG Setup Failure that refuses a node: transport cause 0, time to
/// wait 10, criticality reject.
pub open spec fn setup_failure_pdu() -> NgapPdu {
    NgapPdu::UnsuccessfulOutcome(
        UnsuccessfulOutcome {
            procedure_code: NGAP_PROCEDURE_CODE_NG_SETUP,
            criticality: 0,
            value: NgapMessageValue::NgSetupFailure(
                NgSetupFailure {
                    cause: Cause { cause_type: 1, cause_value: 0 },
                    time_to_wait: Some(10u8),
                    critical_diagnostics: None,
                },
            ),
        },
    )
}

fn setup_failure_outcome() -> (r: NgapPdu)
    ensures
        r == setup_failure_pdu(),
{
    NgapPdu::UnsuccessfulOutcome(
        UnsuccessfulOutcome {
            procedure_code: NGAP_PROCEDURE_CODE_NG_SETUP,
            criticality: 0,
            value: NgapMessageValue::NgSetupFailure(
                NgSetupFailure {
                    cause: Cause { cause_type: 1, cause_value: 0 },
                    time_to_wait: Some(10),
                    critical_diagnostics: None,
                },
            ),
        },
    )
}

/// The outcome that NG Setup gives for `request`: the configured response
/// when the TA list passes, else the failure.
pub open spec fn setup_reply(o: NgapPdu, request: NgSetupRequest, config: Config) -> bool {
    if spec_tai_list_valid(request.supported_ta_list@, config) {
        is_setup_response(o, config)
    } else {
        is_setup_failure(o)
    }
}

/// The octets sent for an NG Setup outcome: its encoding, or, where it
/// cannot be encoded, the encoding of the failure.
pub open spec fn setup_octets(o: NgapPdu) -> Seq<u8> {
    match spec_encode_pdu(o) {
        Ok(b) => b,
        Err(_) => spec_encode_pdu(setup_failure_pdu())->Ok_0,
    }
}

/// Handles one PDU read from the association with peer `addr`. An NG
/// Setup Request is answered with the octets of its outcome (an outcome
/// that cannot be encoded is answered with the NG Setup Failure instead;
/// the store change stands); an Initial UE Message is recorded and its NAS
/// PDU handed on; every other PDU is dropped.
pub fn handle_ngap_message(
    pdu: NgapPdu,
    config: &Config,
    ran_context: &mut RanContextManager,
    ue_context: &mut UeContextManager,
    addr: &str,
) -> (r: Result<Reply, crate::error::HandlingError>)
    requires
        old(ran_context).wf(),
        old(ue_context).wf(),
        old(ue_context).next_id() < u64::MAX,
    ensures
        final(ran_context).wf(),
        final(ue_context).wf(),
        match pdu {
            NgapPdu::InitiatingMessage(m) => match m.value {
                NgapMessageValue::NgSetupRequest(req) => {
                    &&& setup_applied(old(ran_context).contexts(), final(ran_context).contexts(), req, *config, addr@)
                    &&& final(ue_context).contexts() == old(ue_context).contexts()
                    &&& final(ue_context).next_id() == old(ue_context).next_id()
                    &&& r matches Ok(Reply::Send(b))
                    &&& exists|o: NgapPdu| #[trigger] setup_reply(o, req, *config) && bytes_contents(b) == setup_octets(o)
                },
                NgapMessageValue::InitialUeMessage(msg) => match r {
                    Ok(Reply::NasEntry { amf_ue_ngap_id, ran_ue_ngap_id, nas_pdu, tai }) => {
                        &&& initial_ue_applied(
                            *old(ran_context),
                            *final(ran_context),
                            *old(ue_context),
                            *final(ue_context),
                            msg,
                            addr@,
                            Some(amf_ue_ngap_id),
                        )
                        &&& ran_ue_ngap_id == msg.ran_ue_ngap_id
                        &&& nas_pdu@ == msg.nas_pdu@
                        &&& tai.plmn_identity@ == msg.user_location_info.tai.plmn_identity@
                        &&& tai.tac@ == msg.user_location_info.tai.tac@
                    },
                    Err(crate::error::HandlingError::Protocol(ProtocolError::RanNotFound(a))) => a@ == addr@
                        && initial_ue_applied(
                        *old(ran_context),
                        *final(ran_context),
                        *old(ue_context),
                        *final(ue_context),
                        msg,
                        addr@,
                        None,
                    ),
                    _ => false,
                },
                _ => final(ran_context).contexts() == old(ran_context).contexts() && final(ue_context).contexts()
                    == old(ue_context).contexts() && final(ue_context).next_id() == old(ue_context).next_id()
                    && r matches Ok(Reply::Nothing),
            },
            _ => final(ran_context).contexts() == old(ran_context).contexts() && final(ue_context).contexts()
                == old(ue_context).contexts() && final(ue_context).next_id() == old(ue_context).next_id()
                && r matches Ok(Reply::Nothing),
        },
{
    match pdu {
        NgapPdu::InitiatingMessage(msg) => match msg.value {
            NgapMessageValue::NgSetupRequest(request) => {
                let ghost req = request;
                let outcome = handle_ng_setup_request(request, config, ran_context, addr);
                let ghost o = outcome;
                assert(setup_reply(o, req, *config));
                match outcome.encode() {
                    Ok(octets) => Ok(Reply::Send(octets)),
                    Err(_) => {
                        let failure = setup_failure_outcome();
                        assert(spec_setup_failure_value(failure->UnsuccessfulOutcome_0.value->NgSetupFailure_0).len() == 14);
                        match failure.encode() {
                            Ok(octets) => Ok(Reply::Send(octets)),
                            Err(_) => vstd::pervasive::unreached(),
                        }
                    },
                }
            },
            NgapMessageValue::InitialUeMessage(message) => {
                let ghost m = message;
                let ran_ue_ngap_id = message.ran_ue_ngap_id;
                let nas_pdu = vstd::slice::slice_to_vec(message.nas_pdu.as_slice());
                let tai = Tai {
                    plmn_identity: PlmnIdentity {
                        mcc: message.user_location_info.tai.plmn_identity.mcc.clone(),
                        mnc: message.user_location_info.tai.plmn_identity.mnc.clone(),
                    },
                    tac: message.user_location_info.tai.tac.clone(),
                };
                match handle_initial_ue_message(message, ran_context, ue_context, addr) {
                    Ok(amf_ue_ngap_id) => Ok(Reply::NasEntry { amf_ue_ngap_id, ran_ue_ngap_id, nas_pdu, tai }),
                    Err(e) => Err(crate::error::HandlingError::Protocol(e)),
                }
            },
            _ => Ok(Reply::Nothing),
        },
        _ => Ok(Reply::Nothing),
    }
}

/// Drops the RAN context of the association with peer `addr`, once the
/// association has closed, and the UE contexts that it owns; hands back
/// the RAN context dropped, if any.
pub fn release_association(
    ran_context: &mut RanContextManager,
    ue_context: &mut UeContextManager,
    addr: &str,
) -> (r: Option<RanContext>)
    requires
        old(ran_context).wf(),
        old(ue_context).wf(),
    ensures
        final(ran_context).wf(),
        final(ue_context).wf(),
        final(ue_context).next_id() == old(ue_context).next_id(),
        match r {
            Some(c) => {
                &&& c.addr@ == addr@
                &&& old(ran_context).contexts().contains_key(c.ran_id@)
                &&& old(ran_context).contexts()[c.ran_id@] == c
                &&& final(ran_context).contexts() == old(ran_context).contexts().remove(c.ran_id@)
                &&& forall|k: u64| #[trigger] final(ue_context).contexts().contains_key(k) <==> old(ue_context).contexts().contains_key(k)
                    && !owned_by(old(ue_context).contexts()[k], c.ran_id@)
                &&& forall|k: u64| #[trigger] final(ue_context).contexts().contains_key(k)
                    ==> final(ue_context).contexts()[k] == old(ue_context).contexts()[k]
            },
            None => {
                &&& final(ran_context).contexts() == old(ran_context).contexts()
                &&& final(ue_context).contexts() == old(ue_context).contexts()
                &&& forall|k: Seq<char>| #[trigger] old(ran_context).contexts().contains_key(k)
                    ==> old(ran_context).contexts()[k].addr@ != addr@
            },
        },
{
    match ran_context.get_by_addr(addr) {
        Some(c) => {
            let removed = ran_context.remove(c.ran_id.as_str());
            ue_context.remove_owned_by(c.ran_id.as_str());
            removed
        },
        None => None,
    }
}

// ------------------------------------------------- reserved procedures

/// Uplink NAS Transport is dropped in this core.
pub fn handle_uplink_nas_transport() -> (r: Result<(), ProtocolError>)
    ensures
        r is Ok,
{
    Ok(())
}

/// Initial Context Setup Response is dropped in this core.
pub fn handle_initial_context_setup_response() -> (r: Result<(), ProtocolError>)
    ensures
        r is Ok,
{
    Ok(())
}

/// PDU Session Resource Setup Response is dropped in this core.
pub fn handle_pdu_session_resource_setup_response() -> (r: Result<(), ProtocolError>)
    ensures
        r is Ok,
{
    Ok(())
}

/// UE Context Release Request is dropped in this core.
pub fn handle_ue_context_release_request() -> (r: Result<(), ProtocolError>)
    ensures
        r is Ok,
{
    Ok(())
}

// ----------------------------------------------------------------- laws

/// Exactly one context in `m` is on address `addr`.
pub open spec fn exactly_one_on(m: Map<Seq<char>, RanContext>, addr: Seq<char>) -> bool {
    exists|k: Seq<char>| #[trigger]
        m.contains_key(k) && m[k].addr@ == addr && forall|k2: Seq<char>| #[trigger]
            m.contains_key(k2) && m[k2].addr@ == addr ==> k2 == k
}

/// After NG Setup from a peer that had no RAN context, exactly one RAN
/// context is on the peer's address if and only if the TA list passed.
/// On success this holds whatever was stored before.
pub proof fn lemma_setup_context_on_peer(
    before: RanContextManager,
    after: RanContextManager,
    request: NgSetupRequest,
    config: Config,
    addr: Seq<char>,
)
    requires
        before.wf(),
        after.wf(),
        setup_applied(before.contexts(), after.contexts(), request, config, addr),
    ensures
        spec_tai_list_valid(request.supported_ta_list@, config) ==> exactly_one_on(after.contexts(), addr),
        (forall|k: Seq<char>| #[trigger] before.contexts().contains_key(k) ==> before.contexts()[k].addr@ != addr)
            ==> (exactly_one_on(after.contexts(), addr) <==> spec_tai_list_valid(request.supported_ta_list@, config)),
{
    let m = after.contexts();
    if spec_tai_list_valid(request.supported_ta_list@, config) {
        let id = spec_ran_id(request);
        assert forall|k2: Seq<char>| #[trigger] m.contains_key(k2) && m[k2].addr@ == addr implies k2 == id by {
            assert(after.addr_index()[m[k2].addr@] == k2);
            assert(after.addr_index()[m[id].addr@] == id);
        }
        assert(m.contains_key(id) && m[id].addr@ == addr);
    } else {
        if exactly_one_on(m, addr) {
            let k = choose|k: Seq<char>| #[trigger]
                m.contains_key(k) && m[k].addr@ == addr && forall|k2: Seq<char>| #[trigger]
                    m.contains_key(k2) && m[k2].addr@ == addr ==> k2 == k;
            assert(before.contexts().contains_key(k));
        }
    }
}

/// Allocations give strictly increasing AMF-UE-NGAP-IDs: of two
/// allocations, the later one, whatever store operations came between
/// them, gives the larger id.
pub proof fn lemma_allocations_increase(
    s0: UeContextManager,
    s1: UeContextManager,
    s2: UeContextManager,
    s3: UeContextManager,
    first: u64,
    second: u64,
)
    requires
        allocated(s0, s1, first),
        s2.next_id() >= s1.next_id(),
        allocated(s2, s3, second),
    ensures
        first < second,
{
}

} // verus!
