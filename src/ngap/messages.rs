//! The NGAP message schema.

use vstd::prelude::*;

verus! {

#[derive(Debug, Clone)]
pub struct NgSetupRequest {
    pub global_ran_node_id: GlobalRanNodeId,
    pub supported_ta_list: Vec<SupportedTaItem>,
    pub default_paging_drx: u32,
}

#[derive(Debug, Clone)]
pub enum GlobalRanNodeId {
    GNB(GlobalGnbId),
    NgENB(GlobalNgEnbId),
    N3IWF(GlobalN3iwfId),
    TNGF(GlobalTngfId),
    TWIF(GlobalTwifId),
    WAGF(GlobalWagfId),
}

#[derive(Debug, Clone)]
pub struct GlobalGnbId {
    pub plmn_identity: PlmnIdentity,
    pub gnb_id: GnbId,
}

#[derive(Debug, Clone)]
pub enum GnbId {
    GnbId { value: String, bit_length: u8 },
}

#[derive(Debug, Clone)]
pub struct GlobalNgEnbId {
    pub plmn_identity: PlmnIdentity,
    pub ng_enb_id: NgEnbId,
}

#[derive(Debug, Clone)]
pub enum NgEnbId {
    MacroNgEnbId(String),
    ShortMacroNgEnbId(String),
    LongMacroNgEnbId(String),
}

#[derive(Debug, Clone)]
pub struct GlobalN3iwfId {
    pub plmn_identity: PlmnIdentity,
    pub n3iwf_id: String,
}

#[derive(Debug, Clone)]
pub struct GlobalTngfId {
    pub plmn_identity: PlmnIdentity,
    pub tngf_id: String,
}

#[derive(Debug, Clone)]
pub struct GlobalTwifId {
    pub plmn_identity: PlmnIdentity,
    pub twif_id: String,
}

#[derive(Debug, Clone)]
pub struct GlobalWagfId {
    pub plmn_identity: PlmnIdentity,
    pub wagf_id: String,
}

/// The PLMN that a node identifier names.
pub open spec fn spec_node_plmn(id: GlobalRanNodeId) -> PlmnIdentity {
    match id {
        GlobalRanNodeId::GNB(g) => g.plmn_identity,
        GlobalRanNodeId::NgENB(g) => g.plmn_identity,
        GlobalRanNodeId::N3IWF(g) => g.plmn_identity,
        GlobalRanNodeId::TNGF(g) => g.plmn_identity,
        GlobalRanNodeId::TWIF(g) => g.plmn_identity,
        GlobalRanNodeId::WAGF(g) => g.plmn_identity,
    }
}

/// The hex text of the node's own identifier, whatever its kind.
pub open spec fn spec_node_value(id: GlobalRanNodeId) -> Seq<char> {
    match id {
        GlobalRanNodeId::GNB(g) => match g.gnb_id {
            GnbId::GnbId { value, .. } => value@,
        },
        GlobalRanNodeId::NgENB(g) => match g.ng_enb_id {
            NgEnbId::MacroNgEnbId(v) => v@,
            NgEnbId::ShortMacroNgEnbId(v) => v@,
            NgEnbId::LongMacroNgEnbId(v) => v@,
        },
        GlobalRanNodeId::N3IWF(g) => g.n3iwf_id@,
        GlobalRanNodeId::TNGF(g) => g.tngf_id@,
        GlobalRanNodeId::TWIF(g) => g.twif_id@,
        GlobalRanNodeId::WAGF(g) => g.wagf_id@,
    }
}

/// The name of the node's kind.
pub open spec fn spec_node_type(id: GlobalRanNodeId) -> Seq<char> {
    match id {
        GlobalRanNodeId::GNB(_) => "gNB"@,
        GlobalRanNodeId::NgENB(_) => "ng-eNB"@,
        GlobalRanNodeId::N3IWF(_) => "N3IWF"@,
        GlobalRanNodeId::TNGF(_) => "TNGF"@,
        GlobalRanNodeId::TWIF(_) => "TWIF"@,
        GlobalRanNodeId::WAGF(_) => "W-AGF"@,
    }
}

impl GlobalRanNodeId {
    pub fn plmn_identity(&self) -> (r: &PlmnIdentity)
        ensures
            *r == spec_node_plmn(*self),
    {
        match self {
            GlobalRanNodeId::GNB(id) => &id.plmn_identity,
            GlobalRanNodeId::NgENB(id) => &id.plmn_identity,
            GlobalRanNodeId::N3IWF(id) => &id.plmn_identity,
            GlobalRanNodeId::TNGF(id) => &id.plmn_identity,
            GlobalRanNodeId::TWIF(id) => &id.plmn_identity,
            GlobalRanNodeId::WAGF(id) => &id.plmn_identity,
        }
    }

    pub fn ran_node_id(&self) -> (r: String)
        ensures
            r@ == spec_node_value(*self),
    {
        match self {
            GlobalRanNodeId::GNB(id) => match &id.gnb_id {
                GnbId::GnbId { value, .. } => value.clone(),
            },
            GlobalRanNodeId::NgENB(id) => match &id.ng_enb_id {
                NgEnbId::MacroNgEnbId(v) => v.clone(),
                NgEnbId::ShortMacroNgEnbId(v) => v.clone(),
                NgEnbId::LongMacroNgEnbId(v) => v.clone(),
            },
            GlobalRanNodeId::N3IWF(id) => id.n3iwf_id.clone(),
            GlobalRanNodeId::TNGF(id) => id.tngf_id.clone(),
            GlobalRanNodeId::TWIF(id) => id.twif_id.clone(),
            GlobalRanNodeId::WAGF(id) => id.wagf_id.clone(),
        }
    }

    pub fn node_type(&self) -> (r: &'static str)
        ensures
            r@ == spec_node_type(*self),
    {
        match self {
            GlobalRanNodeId::GNB(_) => "gNB",
            GlobalRanNodeId::NgENB(_) => "ng-eNB",
            GlobalRanNodeId::N3IWF(_) => "N3IWF",
            GlobalRanNodeId::TNGF(_) => "TNGF",
            GlobalRanNodeId::TWIF(_) => "TWIF",
            GlobalRanNodeId::WAGF(_) => "W-AGF",
        }
    }
}

#[derive(Debug, Clone)]
pub struct PlmnIdentity {
    pub mcc: String,
    pub mnc: String,
}

/// A PLMN as its two digit strings.
pub struct PlmnView {
    pub mcc: Seq<char>,
    pub mnc: Seq<char>,
}

impl View for PlmnIdentity {
    type V = PlmnView;

    open spec fn view(&self) -> PlmnView {
        PlmnView { mcc: self.mcc@, mnc: self.mnc@ }
    }
}

#[derive(Debug, Clone)]
pub struct SupportedTaItem {
    pub tac: String,
    pub broadcast_plmn_list: Vec<BroadcastPlmnItem>,
}

/// A supported tracking area: its TAC text and its broadcast PLMNs.
pub struct TaView {
    pub tac: Seq<char>,
    pub plmns: Seq<BroadcastView>,
}

impl View for SupportedTaItem {
    type V = TaView;

    open spec fn view(&self) -> TaView {
        TaView {
            tac: self.tac@,
            plmns: self.broadcast_plmn_list@.map_values(|b: BroadcastPlmnItem| b@),
        }
    }
}

#[derive(Debug, Clone)]
pub struct BroadcastPlmnItem {
    pub plmn_identity: PlmnIdentity,
    pub tai_slice_support_list: Vec<SliceSupportItem>,
}

/// A broadcast PLMN and the slices it supports.
pub struct BroadcastView {
    pub plmn: PlmnView,
    pub slices: Seq<SliceView>,
}

impl View for BroadcastPlmnItem {
    type V = BroadcastView;

    open spec fn view(&self) -> BroadcastView {
        BroadcastView {
            plmn: self.plmn_identity@,
            slices: self.tai_slice_support_list@.map_values(|s: SliceSupportItem| s@),
        }
    }
}

#[derive(Debug, Clone)]
pub struct SliceSupportItem {
    pub s_nssai: SNssai,
}

/// A slice: its SST and, when present, the text of its SD.
pub struct SliceView {
    pub sst: u8,
    pub sd: Option<Seq<char>>,
}

impl View for SliceSupportItem {
    type V = SliceView;

    open spec fn view(&self) -> SliceView {
        self.s_nssai@
    }
}

#[derive(Debug, Clone)]
pub struct SNssai {
    pub sst: u8,
    pub sd: Option<String>,
}

impl View for SNssai {
    type V = SliceView;

    open spec fn view(&self) -> SliceView {
        SliceView {
            sst: self.sst,
            sd: match self.sd {
                Some(s) => Some(s@),
                None => None,
            },
        }
    }
}

#[derive(Debug, Clone)]
pub struct NgSetupResponse {
    pub amf_name: String,
    pub served_guami_list: Vec<ServedGuami>,
    pub relative_amf_capacity: u8,
    pub plmn_support_list: Vec<PlmnSupportItem>,
}

#[derive(Debug, Clone)]
pub struct ServedGuami {
    pub plmn_identity: PlmnIdentity,
    pub amf_region_id: String,
    pub amf_set_id: String,
    pub amf_pointer: String,
}

#[derive(Debug, Clone)]
pub struct PlmnSupportItem {
    pub plmn_identity: PlmnIdentity,
    pub slice_support_list: Vec<SliceSupportItem>,
}

#[derive(Debug, Clone)]
pub struct NgSetupFailure {
    pub cause: Cause,
    pub time_to_wait: Option<u8>,
    pub critical_diagnostics: Option<String>,
}

#[derive(Debug, Clone, Copy, PartialEq, Eq, Structural)]
pub struct Cause {
    pub cause_type: u8,
    pub cause_value: u8,
}

#[derive(Debug, Clone)]
pub struct InitialUeMessage {
    pub ran_ue_ngap_id: u64,
    pub nas_pdu: Vec<u8>,
    pub user_location_info: UserLocationInfo,
    pub rrc_establishment_cause: u8,
}

#[derive(Debug, Clone)]
pub struct UserLocationInfo {
    pub nr_cgi: Option<NrCgi>,
    pub tai: Tai,
}

#[derive(Debug, Clone)]
pub struct NrCgi {
    pub plmn_identity: PlmnIdentity,
    pub nr_cell_identity: String,
}

#[derive(Debug, Clone)]
pub struct Tai {
    pub plmn_identity: PlmnIdentity,
    pub tac: String,
}

} // verus!
