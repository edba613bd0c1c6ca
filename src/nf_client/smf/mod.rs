use vstd::prelude::*;

verus! {

#[derive(Debug, Clone)]
pub struct SmContextCreateRequest {
    pub supi: String,
    pub pdu_session_id: u8,
    pub dnn: String,
    pub s_nssai: Snssai,
}

#[derive(Debug, Clone)]
pub struct Snssai {
    pub sst: u8,
    pub sd: Option<String>,
}

#[derive(Debug, Clone)]
pub struct SmContextCreateResponse {
    pub sm_context_id: String,
    pub pdu_session_id: u8,
}

#[derive(Debug, Clone)]
pub struct SmContextUpdateRequest {
    pub n2_sm_info: Option<Vec<u8>>,
    pub n1_sm_message: Option<Vec<u8>>,
}

} // verus!
