use vstd::prelude::*;

verus! {

#[derive(Debug, Clone)]
pub struct AccessAndMobilitySubscriptionData {
    pub gpsis: Option<Vec<String>>,
    pub subscribed_ue_ambr: Option<Ambr>,
    pub nssai: Option<Nssai>,
}

#[derive(Debug, Clone)]
pub struct Ambr {
    pub uplink: String,
    pub downlink: String,
}

#[derive(Debug, Clone)]
pub struct Nssai {
    pub default_single_nssais: Vec<Snssai>,
    pub single_nssais: Option<Vec<Snssai>>,
}

#[derive(Debug, Clone)]
pub struct Snssai {
    pub sst: u8,
    pub sd: Option<String>,
}

#[derive(Debug, Clone)]
pub struct AmfRegistrationRequest {
    pub supi: String,
    pub amf_instance_id: String,
}

} // verus!
