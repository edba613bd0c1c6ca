use vstd::prelude::*;

verus! {

#[derive(Debug, Clone)]
pub enum NfType {
    Amf,
    Smf,
    Ausf,
    Udm,
    Pcf,
    Nrf,
}

#[derive(Debug, Clone)]
pub struct NfProfile {
    pub nf_instance_id: String,
    pub nf_type: NfType,
    pub nf_status: NfStatus,
    pub ipv4_addresses: Option<Vec<String>>,
    pub fqdn: Option<String>,
}

#[derive(Debug, Clone)]
pub enum NfStatus {
    Registered,
    Suspended,
}

} // verus!
