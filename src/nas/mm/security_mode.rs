use vstd::prelude::*;

verus! {

#[derive(Debug, Clone)]
pub struct SecurityModeCommand {
    pub selected_nas_security_algorithms: NasSecurityAlgorithms,
    pub ng_ksi: u8,
    pub replayed_ue_security_capabilities: UeSecurityCapabilities,
    pub imeisv_request: Option<u8>,
}

#[derive(Debug, Clone)]
pub struct NasSecurityAlgorithms {
    pub type_of_integrity_protection_algorithm: u8,
    pub type_of_ciphering_algorithm: u8,
}

#[derive(Debug, Clone)]
pub struct UeSecurityCapabilities {
    pub nr_integrity_protection_algorithms: Vec<u8>,
    pub nr_encryption_algorithms: Vec<u8>,
}

#[derive(Debug, Clone)]
pub struct SecurityModeComplete {
    pub imeisv: Option<String>,
    pub nas_message_container: Option<Vec<u8>>,
}

#[derive(Debug, Clone)]
pub struct SecurityModeReject {
    pub cause: u8,
}

} // verus!
