use vstd::prelude::*;

verus! {

#[derive(Debug, Clone)]
pub struct DeregistrationRequest {
    pub deregistration_type: DeregistrationType,
    pub ng_ksi: Option<u8>,
    pub mobile_identity: Option<MobileIdentity>,
}

#[derive(Debug, Clone)]
pub struct DeregistrationType {
    pub switch_off: bool,
    pub re_registration_required: bool,
    pub access_type: u8,
}

#[derive(Debug, Clone)]
pub enum MobileIdentity {
    Guti(String),
    Suci(String),
}

#[derive(Debug, Clone)]
pub struct DeregistrationAccept {}

} // verus!
