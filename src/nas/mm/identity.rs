use vstd::prelude::*;

verus! {

#[derive(Debug, Clone)]
pub struct IdentityRequest {
    pub identity_type: IdentityType,
}

#[derive(Debug, Clone)]
pub enum IdentityType {
    Suci,
    Guti,
    Imei,
    STmsi,
    Imeisv,
}

#[derive(Debug, Clone)]
pub struct IdentityResponse {
    pub mobile_identity: MobileIdentity,
}

#[derive(Debug, Clone)]
pub enum MobileIdentity {
    Suci(String),
    Guti(String),
    Imei(String),
    STmsi(u32),
    Imeisv(String),
}

} // verus!
