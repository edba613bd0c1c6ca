use vstd::prelude::*;

verus! {

#[derive(Debug, Clone)]
pub struct AuthenticationRequest {
    pub suci: String,
    pub serving_network_name: String,
    pub resynchronization_info: Option<Vec<u8>>,
}

#[derive(Debug, Clone)]
pub struct AuthenticationResponse {
    pub auth_result: AuthResult,
    pub kseaf: Vec<u8>,
    pub supi: String,
}

#[derive(Debug, Clone)]
pub struct AuthConfirmRequest {
    pub res_star: Vec<u8>,
}

#[derive(Debug, Clone)]
pub struct AuthConfirmResponse {
    pub auth_result: AuthResult,
}

#[derive(Debug, Clone)]
pub enum AuthResult {
    Success,
    Failure,
    Ongoing,
}

} // verus!
