use vstd::prelude::*;

verus! {

#[derive(Debug, Clone)]
pub struct NasMessageHeader {
    pub extended_protocol_discriminator: u8,
    pub security_header_type: u8,
    pub message_type: u8,
}

#[derive(Debug, Clone, Copy, PartialEq, Eq, Structural)]
pub enum NasMessageType {
    RegistrationRequest,
    RegistrationAccept,
    RegistrationReject,
    DeregistrationRequest,
    DeregistrationAccept,
    ServiceRequest,
    ServiceAccept,
    ServiceReject,
    AuthenticationRequest,
    AuthenticationResponse,
    AuthenticationReject,
    AuthenticationFailure,
    SecurityModeCommand,
    SecurityModeComplete,
    SecurityModeReject,
    IdentityRequest,
    IdentityResponse,
    PduSessionEstablishmentRequest,
    PduSessionEstablishmentAccept,
    PduSessionEstablishmentReject,
    PduSessionReleaseRequest,
    PduSessionReleaseCommand,
    PduSessionReleaseComplete,
}

/// The message type octet of each NAS message.
pub open spec fn spec_message_type_code(t: NasMessageType) -> u8 {
    match t {
        NasMessageType::RegistrationRequest => 0x41,
        NasMessageType::RegistrationAccept => 0x42,
        NasMessageType::RegistrationReject => 0x44,
        NasMessageType::DeregistrationRequest => 0x45,
        NasMessageType::DeregistrationAccept => 0x46,
        NasMessageType::ServiceRequest => 0x4c,
        NasMessageType::ServiceAccept => 0x4e,
        NasMessageType::ServiceReject => 0x4d,
        NasMessageType::AuthenticationRequest => 0x56,
        NasMessageType::AuthenticationResponse => 0x57,
        NasMessageType::AuthenticationReject => 0x58,
        NasMessageType::AuthenticationFailure => 0x59,
        NasMessageType::SecurityModeCommand => 0x5d,
        NasMessageType::SecurityModeComplete => 0x5e,
        NasMessageType::SecurityModeReject => 0x5f,
        NasMessageType::IdentityRequest => 0x5b,
        NasMessageType::IdentityResponse => 0x5c,
        NasMessageType::PduSessionEstablishmentRequest => 0xc1,
        NasMessageType::PduSessionEstablishmentAccept => 0xc2,
        NasMessageType::PduSessionEstablishmentReject => 0xc3,
        NasMessageType::PduSessionReleaseRequest => 0xd1,
        NasMessageType::PduSessionReleaseCommand => 0xd2,
        NasMessageType::PduSessionReleaseComplete => 0xd3,
    }
}

impl NasMessageType {
    pub fn code(&self) -> (r: u8)
        ensures
            r == spec_message_type_code(*self),
    {
        match self {
            NasMessageType::RegistrationRequest => 0x41,
            NasMessageType::RegistrationAccept => 0x42,
            NasMessageType::RegistrationReject => 0x44,
            NasMessageType::DeregistrationRequest => 0x45,
            NasMessageType::DeregistrationAccept => 0x46,
            NasMessageType::ServiceRequest => 0x4c,
            NasMessageType::ServiceAccept => 0x4e,
            NasMessageType::ServiceReject => 0x4d,
            NasMessageType::AuthenticationRequest => 0x56,
            NasMessageType::AuthenticationResponse => 0x57,
            NasMessageType::AuthenticationReject => 0x58,
            NasMessageType::AuthenticationFailure => 0x59,
            NasMessageType::SecurityModeCommand => 0x5d,
            NasMessageType::SecurityModeComplete => 0x5e,
            NasMessageType::SecurityModeReject => 0x5f,
            NasMessageType::IdentityRequest => 0x5b,
            NasMessageType::IdentityResponse => 0x5c,
            NasMessageType::PduSessionEstablishmentRequest => 0xc1,
            NasMessageType::PduSessionEstablishmentAccept => 0xc2,
            NasMessageType::PduSessionEstablishmentReject => 0xc3,
            NasMessageType::PduSessionReleaseRequest => 0xd1,
            NasMessageType::PduSessionReleaseCommand => 0xd2,
            NasMessageType::PduSessionReleaseComplete => 0xd3,
        }
    }
}

} // verus!
