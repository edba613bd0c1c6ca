pub mod registration;
pub mod authentication;
pub mod security_mode;
pub mod deregistration;
pub mod service_request;
pub mod identity;
