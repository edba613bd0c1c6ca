//! NGAP signalling core of an Access and Mobility Management Function:
//! aligned-PER primitives, the NGAP PDU codec, the RAN / UE context store and
//! the NG Setup and Initial UE Message procedure handlers.

pub mod error;
pub mod text;
pub mod bytes_buf;
pub mod ngap;
pub mod utils;
pub mod context;
pub mod config;
pub mod nas;
pub mod sbi;
pub mod nf_client;
pub mod security;
