pub mod nrf;
pub mod ausf;
pub mod udm;
pub mod smf;
