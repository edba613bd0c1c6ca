pub mod tables;
pub mod ran_context;
pub mod ue_context;
