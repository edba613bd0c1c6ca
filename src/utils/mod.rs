pub mod encoding;
pub mod timer;
