pub mod mm;
pub mod sm;
pub mod messages;
pub mod security;
