pub mod aper;
pub mod messages;
pub mod ies;
pub mod codec;
pub mod handlers;
pub mod round_trip;
