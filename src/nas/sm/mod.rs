pub mod pdu_session;
