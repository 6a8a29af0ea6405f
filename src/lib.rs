//! A reference peer that checks whether a remote peer implements the layers of
//! a peer-to-peer protocol stack, and decides a pass/fail verdict from the
//! protocol events it observes.

pub mod criteria;
pub mod peers;
pub mod event;
pub mod orchestrator;
pub mod laws;
pub mod wire;
pub mod message;
pub mod envelope;
pub mod workspace;
pub mod report;
pub mod address;
