#![verifier::loop_isolation(false)]

pub mod admin;
pub mod arith;
pub mod bounty;
pub mod campaigns;
pub mod cancel;
pub mod contract;
pub mod crowdfunding;
pub mod effects;
pub mod errors;
pub mod escrow;
pub mod event_ops;
pub mod events;
pub mod grant;
pub mod hackathon;
pub mod idempotency;
pub mod laws;
pub mod project_funding;
pub mod project_laws;
pub mod project_ops;
pub mod project_votes;
pub mod projects;
pub mod reads;
pub mod storage;
pub mod types;
pub mod whitelist;
pub mod winners;
