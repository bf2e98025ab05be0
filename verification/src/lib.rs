//! Off-chain LightPool bridge.
pub mod admin;
pub mod bytes;
pub mod chain;
pub mod codec;
pub mod committee_sync;
pub mod config;
pub mod config_laws;
pub mod deposit_laws;
pub mod events;
pub mod evm;
pub mod evm_finalize;
pub mod evm_laws;
pub mod evm_request;
pub mod evm_ws;
pub mod feed_laws;
pub mod handle;
pub mod labels;
pub mod lane_laws;
pub mod lp_submit;
pub mod lp_ws;
pub mod messages;
pub mod quorum_laws;
pub mod report_laws;
pub mod route_config;
pub mod route_state;
pub mod router;
pub mod run_laws;
pub mod text;
pub mod util;
pub mod vote_laws;
pub mod votes;
pub mod withdraws;
