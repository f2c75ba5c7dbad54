//! Bridge between a local UCI chess engine subprocess and a remote analysis
//! service: capability negotiation, exclusive-access arbitration, and the
//! per-session protocol translation, with machine-checked contracts.

pub mod arbiter;
pub mod caps;
pub mod driver;
pub mod regurl;
pub mod secret;
pub mod select;
pub mod session;
pub mod text;
pub mod uci;
