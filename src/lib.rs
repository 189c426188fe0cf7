//! A warehouse financing facility: validation, authorization and the
//! pledge / paydown lifecycle, expressed as verified transitions over an
//! in-memory record store that emit the custody and fund effects to perform.

pub mod keys;
pub mod error;
pub mod state;
pub mod utils;
pub mod rate;
pub mod contract_info;
pub mod msg;
pub mod effects;
pub mod contract;
pub mod guarantees;
