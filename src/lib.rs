//! Client library for the TCS text protocol spoken by PreciseFlex robot controllers.

pub mod text;
pub mod commands;
pub mod codec;
pub mod enums;
pub mod error_codes;
pub mod response;
pub mod tcs_client;
pub mod pflex;
