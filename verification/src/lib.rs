//! Domain resolution service: wire-format messages, the DNS registry
//! contract's call encoding, URL resolution plans and the resolver service.

pub mod wire;
pub mod source_api;
pub mod hex_codec;
pub mod abi;
pub mod dns_contract;
pub mod cache;
pub mod resolver;
pub mod service;
pub mod dispatch;

