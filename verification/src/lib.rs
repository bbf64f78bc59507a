//! A verified backend library for a desktop assistant: a multi-provider LLM
//! chat relay (request building and reply extraction per provider), credential
//! and prompt persistence logic over a modelled file store, and the pure parts
//! of the filesystem and process helpers the application exposes.
pub mod chat;
pub mod fsview;
pub mod json;
pub mod store;
pub mod sysops;
pub mod textutil;
