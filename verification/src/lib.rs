//! The rules of `oxllm`, a gateway that routes requests to language model providers.
//!
//! The gateway builds its state from a configuration ([`config`], [`state`]) and replaces it while
//! it runs ([`reload`]). It listens where it is told to ([`listen`]), knows its routes
//! ([`routing`]) and who may use them ([`access`]), and marks every response ([`request_id`]). Its
//! own replies are JSON ([`reply`], [`json`], [`headers`]).
//!
//! The commands around it find the configuration file ([`paths`]) and the running process
//! ([`pid`]), ask the gateway for something ([`client`]) and show what it says ([`status`],
//! [`cli`], [`text`]). Which items such a table picks is told by their [`places`].

pub mod access;
pub mod cli;
pub mod client;
pub mod config;
pub mod headers;
pub mod json;
pub mod listen;
pub mod paths;
pub mod pid;
pub mod places;
pub mod reload;
pub mod reply;
pub mod request_id;
pub mod routing;
pub mod state;
pub mod status;
pub mod text;
