//! Core of a smart-card-to-message-bus bridge.
//!
//! The library holds the decision logic of the bridge: the ATR protocol
//! parser, the registration decision over the session registry, the card
//! session recovery rules, the per-card bridge state machine, the reader
//! monitor bookkeeping, and the configuration snapshot. Hardware access and
//! network transport are performed by the surrounding application, which
//! feeds their outcomes into these functions as plain values.

pub mod hexcodec;
pub mod atr;
pub mod strutil;
pub mod config;
pub mod registry;
pub mod session;
pub mod events;
pub mod bridge;
pub mod monitor;
