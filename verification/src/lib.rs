//! Monitoring agent core: alarm evaluation state machine and the
//! check -> alarm -> action orchestration pipeline around it.

pub mod action;
pub mod alarm;
pub mod check;
pub mod config;
pub mod error;
pub mod placeholder;
pub mod state_machine;
