//! Build, flash and monitor multi-image firmware on a debug-probe target.
//!
//! The verified parts are the decisions: in which order images are built,
//! what the deployment does next, when the log-transport attach gives up,
//! what the log decoder does with each result, when the monitoring loop
//! stops, and which verdict a run gets.

pub mod channel;
pub mod chip;
pub mod decode;
pub mod deploy;
pub mod graph;
pub mod nrf53;
pub mod outcome;
pub mod session;
pub mod stm32l562;
pub mod trustzone;
