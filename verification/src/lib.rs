//! Competitive riffing between agents, with bootstrap generations that inherit
//! what earlier generations learned, and a ternary encoding packed two bits
//! per trit.
//!
//! Surprise scores are real numbers in the surrounding program; this library
//! works on the band into which a score falls (see [`quality::SurpriseLevel`]).

pub mod label;
pub mod memory;
pub mod quality;
pub mod riff;
pub mod session;
pub mod trit;

pub use memory::RiffMemory;
pub use quality::{Quality, ResponseMode, SurpriseLevel};
pub use riff::{Riff, Round};
pub use session::{FleetRiffSession, RoundSummary, SessionMetrics};
pub use trit::{pack_16, Trit};
