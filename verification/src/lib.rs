//! Domain model for a ham-radio chat bot: frequencies, modulation modes,
//! band allocations, solar band-condition reports, and POTA activation
//! spots, together with the pure decision logic of the two chat commands.

pub mod band;
pub mod chars;
pub mod errors;
pub mod feed;
pub mod freq;
pub mod mode;
pub mod numfmt;
pub mod router;
pub mod solar;
pub mod timestamp;
