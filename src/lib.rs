//! Control logic of a gain / tilt / mix tone-shaping stage.
//!
//! The sample arithmetic itself runs in floating point outside this library;
//! what is verified here is which way each channel is tilted and the order in
//! which a processing block polls its parameters and writes its samples.
pub mod channel;
pub mod driver;
pub mod schedule_laws;
