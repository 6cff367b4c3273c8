//! Packets of the login, configuration and play phases, with their wire
//! encodings.
pub mod configuration;
pub mod play;
