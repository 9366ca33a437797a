//! Driver logic of the FLASHCALW flash controller of the SAM4L.
pub mod bits;
pub mod bus;
pub mod command;
pub mod flashcalw;
pub mod fuses;
pub mod field_laws;
pub mod laws;
