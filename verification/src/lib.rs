//! Pulse trains for 4-stroke engine simulation.
//!
//! One engine cycle (two crankshaft revolutions, 720 degrees) is cut into 7200
//! samples of a tenth of a degree. Each sample is a small bit field holding the
//! camshaft level, the crankshaft level and one top-dead-center marker per
//! cylinder, ready to be written to output pins.

pub mod cam;
pub mod crank;
pub mod engine;
pub mod error;
pub mod level;
pub mod table;
pub mod word;
