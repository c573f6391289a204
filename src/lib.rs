//! A bridge from a wireless sensor link to a wired actuator link: it admits
//! grids of pressure readings, keeps a short history of them, and turns each
//! into a fixed six-slot actuator command.
pub mod grid;
pub mod quantize;
pub mod history;
pub mod bridge;
