//! CTH entropy-source library: the hardware-independent part of the
//! firmware (health tests, conditioner, DRBG, calibration record parsing,
//! gain and bias arithmetic, display and pipeline decisions), verified.
pub mod entropy;
pub mod drivers;
pub mod ui;
pub mod pipeline;
pub mod diagnostics;
