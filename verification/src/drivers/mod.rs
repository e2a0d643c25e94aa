//! Device logic of the drivers: record formats, gain and bias arithmetic,
//! and the state the write-only chips need kept. The pins and buses
//! themselves are driven by the firmware.
pub mod at24c256;
pub mod hc4067;
pub mod mcp4922;
