//! Entropy pipeline: raw nibbles -> health tests -> conditioner -> (RAW | DRBG).
pub mod conditioner;
pub mod drbg;
pub mod health;
pub mod mac;
