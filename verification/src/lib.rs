//! Control logic for a dual-channel bench power supply.

pub mod app;
pub mod bus;
pub mod converter;
pub mod event;
pub mod layout;
pub mod measure;
pub mod power;
pub mod precision;
