//! Driver library for vendor-specific addressable-RGB lighting controllers
//! reached over a host SMBus/I2C bus, together with the pure protocol logic
//! (register translation, colour-frame encoding, chip classification, LED
//! topology discovery) and the command hand-off machinery that decouples an
//! effect script from the bus-writing loop.

pub mod aura_controller;
pub mod aura_error;
pub mod i2c;
pub mod protocol;
pub mod register_link;
pub mod scheduler;
pub mod text;
