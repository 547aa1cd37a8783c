//! Driver stack for a TFT panel and a resistive touch controller that share
//! one synchronous serial bus.
//!
//! The hardware is reached through the traits of [`hal`]. Everything above
//! them is verified: bus arbitration ([`display::Display`]), command framing
//! and frame streaming ([`display::ili9486`]), touch sampling
//! ([`display::xpt2046`]) and the packing of pixels ([`display::scanline`]).
//!
//! What the drivers ask of the hardware is kept in a record, one event for
//! each request. The contracts of the drivers say which events a call adds,
//! in which order, and [`journal`] holds the rules of the shared bus that
//! every such record obeys: never two devices selected, no new setup of the
//! bus while a device is selected, never two transfers in flight, no
//! release of a device in mid-transfer.

pub mod display;
pub mod hal;
pub mod journal;
pub mod spi;
