//! The protocol core of a brewing monitor.
//!
//! Two kinds of peripheral advertise over a short-range radio link: Tilt
//! hydrometers, whose vendor beacon carries a full reading with no
//! connection needed, and a Grainfather brewing controller, which is
//! identified by its service identifier and then driven over two
//! characteristics.  This crate holds everything between raw bytes and
//! typed values: decoding advertisements and beacons, identifying both
//! peripherals, encoding the controller's fixed-width command buffers,
//! decoding its fixed-width notification frames, reassembling frames from
//! arbitrarily chunked transport deliveries, expanding a recipe into the
//! controller's handshake sequence, and folding notifications into a
//! tracked device snapshot with derived alert states.  The radio transport
//! itself, and everything that serialises, stores or serves these values,
//! lives outside and exchanges plain values with this crate.

use vstd::prelude::*;

pub mod bluetooth;
pub mod command;
pub mod eir;
pub mod notification;
pub mod interaction;
pub mod numerals;
pub mod reassembly;
pub mod recipe;
pub mod state;
pub mod tilt;

verus! {

/// Service identifier advertised by the Grainfather brewing controller.
pub const SERVICE_ID: u128 = 0x0000cdd000001000800000805f9b34fb;

/// Identifier of the characteristic that carries notifications from the controller.
pub const CHARACTERISTIC_ID_READ: u128 = 0x0003cdd100001000800000805f9b0131;

/// Identifier of the characteristic that accepts command buffers.
pub const CHARACTERISTIC_ID_WRITE: u128 = 0x0003cdd200001000800000805f9b0131;

/// A quantity held as a whole number of hundredths.  Temperatures and
/// volumes travel on the wire as decimals with at most two fractional
/// digits, so hundredths represent them exactly.
pub type Centi = i32;

/// The sparge-progress value sent to the controller; its full meaning on
/// the controller side is not documented.
pub type SpargeProgress = u8;

/// A recipe step index as the controller counts them.
pub type StepNumber = u8;

} // verus!
