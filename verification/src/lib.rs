//! Adaptive cubemap loading and swap control.
//!
//! One logical environment texture exists in several encodings, each of
//! which needs a hardware capability. The controller in this crate decides,
//! tick by tick, which encoding to request next, follows the request until
//! the asset subsystem reports it loaded, rewrites a flat image's metadata
//! into a cube array, and hands the finished handle to every consumer slot.
//!
//! The crate performs no I/O. The caller reads the clock, queries the render
//! device, asks the asset subsystem for handles and load states, and passes
//! what it read as plain values; every decision is made, and verified, here.

pub mod binder;
pub mod controller;
pub mod formats;
pub mod select;
pub mod table;
pub mod texture;
pub mod timer;
pub mod tracker;
