//! Core logic of a path-based navigator and transfer engine for the content
//! tree of a portable media device.
//!
//! The device itself is reached over a handle-based, call-heavy native
//! protocol in which every navigation step is a remote round trip.  This
//! library holds the verified part of that engine: splitting a relative path
//! into components, walking those components one device answer at a time,
//! mapping content-category identifiers, and the small decision rules that
//! surround creation, deletion and byte transfer.  The unverified shell that
//! actually speaks to the device drives these state machines and hands them
//! plain values.

pub mod device;
pub mod error;
pub mod io;
pub mod object;
pub mod path;
pub mod resolver;
pub mod utils;
