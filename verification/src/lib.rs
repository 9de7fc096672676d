//! Guest-side access library for a host-provided data-collection runtime.
//!
//! A sandboxed guest module has no shared-pointer access to host memory:
//! every interaction crosses an isolation boundary through a small set of
//! host functions that accept only integers.  This crate verifies the rules
//! of that boundary: the packing of buffer references and scalars into
//! 64-bit transfer words, the typed marshalling of record fields, the
//! opaque-handle lifecycle for map and event-reader resources, and the
//! error-signalling convention that stands in for exceptions.
//!
//! The host runtime itself is represented by the [`host::Host`] state model:
//! a capability passed explicitly to every operation, so that the behaviour
//! of each boundary call is pinned down by a contract over the host's state.

pub mod error;
pub mod wire;
pub mod kinds;
pub mod values;
pub mod host;
pub mod host_resources;
pub mod fields;
pub mod maps;
pub mod reader;
pub mod syscalls;
pub mod kallsyms;
pub mod params;
pub mod log;
pub mod laws;
