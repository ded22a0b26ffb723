//! Host/guest call bridge for sandboxed policy modules.
//!
//! A trusted host calls procedures exported by an untrusted guest module
//! that lives in its own linear memory. Values cross the boundary in a
//! canonical binary encoding, inside buffers whose ownership moves from
//! one side to the other exactly at the call and return boundaries.
//!
//! - [`codec`]: the value model and its encoding, with the round-trip and
//!   canonical-decoding laws.
//! - [`memory`]: bounds-checked access to guest memory and the packed
//!   `(size, address)` return word.
//! - [`registry`]: procedure descriptors, the shapes of their argument and
//!   result buffers.
//! - [`frame`]: filling and reading a call's argument and result buffers,
//!   and writing mutable parameters back.
//! - [`exports`]: checking an instance's exports before any call.
//! - [`host`]: the host client, one step per boundary crossing, with the
//!   instance lifecycle `Uninitialized -> Configured -> Faulted`.
//! - [`guest`]: the guest's configuration slot and procedure dispatch.
//! - [`message`]: application values carried as payloads.
//! - [`error`]: the error taxonomy.

pub mod codec;
pub mod error;
pub mod exports;
pub mod frame;
pub mod guest;
pub mod host;
pub mod memory;
pub mod message;
pub mod registry;
