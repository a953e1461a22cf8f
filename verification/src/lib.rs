//! Enumeration and low-latency polling of raw human-interface input devices.
//!
//! The library resolves each attached device to a stable identity (product
//! name plus an opaque handle), keeps a registry from handle to identity, and
//! drains batches of input events, dispatching each event to the device that
//! produced it. All calls into the host OS are performed by the surrounding
//! application; this crate holds the decision logic: the two-phase sized
//! query protocol, class filtering, identity resolution, the registry, and
//! the poller state machine.

pub mod device;
pub mod devices;
pub mod enumerate;
pub mod error;
pub mod poller;
pub mod registry;
pub mod sized_query;
pub mod wide;
