//! Core of a desk-control bridge: a mirror of the last-known state of a
//! motorized desk, the codec for its bus messages, and the decision logic of
//! the night-mode policy loop that lowers an unattended desk at night.
//!
//! All transport (HTTP, message bus, presence probe) lives outside this
//! library; the library works on plain bytes and values and is verified.

pub mod codec;
pub mod device;
pub mod mirror;
pub mod policy;
pub mod store;
pub mod utf8;

pub use device::DeskCommand;
pub use device::SvenCommand;
pub use device::SvenPosition;
pub use device::SvenState;
