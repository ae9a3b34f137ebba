//! A host-driven plugin runtime.
//!
//! A host application drives plugin instances through a narrow, handle-addressed
//! entry surface: construct, destroy, and a synchronous per-tick call.  This
//! crate verifies the core of that design: the instance registry that maps an
//! opaque host handle to one owned plugin instance, the execution context that
//! lets a plugin schedule asynchronous work without ever stalling the host's
//! tick, the plugin capability contract itself, and the message codec the
//! bundled plugin speaks over the message bus.
//!
//! Everything that touches the outside world (the real task runtime, network
//! transport, clocks) lives outside this crate and hands plain values in.

pub mod adapter;
pub mod codec;
pub mod commands;
pub mod context;
pub mod errors;
pub mod frames;
pub mod interface;
pub mod mqtt;
pub mod plugin;
pub mod registry;

pub use context::Context;
pub use context::Task;
pub use frames::FramesPerSecond;
pub use interface::Interface;
