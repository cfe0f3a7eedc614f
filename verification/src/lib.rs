//! Bounded mechanisms for an application/presentation boundary: an ordered
//! control queue, revisioned state publication, generation-checked immutable
//! resources, latest-value telemetry and a single-producer ring buffer, plus
//! the host-side context behind the C table, a synthetic backend that
//! exercises them, and the dependency-lock rules of the developer tool.
//!
//! Every mechanism here is a plain single-owner value: mutation goes through
//! `&mut self`, and sharing between threads is the embedding program's job.

pub mod abi;
pub mod backend;
pub mod bytes;
pub mod checkout;
pub mod cli;
pub mod context;
pub mod control;
pub mod deps;
pub mod doctor;
pub mod error;
pub mod gate;
pub mod hooks;
pub mod repository;
pub mod resource;
pub mod slots;
pub mod state;
pub mod stream;
pub mod synthetic;
pub mod telemetry;
pub mod text;
pub mod wire;
pub mod wake;

pub use error::{Error, Revision, StreamError};
pub use wake::WakeSignal;
pub use control::ControlQueue;
pub use state::{StatePublication, StatePublisher};
pub use error::ResourceHandle;
pub use resource::{ResourceRegistry, ResourceView};
pub use telemetry::LatestTelemetry;
pub use stream::SpscStream;
