use vstd::prelude::*;

use crate::text::{decimal, u64_text, usize_text};

verus! {

/// A monotonically increasing publication or resource generation number.
pub type Revision = u64;

/// Default number of queued control messages.
pub const DEFAULT_CONTROL_CAPACITY: usize = 256;

/// Default maximum size of one semantic control payload.
pub const DEFAULT_MAX_CONTROL_MESSAGE_BYTES: usize = 65536;

/// Default maximum state publication size.
pub const DEFAULT_MAX_STATE_BYTES: usize = 1048576;

/// Default maximum immutable resource size.
pub const DEFAULT_MAX_RESOURCE_BYTES: usize = 67108864;

/// Default maximum number of simultaneously retained registry entries.
pub const DEFAULT_MAX_RESOURCES: usize = 4096;

/// Default number of values in a telemetry sample.
pub const DEFAULT_TELEMETRY_WIDTH: usize = 8;

/// Default number of values a stream can retain.
pub const DEFAULT_STREAM_CAPACITY: usize = 1024;

/// Opaque identity for an immutable resource registry entry.
#[derive(Clone, Copy, Debug, PartialEq, Eq, Hash, Structural)]
pub struct ResourceHandle {
    /// The registry slot.
    pub id: u64,
    /// The generation of the slot that this handle names.
    pub generation: Revision,
}

/// Errors returned by the bounded mechanisms.
#[derive(Debug, Clone, Copy, PartialEq, Eq)]
pub enum Error {
    /// A requested capacity or width was zero or exceeded the safe bound.
    InvalidLimit { name: &'static str },
    /// A payload exceeded the configured bound.
    TooLarge { kind: &'static str, actual: usize, maximum: usize },
    /// A bounded queue or registry has no available capacity.
    Full { kind: &'static str },
    /// A resource handle refers to a released or replaced generation.
    StaleResource(ResourceHandle),
    /// A resource handle refers to no known slot.
    UnknownResource(ResourceHandle),
    /// The caller supplied a buffer with the wrong fixed size.
    WrongSize { kind: &'static str, actual: usize, expected: usize },
    /// A state publication omitted its required non-zero schema version.
    InvalidSchemaVersion,
    /// No telemetry sample has been published yet.
    NoTelemetry,
    /// Another telemetry writer is currently publishing.
    TelemetryBusy,
    /// A revision would wrap and cannot remain monotonic.
    RevisionExhausted,
    /// A bounded allocation could not be reserved.
    AllocationFailed { kind: &'static str },
}

/// Errors specific to a bounded single-producer/single-consumer stream.
#[derive(Debug, Clone, Copy, PartialEq, Eq, Structural)]
pub enum StreamError {
    /// The stream has no free slot; the value was not accepted.
    Full,
    /// The stream capacity is invalid.
    InvalidCapacity,
}

/// The debug text of a resource handle, as its derived `Debug` writes it:
/// `ResourceHandle { id: 1, generation: 2 }`.
pub open spec fn handle_debug_text(handle: ResourceHandle) -> Seq<char> {
    "ResourceHandle { id: "@ + decimal(handle.id as nat) + ", generation: "@ + decimal(
        handle.generation as nat,
    ) + " }"@
}

/// Returns the debug text of `handle`.
fn handle_text(handle: ResourceHandle) -> (r: String)
    ensures
        r@ == handle_debug_text(handle),
{
    let mut text = String::from_str("ResourceHandle { id: ");
    text.append(u64_text(handle.id).as_str());
    text.append(", generation: ");
    text.append(u64_text(handle.generation).as_str());
    text.append(" }");
    text
}

/// The description of a mechanism error.
pub open spec fn error_text(e: Error) -> Seq<char> {
    match e {
        Error::InvalidLimit { name } => "invalid limit: "@ + name@,
        Error::TooLarge { kind, actual, maximum } => kind@ + " is "@ + decimal(actual as nat)
            + " bytes, maximum is "@ + decimal(maximum as nat),
        Error::Full { kind } => kind@ + " is full"@,
        Error::StaleResource(handle) => "stale resource handle "@ + handle_debug_text(handle),
        Error::UnknownResource(handle) => "unknown resource handle "@ + handle_debug_text(handle),
        Error::WrongSize { kind, actual, expected } => kind@ + " has size "@ + decimal(actual as nat)
            + ", expected "@ + decimal(expected as nat),
        Error::InvalidSchemaVersion => "state schema version must be non-zero"@,
        Error::NoTelemetry => "no telemetry value has been published"@,
        Error::TelemetryBusy => "telemetry is being published"@,
        Error::RevisionExhausted => "revision counter exhausted"@,
        Error::AllocationFailed { kind } => "allocation failed: "@ + kind@,
    }
}

/// The description of a stream error.
pub open spec fn stream_error_text(e: StreamError) -> Seq<char> {
    match e {
        StreamError::Full => "SPSC stream is full"@,
        StreamError::InvalidCapacity => "SPSC stream capacity must be non-zero"@,
    }
}

/// `first` followed by `second`.
fn joined(first: &str, second: &str) -> (r: String)
    ensures
        r@ == first@ + second@,
{
    let mut text = String::from_str(first);
    text.append(second);
    text
}

/// `kind`, `middle`, the decimal of `a`, `last` and the decimal of `b`.
fn sized_text(kind: &str, middle: &str, a: usize, last: &str, b: usize) -> (r: String)
    ensures
        r@ == kind@ + middle@ + decimal(a as nat) + last@ + decimal(b as nat),
{
    let mut text = String::from_str(kind);
    text.append(middle);
    text.append(usize_text(a).as_str());
    text.append(last);
    text.append(usize_text(b).as_str());
    text
}

impl Error {
    /// A human-readable description of the error.
    pub fn message(&self) -> (m: String)
        ensures
            m@ == error_text(*self),
    {
        match self {
            Error::InvalidLimit { name } => joined("invalid limit: ", name),
            Error::TooLarge { kind, actual, maximum } => sized_text(
                kind,
                " is ",
                *actual,
                " bytes, maximum is ",
                *maximum,
            ),
            Error::Full { kind } => joined(kind, " is full"),
            Error::StaleResource(handle) => joined(
                "stale resource handle ",
                handle_text(*handle).as_str(),
            ),
            Error::UnknownResource(handle) => joined(
                "unknown resource handle ",
                handle_text(*handle).as_str(),
            ),
            Error::WrongSize { kind, actual, expected } => sized_text(
                kind,
                " has size ",
                *actual,
                ", expected ",
                *expected,
            ),
            Error::InvalidSchemaVersion => String::from_str("state schema version must be non-zero"),
            Error::NoTelemetry => String::from_str("no telemetry value has been published"),
            Error::TelemetryBusy => String::from_str("telemetry is being published"),
            Error::RevisionExhausted => String::from_str("revision counter exhausted"),
            Error::AllocationFailed { kind } => joined("allocation failed: ", kind),
        }
    }
}

impl StreamError {
    /// A human-readable description of the error.
    pub fn message(&self) -> (m: String)
        ensures
            m@ == stream_error_text(*self),
    {
        match self {
            StreamError::Full => String::from_str("SPSC stream is full"),
            StreamError::InvalidCapacity => String::from_str("SPSC stream capacity must be non-zero"),
        }
    }
}

} // verus!
