use vstd::prelude::*;

use crate::control::ControlQueue;
use crate::error::{
    Error, ResourceHandle, DEFAULT_MAX_CONTROL_MESSAGE_BYTES, DEFAULT_MAX_RESOURCES,
    DEFAULT_MAX_RESOURCE_BYTES, DEFAULT_MAX_STATE_BYTES, DEFAULT_TELEMETRY_WIDTH,
};
use crate::resource::{lookup, ResourceRegistry, ResourceView, SlotView};
use crate::state::{StatePublication, StatePublisher};
use crate::telemetry::LatestTelemetry;

verus! {

/// The only ABI table version implemented.
pub const CALIBER_ABI_VERSION_1: u32 = 1;

/// Default bound for command packets.
pub const CALIBER_DEFAULT_MAX_COMMAND_BYTES: usize = 65536;

/// Default bound for state publications.
pub const CALIBER_DEFAULT_MAX_PUBLICATION_BYTES: usize = 1048576;

/// Default bound for immutable resources.
pub const CALIBER_DEFAULT_MAX_RESOURCE_BYTES: usize = 67108864;

/// Default width of one telemetry payload.
pub const CALIBER_DEFAULT_TELEMETRY_WIDTH: usize = 8;

/// Default bound on queued commands.
pub const CALIBER_DEFAULT_MAX_PENDING_COMMANDS: usize = 256;

/// Hard upper bound for a configured command packet.
pub const CALIBER_HARD_MAX_COMMAND_BYTES: usize = 16777216;

/// Hard upper bound for one state publication.
pub const CALIBER_HARD_MAX_PUBLICATION_BYTES: usize = 16777216;

/// Hard upper bound for one immutable resource.
pub const CALIBER_HARD_MAX_RESOURCE_BYTES: usize = 268435456;

/// Hard upper bound for resource slots.
pub const CALIBER_HARD_MAX_RESOURCES: usize = 65536;

/// Hard upper bound for pending commands.
pub const CALIBER_HARD_MAX_PENDING_COMMANDS: usize = 16384;

/// Hard upper bound for a fixed-width telemetry sample.
pub const CALIBER_HARD_MAX_TELEMETRY_WIDTH: usize = 4096;

/// A result code for C callers; [`CaliberStatus::code`] gives its fixed value.
#[derive(Clone, Copy, Debug, Eq, PartialEq, Structural)]
pub enum CaliberStatus {
    Success,
    InvalidArgument,
    InvalidHandle,
    BufferTooSmall,
    LimitExceeded,
    NotFound,
    Stale,
    Unavailable,
    QueueFull,
    UnsupportedVersion,
    Internal,
    Stopped,
}

/// The fixed ABI value of each status.
pub open spec fn status_code(s: CaliberStatus) -> i32 {
    match s {
        CaliberStatus::Success => 0,
        CaliberStatus::InvalidArgument => 1,
        CaliberStatus::InvalidHandle => 2,
        CaliberStatus::BufferTooSmall => 3,
        CaliberStatus::LimitExceeded => 4,
        CaliberStatus::NotFound => 5,
        CaliberStatus::Stale => 6,
        CaliberStatus::Unavailable => 7,
        CaliberStatus::QueueFull => 8,
        CaliberStatus::UnsupportedVersion => 9,
        CaliberStatus::Internal => 10,
        CaliberStatus::Stopped => 11,
    }
}

impl CaliberStatus {
    /// The status's fixed ABI value.
    pub fn code(&self) -> (c: i32)
        ensures
            c == status_code(*self),
    {
        match self {
            CaliberStatus::Success => 0,
            CaliberStatus::InvalidArgument => 1,
            CaliberStatus::InvalidHandle => 2,
            CaliberStatus::BufferTooSmall => 3,
            CaliberStatus::LimitExceeded => 4,
            CaliberStatus::NotFound => 5,
            CaliberStatus::Stale => 6,
            CaliberStatus::Unavailable => 7,
            CaliberStatus::QueueFull => 8,
            CaliberStatus::UnsupportedVersion => 9,
            CaliberStatus::Internal => 10,
            CaliberStatus::Stopped => 11,
        }
    }
}

/// Caller-provided context limits. A zero limit selects its default.
#[derive(Clone, Copy, Debug)]
pub struct CaliberContextConfig {
    pub struct_size: u32,
    pub max_command_bytes: usize,
    pub max_publication_bytes: usize,
    pub max_resource_bytes: usize,
    pub max_resources: usize,
    pub telemetry_width: usize,
    pub max_pending_commands: usize,
}

impl Default for CaliberContextConfig {
    fn default() -> (c: Self)
        ensures
            c.max_command_bytes == CALIBER_DEFAULT_MAX_COMMAND_BYTES,
            c.max_publication_bytes == CALIBER_DEFAULT_MAX_PUBLICATION_BYTES,
            c.max_resource_bytes == CALIBER_DEFAULT_MAX_RESOURCE_BYTES,
            c.max_resources == DEFAULT_MAX_RESOURCES,
            c.telemetry_width == CALIBER_DEFAULT_TELEMETRY_WIDTH,
            c.max_pending_commands == CALIBER_DEFAULT_MAX_PENDING_COMMANDS,
    {
        CaliberContextConfig {
            struct_size: core::mem::size_of::<CaliberContextConfig>() as u32,
            max_command_bytes: CALIBER_DEFAULT_MAX_COMMAND_BYTES,
            max_publication_bytes: CALIBER_DEFAULT_MAX_PUBLICATION_BYTES,
            max_resource_bytes: CALIBER_DEFAULT_MAX_RESOURCE_BYTES,
            max_resources: DEFAULT_MAX_RESOURCES,
            telemetry_width: CALIBER_DEFAULT_TELEMETRY_WIDTH,
            max_pending_commands: CALIBER_DEFAULT_MAX_PENDING_COMMANDS,
        }
    }
}

/// Latest-value telemetry metadata.
#[derive(Clone, Copy, Debug, Default, PartialEq, Eq)]
pub struct CaliberTelemetryInfo {
    pub sequence: u64,
    pub schema: u32,
    pub reserved: u32,
    pub value_count: usize,
    pub value_size: usize,
}

/// The limits a context enforces.
#[derive(Clone, Copy, Debug, PartialEq, Eq, Structural)]
pub struct Limits {
    pub command_bytes: usize,
    pub publication_bytes: usize,
    pub resource_bytes: usize,
    pub max_resources: usize,
    pub telemetry_width: usize,
    pub pending_commands: usize,
}

/// `value`, or `default` when `value` is zero.
pub open spec fn spec_default_or(value: usize, default: usize) -> usize {
    if value == 0 {
        default
    } else {
        value
    }
}

/// Returns `value`, or `default` when `value` is zero.
pub fn default_or(value: usize, default: usize) -> (r: usize)
    ensures
        r == spec_default_or(value, default),
{
    if value == 0 {
        default
    } else {
        value
    }
}

/// The limits a configuration selects, each zero field replaced by its
/// default.
pub open spec fn configured_limits(config: CaliberContextConfig) -> Limits {
    Limits {
        command_bytes: spec_default_or(config.max_command_bytes, CALIBER_DEFAULT_MAX_COMMAND_BYTES),
        publication_bytes: spec_default_or(
            config.max_publication_bytes,
            CALIBER_DEFAULT_MAX_PUBLICATION_BYTES,
        ),
        resource_bytes: spec_default_or(config.max_resource_bytes, CALIBER_DEFAULT_MAX_RESOURCE_BYTES),
        max_resources: spec_default_or(config.max_resources, DEFAULT_MAX_RESOURCES),
        telemetry_width: spec_default_or(config.telemetry_width, CALIBER_DEFAULT_TELEMETRY_WIDTH),
        pending_commands: spec_default_or(
            config.max_pending_commands,
            CALIBER_DEFAULT_MAX_PENDING_COMMANDS,
        ),
    }
}

/// Whether every limit is within its hard upper bound.
pub open spec fn within_hard_limits(l: Limits) -> bool {
    &&& l.command_bytes <= CALIBER_HARD_MAX_COMMAND_BYTES
    &&& l.publication_bytes <= CALIBER_HARD_MAX_PUBLICATION_BYTES
    &&& l.resource_bytes <= CALIBER_HARD_MAX_RESOURCE_BYTES
    &&& l.max_resources <= CALIBER_HARD_MAX_RESOURCES
    &&& l.telemetry_width <= CALIBER_HARD_MAX_TELEMETRY_WIDTH
    &&& l.pending_commands <= CALIBER_HARD_MAX_PENDING_COMMANDS
}

/// Whether every limit is non-zero.
pub open spec fn nonzero_limits(l: Limits) -> bool {
    &&& l.command_bytes > 0
    &&& l.publication_bytes > 0
    &&& l.resource_bytes > 0
    &&& l.max_resources > 0
    &&& l.telemetry_width > 0
    &&& l.pending_commands > 0
}

impl Limits {
    /// Derives the limits from a configuration: zero fields take their
    /// defaults, and a limit above its hard bound is refused.
    pub fn from_config(config: CaliberContextConfig) -> (r: Result<Limits, CaliberStatus>)
        ensures
            within_hard_limits(configured_limits(config)) ==> r == Ok::<Limits, CaliberStatus>(
                configured_limits(config),
            ),
            !within_hard_limits(configured_limits(config)) ==> r == Err::<Limits, CaliberStatus>(
                CaliberStatus::LimitExceeded,
            ),
            r matches Ok(l) ==> nonzero_limits(l),
    {
        let limits = Limits {
            command_bytes: default_or(config.max_command_bytes, CALIBER_DEFAULT_MAX_COMMAND_BYTES),
            publication_bytes: default_or(
                config.max_publication_bytes,
                CALIBER_DEFAULT_MAX_PUBLICATION_BYTES,
            ),
            resource_bytes: default_or(config.max_resource_bytes, CALIBER_DEFAULT_MAX_RESOURCE_BYTES),
            max_resources: default_or(config.max_resources, DEFAULT_MAX_RESOURCES),
            telemetry_width: default_or(config.telemetry_width, CALIBER_DEFAULT_TELEMETRY_WIDTH),
            pending_commands: default_or(
                config.max_pending_commands,
                CALIBER_DEFAULT_MAX_PENDING_COMMANDS,
            ),
        };
        if limits.command_bytes == 0 || limits.publication_bytes == 0 || limits.resource_bytes == 0
            || limits.max_resources == 0 || limits.telemetry_width == 0
            || limits.pending_commands == 0 {
            return Err(CaliberStatus::InvalidArgument);
        }
        if limits.command_bytes > CALIBER_HARD_MAX_COMMAND_BYTES || limits.publication_bytes
            > CALIBER_HARD_MAX_PUBLICATION_BYTES || limits.resource_bytes
            > CALIBER_HARD_MAX_RESOURCE_BYTES || limits.max_resources > CALIBER_HARD_MAX_RESOURCES
            || limits.telemetry_width > CALIBER_HARD_MAX_TELEMETRY_WIDTH || limits.pending_commands
            > CALIBER_HARD_MAX_PENDING_COMMANDS {
            return Err(CaliberStatus::LimitExceeded);
        }
        Ok(limits)
    }
}

/// The status a core error is reported as.
pub open spec fn spec_map_core_error(error: Error) -> CaliberStatus {
    match error {
        Error::TooLarge { .. } => CaliberStatus::LimitExceeded,
        Error::Full { .. } => CaliberStatus::QueueFull,
        Error::TelemetryBusy => CaliberStatus::QueueFull,
        Error::StaleResource(_) => CaliberStatus::Stale,
        Error::UnknownResource(_) => CaliberStatus::NotFound,
        Error::NoTelemetry => CaliberStatus::Unavailable,
        Error::WrongSize { .. } => CaliberStatus::InvalidArgument,
        Error::InvalidLimit { .. } => CaliberStatus::InvalidArgument,
        Error::RevisionExhausted => CaliberStatus::InvalidArgument,
        Error::InvalidSchemaVersion => CaliberStatus::InvalidArgument,
        Error::AllocationFailed { .. } => CaliberStatus::Internal,
    }
}

/// Maps a core error to its status.
pub fn map_core_error(error: Error) -> (s: CaliberStatus)
    ensures
        s == spec_map_core_error(error),
{
    match error {
        Error::TooLarge { .. } => CaliberStatus::LimitExceeded,
        Error::Full { .. } | Error::TelemetryBusy => CaliberStatus::QueueFull,
        Error::StaleResource(_) => CaliberStatus::Stale,
        Error::UnknownResource(_) => CaliberStatus::NotFound,
        Error::NoTelemetry => CaliberStatus::Unavailable,
        Error::WrongSize { .. } | Error::InvalidLimit { .. } => CaliberStatus::InvalidArgument,
        Error::RevisionExhausted | Error::InvalidSchemaVersion => CaliberStatus::InvalidArgument,
        Error::AllocationFailed { .. } => CaliberStatus::Internal,
    }
}

/// How a caller's configuration is read, by the size its first field
/// advertises.
#[derive(Clone, Copy, Debug, PartialEq, Eq, Structural)]
pub enum ConfigPrefix {
    /// A zero size selects the default configuration.
    Defaults,
    /// A size that does not even cover the size field is refused.
    Invalid,
    /// The fields that the size covers are read; the others keep defaults.
    Fields,
}

/// Classifies the size a caller's configuration advertises.
pub fn config_prefix(advertised: usize) -> (r: ConfigPrefix)
    ensures
        advertised == 0 ==> r == ConfigPrefix::Defaults,
        0 < advertised < 4 ==> r == ConfigPrefix::Invalid,
        advertised >= 4 ==> r == ConfigPrefix::Fields,
{
    if advertised == 0 {
        ConfigPrefix::Defaults
    } else if advertised < 4 {
        ConfigPrefix::Invalid
    } else {
        ConfigPrefix::Fields
    }
}

/// Whether an advertised configuration size covers the whole field at
/// `offset` of `size` bytes; a field end past the address space is refused.
pub fn prefix_covers(advertised: usize, offset: usize, size: usize) -> (r: Result<bool, CaliberStatus>)
    ensures
        offset + size > usize::MAX ==> r == Err::<bool, CaliberStatus>(CaliberStatus::InvalidArgument),
        offset + size <= usize::MAX ==> r == Ok::<bool, CaliberStatus>(advertised >= offset + size),
{
    match offset.checked_add(size) {
        Some(end) => Ok(advertised >= end),
        None => Err(CaliberStatus::InvalidArgument),
    }
}

} // verus!
