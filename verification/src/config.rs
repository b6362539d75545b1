//! Cache configuration: the per-channel message ring capacity and the set of
//! resource types the cache is interested in.
use vstd::prelude::*;

verus! {

/// A resource type an event may concern. Reducers consult the configured
/// interest set before mutating the store for a resource type.
#[derive(Clone, Copy, Debug, PartialEq, Eq, Structural)]
pub enum ResourceType {
    Channel,
    Emoji,
    Guild,
    Member,
    Message,
    Role,
    User,
    UserCurrent,
}

/// The interest-mask bit of a resource type.
pub open spec fn spec_resource_bit(r: ResourceType) -> u64 {
    match r {
        ResourceType::Channel => 0x1,
        ResourceType::Emoji => 0x2,
        ResourceType::Guild => 0x4,
        ResourceType::Member => 0x8,
        ResourceType::Message => 0x10,
        ResourceType::Role => 0x20,
        ResourceType::User => 0x40,
        ResourceType::UserCurrent => 0x80,
    }
}

/// Computes the interest-mask bit of a resource type.
#[verifier::when_used_as_spec(spec_resource_bit)]
pub fn resource_bit(r: ResourceType) -> (b: u64)
    ensures
        b == spec_resource_bit(r),
{
    match r {
        ResourceType::Channel => 0x1,
        ResourceType::Emoji => 0x2,
        ResourceType::Guild => 0x4,
        ResourceType::Member => 0x8,
        ResourceType::Message => 0x10,
        ResourceType::Role => 0x20,
        ResourceType::User => 0x40,
        ResourceType::UserCurrent => 0x80,
    }
}

/// The mask with every resource type set.
pub const ALL_RESOURCE_TYPES: u64 = 0xff;

/// The default capacity of each channel's message ring.
pub const DEFAULT_MESSAGE_CACHE_SIZE: usize = 100;

/// The configuration a cache starts from: default ring capacity, every
/// interest set.
pub open spec fn default_config() -> Config {
    Config {
        message_cache_size: DEFAULT_MESSAGE_CACHE_SIZE,
        resource_types: ALL_RESOURCE_TYPES,
    }
}

/// Configuration of a cache instance, fixed at construction.
#[derive(Clone, Copy, Debug, PartialEq, Eq, Structural)]
pub struct Config {
    /// Most-recent messages kept per channel.
    pub message_cache_size: usize,
    /// Interest mask: a reducer only touches the store for a resource type
    /// whose bit is set.
    pub resource_types: u64,
}

/// Whether the configuration asks for a resource type to be cached.
pub open spec fn spec_wants(c: Config, r: ResourceType) -> bool {
    c.resource_types & spec_resource_bit(r) != 0
}

impl Config {
    /// The configuration with default ring capacity and every interest set.
    pub fn new() -> (r: Config)
        ensures
            r == default_config(),
    {
        Config {
            message_cache_size: DEFAULT_MESSAGE_CACHE_SIZE,
            resource_types: ALL_RESOURCE_TYPES,
        }
    }

    /// Whether this configuration asks for a resource type to be cached.
    pub fn wants(&self, r: ResourceType) -> (b: bool)
        ensures
            b == spec_wants(*self, r),
    {
        self.resource_types & resource_bit(r) != 0
    }
}

impl Default for Config {
    fn default() -> (r: Config)
        ensures
            r == default_config(),
    {
        Config::new()
    }
}

} // verus!
