//! In-process cache for chat-gateway state: guilds, channels, roles, emojis,
//! members, users and messages, kept consistent across upsert and delete
//! events, with chunked export and restore for cold-start continuity.
pub mod cache;
pub mod cold;
pub mod config;
pub mod event;
pub mod laws;
pub mod model;
pub mod stats;
pub mod update;

pub use cache::{GuildItem, InMemoryCache, InMemoryCacheBuilder};
pub use cold::{
    ColdRebootData, ColdResumePayload, RedisCacheError, RedisCacheResult, ResumeSession,
};
pub use config::{Config, ResourceType};
pub use event::{
    ChannelCreate, ChannelDelete, GuildCreate, GuildEmojisUpdate, MemberAdd, MemberRemove,
    MessageCreate, Ready, RoleCreate, RoleDelete, RoleUpdate, UnavailableGuild, UpdateCache,
    UserUpdate,
};
pub use model::is_false;
pub use stats::{CacheStats, CompactGuild, CompactUser, Metrics};
