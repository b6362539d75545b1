//! Guilds: the full gateway payload and the trimmed form the cache stores.
use vstd::prelude::*;

use super::channel::{channel_eq, GuildChannel};
use super::channel::copy_channels;
use super::emoji::{copy_emojis, emoji_payload_eq, Emoji};
use super::member::{copy_members, member_payload_eq, Member};
use super::role::{copy_roles, role_eq, Role};
use super::{opt_str_clone, opt_str_view};

verus! {

/// A full guild payload: the guild's own attributes together with the
/// authoritative lists of its channels, emojis, members and roles.
#[derive(Debug)]
pub struct Guild {
    pub id: u64,
    pub channels: Vec<GuildChannel>,
    pub emojis: Vec<Emoji>,
    pub icon: Option<String>,
    pub max_members: Option<u64>,
    pub member_count: Option<u64>,
    pub members: Vec<Member>,
    pub name: String,
    pub owner_id: u64,
    pub permissions: Option<u64>,
    pub roles: Vec<Role>,
    pub system_channel_id: Option<u64>,
    pub unavailable: bool,
}

/// Semantic equality of guild payloads: the scalar attributes and, entry by
/// entry, the four entity lists.
pub open spec fn guild_payload_eq(a: Guild, b: Guild) -> bool {
    &&& a.id == b.id
    &&& a.channels@.len() == b.channels@.len()
    &&& forall|i: int|
        0 <= i < a.channels@.len() ==> channel_eq(#[trigger] a.channels@[i], b.channels@[i])
    &&& a.emojis@.len() == b.emojis@.len()
    &&& forall|i: int|
        0 <= i < a.emojis@.len() ==> emoji_payload_eq(#[trigger] a.emojis@[i], b.emojis@[i])
    &&& opt_str_view(a.icon) == opt_str_view(b.icon)
    &&& a.max_members == b.max_members
    &&& a.member_count == b.member_count
    &&& a.members@.len() == b.members@.len()
    &&& forall|i: int|
        0 <= i < a.members@.len() ==> member_payload_eq(#[trigger] a.members@[i], b.members@[i])
    &&& a.name@ == b.name@
    &&& a.owner_id == b.owner_id
    &&& a.permissions == b.permissions
    &&& a.roles@.len() == b.roles@.len()
    &&& forall|i: int| 0 <= i < a.roles@.len() ==> role_eq(#[trigger] a.roles@[i], b.roles@[i])
    &&& a.system_channel_id == b.system_channel_id
    &&& a.unavailable == b.unavailable
}

impl Clone for Guild {
    fn clone(&self) -> (r: Guild)
        ensures
            guild_payload_eq(r, *self),
    {
        Guild {
            id: self.id,
            channels: copy_channels(&self.channels),
            emojis: copy_emojis(&self.emojis),
            icon: opt_str_clone(&self.icon),
            max_members: self.max_members,
            member_count: self.member_count,
            members: copy_members(&self.members),
            name: self.name.clone(),
            owner_id: self.owner_id,
            permissions: self.permissions,
            roles: copy_roles(&self.roles),
            system_channel_id: self.system_channel_id,
            unavailable: self.unavailable,
        }
    }
}

/// A guild as the cache stores it: the scalar attributes; the owned entity
/// lists live in their own indices.
#[derive(Debug)]
pub struct CachedGuild {
    pub id: u64,
    pub icon: Option<String>,
    pub max_members: Option<u64>,
    pub member_count: Option<u64>,
    pub name: String,
    pub owner_id: u64,
    pub permissions: Option<u64>,
    pub system_channel_id: Option<u64>,
    pub unavailable: bool,
}

/// Semantic equality of stored guilds.
pub open spec fn cached_guild_eq(a: CachedGuild, b: CachedGuild) -> bool {
    &&& a.id == b.id
    &&& opt_str_view(a.icon) == opt_str_view(b.icon)
    &&& a.max_members == b.max_members
    &&& a.member_count == b.member_count
    &&& a.name@ == b.name@
    &&& a.owner_id == b.owner_id
    &&& a.permissions == b.permissions
    &&& a.system_channel_id == b.system_channel_id
    &&& a.unavailable == b.unavailable
}

/// The stored form of a guild payload.
pub open spec fn cached_of_guild(g: Guild) -> CachedGuild {
    CachedGuild {
        id: g.id,
        icon: g.icon,
        max_members: g.max_members,
        member_count: g.member_count,
        name: g.name,
        owner_id: g.owner_id,
        permissions: g.permissions,
        system_channel_id: g.system_channel_id,
        unavailable: g.unavailable,
    }
}

impl Clone for CachedGuild {
    fn clone(&self) -> (r: CachedGuild)
        ensures
            cached_guild_eq(r, *self),
    {
        CachedGuild {
            id: self.id,
            icon: opt_str_clone(&self.icon),
            max_members: self.max_members,
            member_count: self.member_count,
            name: self.name.clone(),
            owner_id: self.owner_id,
            permissions: self.permissions,
            system_channel_id: self.system_channel_id,
            unavailable: self.unavailable,
        }
    }
}

} // verus!
