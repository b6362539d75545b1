//! Channels: guild channels, private channels and groups.
use vstd::prelude::*;

use super::{copy_ids, ids_eq, opt_str_clone, opt_str_eq, opt_str_view};

verus! {

/// The kind of a guild channel.
#[derive(Clone, Copy, Debug, PartialEq, Eq, Structural)]
pub enum ChannelKind {
    Category,
    Text,
    Voice,
}

/// A channel owned by exactly one guild. The `guild_id` may be absent in a
/// payload delivered inside a guild payload; the cache back-fills it before
/// storing the channel.
#[derive(Debug)]
pub struct GuildChannel {
    pub id: u64,
    pub guild_id: Option<u64>,
    pub kind: ChannelKind,
    pub name: String,
    pub parent_id: Option<u64>,
    pub position: i64,
}

/// Semantic equality of guild channels.
pub open spec fn channel_eq(a: GuildChannel, b: GuildChannel) -> bool {
    &&& a.id == b.id
    &&& a.guild_id == b.guild_id
    &&& a.kind == b.kind
    &&& a.name@ == b.name@
    &&& a.parent_id == b.parent_id
    &&& a.position == b.position
}

/// The channel with its guild back-reference set to the owning guild.
pub open spec fn channel_with_guild(c: GuildChannel, guild_id: u64) -> GuildChannel {
    GuildChannel {
        id: c.id,
        guild_id: Some(guild_id),
        kind: c.kind,
        name: c.name,
        parent_id: c.parent_id,
        position: c.position,
    }
}

impl PartialEq for GuildChannel {
    fn eq(&self, other: &GuildChannel) -> bool {
        self.id == other.id && self.guild_id == other.guild_id && self.kind == other.kind
            && self.name == other.name && self.parent_id == other.parent_id
            && self.position == other.position
    }
}

impl vstd::std_specs::cmp::PartialEqSpecImpl for GuildChannel {
    open spec fn obeys_eq_spec() -> bool {
        true
    }

    open spec fn eq_spec(&self, other: &GuildChannel) -> bool {
        channel_eq(*self, *other)
    }
}

impl Clone for GuildChannel {
    fn clone(&self) -> (r: GuildChannel)
        ensures
            channel_eq(r, *self),
    {
        GuildChannel {
            id: self.id,
            guild_id: self.guild_id,
            kind: self.kind,
            name: self.name.clone(),
            parent_id: self.parent_id,
            position: self.position,
        }
    }
}

/// An owned copy of a channel list, entry by entry.
pub(crate) fn copy_channels(v: &Vec<GuildChannel>) -> (r: Vec<GuildChannel>)
    ensures
        r@.len() == v@.len(),
        forall|i: int| 0 <= i < v@.len() ==> channel_eq(#[trigger] r@[i], v@[i]),
{
    let mut r: Vec<GuildChannel> = Vec::new();
    let mut i: usize = 0;
    while i < v.len()
        invariant
            i <= v.len(),
            r@.len() == i,
            forall|j: int| 0 <= j < i ==> channel_eq(#[trigger] r@[j], v@[j]),
        decreases v.len() - i,
    {
        r.push(v[i].clone());
        i = i + 1;
    }
    r
}

/// A direct-message channel. Its identity in the store is derived from its
/// first recipient, so a payload must name at least one recipient.
#[derive(Debug)]
pub struct PrivateChannel {
    pub id: u64,
    pub last_message_id: Option<u64>,
    pub recipients: Vec<u64>,
}

/// Semantic equality of private channels.
pub open spec fn private_channel_eq(a: PrivateChannel, b: PrivateChannel) -> bool {
    &&& a.id == b.id
    &&& a.last_message_id == b.last_message_id
    &&& a.recipients@ == b.recipients@
}

impl PartialEq for PrivateChannel {
    fn eq(&self, other: &PrivateChannel) -> bool {
        self.id == other.id && self.last_message_id == other.last_message_id
            && ids_eq(&self.recipients, &other.recipients)
    }
}

impl vstd::std_specs::cmp::PartialEqSpecImpl for PrivateChannel {
    open spec fn obeys_eq_spec() -> bool {
        true
    }

    open spec fn eq_spec(&self, other: &PrivateChannel) -> bool {
        private_channel_eq(*self, *other)
    }
}

impl Clone for PrivateChannel {
    fn clone(&self) -> (r: PrivateChannel)
        ensures
            private_channel_eq(r, *self),
    {
        PrivateChannel {
            id: self.id,
            last_message_id: self.last_message_id,
            recipients: copy_ids(&self.recipients),
        }
    }
}

/// A group conversation.
#[derive(Debug)]
pub struct Group {
    pub id: u64,
    pub name: Option<String>,
    pub owner_id: u64,
    pub recipients: Vec<u64>,
}

/// Semantic equality of groups.
pub open spec fn group_eq(a: Group, b: Group) -> bool {
    &&& a.id == b.id
    &&& opt_str_view(a.name) == opt_str_view(b.name)
    &&& a.owner_id == b.owner_id
    &&& a.recipients@ == b.recipients@
}

impl PartialEq for Group {
    fn eq(&self, other: &Group) -> bool {
        self.id == other.id && opt_str_eq(&self.name, &other.name)
            && self.owner_id == other.owner_id && ids_eq(&self.recipients, &other.recipients)
    }
}

impl vstd::std_specs::cmp::PartialEqSpecImpl for Group {
    open spec fn obeys_eq_spec() -> bool {
        true
    }

    open spec fn eq_spec(&self, other: &Group) -> bool {
        group_eq(*self, *other)
    }
}

impl Clone for Group {
    fn clone(&self) -> (r: Group)
        ensures
            group_eq(r, *self),
    {
        Group {
            id: self.id,
            name: opt_str_clone(&self.name),
            owner_id: self.owner_id,
            recipients: copy_ids(&self.recipients),
        }
    }
}

/// A guild text channel as it is exported to cold storage: the channel data
/// together with the identifier of the guild that owns it. Only text channels
/// are exported; the `guild_id` is always set when the store writes the
/// record, and a record without it is rejected on restore.
#[derive(Debug)]
pub struct ColdStorageTextChannel {
    pub guild_id: Option<u64>,
    pub id: u64,
    pub name: String,
    pub parent_id: Option<u64>,
    pub position: i64,
}

impl ColdStorageTextChannel {
    /// Rebuilds the stored channel; its kind is text by construction. A
    /// record that names no guild is malformed and may not be converted.
    pub fn into_channel(self) -> (r: GuildChannel)
        requires
            self.guild_id is Some,
        ensures
            r == (GuildChannel {
                id: self.id,
                guild_id: self.guild_id,
                kind: ChannelKind::Text,
                name: self.name,
                parent_id: self.parent_id,
                position: self.position,
            }),
    {
        let ColdStorageTextChannel { guild_id, id, name, parent_id, position } = self;
        GuildChannel { id, guild_id, kind: ChannelKind::Text, name, parent_id, position }
    }
}

/// The stored item a cold-storage channel restores to; meaningful when its
/// `guild_id` is present.
pub open spec fn channel_item_of_cold(c: ColdStorageTextChannel) -> crate::cache::GuildItem<
    GuildChannel,
> {
    crate::cache::GuildItem {
        data: GuildChannel {
            id: c.id,
            guild_id: c.guild_id,
            kind: ChannelKind::Text,
            name: c.name,
            parent_id: c.parent_id,
            position: c.position,
        },
        guild_id: c.guild_id.unwrap(),
    }
}

/// The stored form of a text channel, built when the store is drained for a
/// snapshot; `guild_id` records the owning guild.
pub open spec fn cold_of_channel(c: GuildChannel, guild_id: u64) -> ColdStorageTextChannel {
    ColdStorageTextChannel {
        guild_id: Some(guild_id),
        id: c.id,
        name: c.name,
        parent_id: c.parent_id,
        position: c.position,
    }
}

} // verus!
