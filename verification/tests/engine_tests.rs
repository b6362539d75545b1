use cache_inmemory::model::channel::{ChannelKind, Group, GuildChannel, PrivateChannel};
use cache_inmemory::model::guild::Guild;
use cache_inmemory::model::message::Message;
use cache_inmemory::model::role::Role;
use cache_inmemory::model::user::User;
use cache_inmemory::{
    ChannelCreate, ChannelDelete, GuildCreate, InMemoryCache, MemberAdd, MessageCreate,
    ResourceType, RoleCreate, RoleUpdate, UnavailableGuild,
};
use cache_inmemory::model::member::Member;

fn user(id: u64) -> User {
    User {
        avatar: None,
        bot: false,
        discriminator: "0001".to_owned(),
        id,
        name: "user".to_owned(),
    }
}

fn role(id: u64) -> Role {
    Role {
        color: 0,
        hoist: false,
        id,
        managed: false,
        mentionable: false,
        name: "test".to_owned(),
        permissions: 0,
        position: 0,
    }
}

fn text_channel(id: u64, name: &str) -> GuildChannel {
    GuildChannel {
        id,
        guild_id: None,
        kind: ChannelKind::Text,
        name: name.to_owned(),
        parent_id: None,
        position: 0,
    }
}

fn guild(id: u64, channels: Vec<GuildChannel>) -> Guild {
    Guild {
        id,
        channels,
        emojis: Vec::new(),
        icon: None,
        max_members: None,
        member_count: None,
        members: Vec::new(),
        name: "guild".to_owned(),
        owner_id: 1,
        permissions: None,
        roles: Vec::new(),
        system_channel_id: None,
        unavailable: false,
    }
}

fn message(id: u64, channel_id: u64) -> Message {
    Message {
        id,
        attachments: Vec::new(),
        author: user(1),
        channel_id,
        content: "hi".to_owned(),
        guild_id: None,
        mention_everyone: false,
        mention_roles: Vec::new(),
        mentions: Vec::new(),
        pinned: false,
        timestamp: "2021-06-01T00:00:00Z".to_owned(),
        tts: false,
    }
}

/// Applying the same payload twice leaves the store and its counters
/// unchanged after the second application.
#[test]
fn test_idempotent_upserts() {
    let mut cache = InMemoryCache::new();
    cache.cache_role(1, role(10));
    let metrics_once = cache.metrics;
    let stored_once = cache.role(10).unwrap();
    cache.cache_role(1, role(10));
    assert_eq!(cache.metrics, metrics_once);
    assert_eq!(cache.role(10).unwrap(), stored_once);
    assert_eq!(cache.guild_roles(1).unwrap().len(), 1);

    cache.cache_user(user(7), Some(1));
    let users_once = cache.metrics.users;
    cache.cache_user(user(7), Some(1));
    assert_eq!(cache.metrics.users, users_once);
    assert_eq!(cache.user_ref(7).unwrap().1.len(), 1);
}

/// The final stored role is the last payload applied, and the guild's
/// role set holds exactly the ids inserted and not yet deleted.
#[test]
fn test_role_history() {
    let mut cache = InMemoryCache::new();
    let mut first = role(10);
    first.name = "old".to_owned();
    let mut second = role(10);
    second.name = "new".to_owned();
    cache.cache_role(1, first);
    cache.cache_role(1, second.clone());
    assert_eq!(cache.role(10).unwrap(), second);

    cache.cache_role(1, role(11));
    cache.delete_role(10);
    let set = cache.guild_roles(1).unwrap();
    assert!(!set.contains(&10));
    assert!(set.contains(&11));
    assert_eq!(set.len(), 1);
    assert!(cache.role(10).is_none());
}

/// Pushing one message over capacity drops the oldest: the last message is
/// the newest push and the first message the oldest survivor.
#[test]
fn test_message_ring() {
    let mut cache = InMemoryCache::builder().message_cache_size(3).build();
    for id in 1..=4 {
        cache.cache_message(message(id, 9));
    }
    assert_eq!(cache.last_message(9), Some(4));
    assert_eq!(cache.first_message(9), Some(2));
    assert_eq!(cache.messages.get(&9).unwrap().len(), 3);
}

/// Finds the newest message matching a predicate.
#[test]
fn test_message_extract() {
    let mut cache = InMemoryCache::builder().message_cache_size(10).build();
    for id in 1..=5 {
        cache.cache_message(message(id, 9));
    }
    let found = cache.message_extract(9, |m| if m.id % 2 == 0 { Some(m.id) } else { None });
    assert_eq!(found, Some(4));
    let none = cache.message_extract(9, |m| if m.id > 10 { Some(m.id) } else { None });
    assert_eq!(none, None);
}

/// A full guild snapshot is authoritative: a channel no longer listed
/// leaves the guild's channel set, while a sibling guild is unaffected.
#[test]
fn test_guild_rebuild_drops_stale_channels() {
    let mut cache = InMemoryCache::new();
    cache.cache_guild(guild(1, vec![text_channel(11, "general"), text_channel(12, "extra")]));
    cache.cache_guild(guild(2, vec![text_channel(21, "other")]));

    let before = cache.guild_channels(1).unwrap();
    assert!(before.contains(&11) && before.contains(&12));

    cache.cache_guild(guild(1, vec![text_channel(12, "extra")]));

    let after = cache.guild_channels(1).unwrap();
    assert!(!after.contains(&11));
    assert!(after.contains(&12));
    let sibling = cache.guild_channels(2).unwrap();
    assert!(sibling.contains(&21));
    assert_eq!(sibling.len(), 1);
}

/// Marking a guild unavailable removes it from the guild map; caching it
/// again clears the unavailable mark.
#[test]
fn test_unavailable_guild_round_trip() {
    let mut cache = InMemoryCache::new();
    cache.cache_guild(guild(5, Vec::new()));
    assert!(cache.guild(5).is_some());

    cache.update(&UnavailableGuild { id: 5 });
    assert!(cache.guild(5).is_none());
    assert!(cache.unavailable_guilds.contains(&5));
    assert_eq!(cache.metrics.unavailable_guilds, 1);

    cache.cache_guild(guild(5, Vec::new()));
    assert!(cache.guild(5).is_some());
    assert!(!cache.unavailable_guilds.contains(&5));
    assert_eq!(cache.metrics.unavailable_guilds, 0);
}

/// Deleting a guild channel removes it from the primary map and the owning
/// guild's channel set.
#[test]
fn test_delete_guild_channel() {
    let mut cache = InMemoryCache::new();
    cache.cache_guild_channel(1, text_channel(11, "general"));
    assert!(cache.guild_channel(11).is_some());
    cache.delete_guild_channel(11);
    assert!(cache.guild_channel(11).is_none());
    assert!(!cache.guild_channels(1).unwrap().contains(&11));
    assert_eq!(cache.metrics.channels_guild, 0);
}

/// Groups and private channels are cached by their own keys.
#[test]
fn test_group_and_private_channel() {
    let mut cache = InMemoryCache::new();
    let group = Group { id: 30, name: Some("party".to_owned()), owner_id: 1, recipients: vec![1, 2] };
    cache.cache_group(group);
    assert!(cache.group(30).is_some());
    cache.delete_group(30);
    assert!(cache.group(30).is_none());

    let private = PrivateChannel { id: 40, last_message_id: None, recipients: vec![7, 8] };
    cache.cache_private_channel(private);
    // Keyed by the first recipient's user id.
    assert!(cache.private_channel(7).is_some());
    assert!(cache.private_channel(40).is_none());
    assert_eq!(cache.metrics.channels_private, 1);
}

/// The interest mask gates reducers; a cache interested in nothing ignores
/// events.
#[test]
fn test_interest_mask() {
    let mut cache = InMemoryCache::builder().resource_types(0).build();
    assert!(!cache.wants(ResourceType::Guild));
    cache.update(&UnavailableGuild { id: 5 });
    assert!(!cache.unavailable_guilds.contains(&5));
}

/// Clearing the cache is equal to creating a fresh one.
#[test]
fn test_clear() {
    let mut cache = InMemoryCache::new();
    cache.cache_guild(guild(1, vec![text_channel(11, "general")]));
    cache.cache_user(user(2), Some(1));
    cache.clear();
    assert!(cache.guild(1).is_none());
    assert!(cache.user(2).is_none());
    assert!(cache.guild_channel(11).is_none());
    assert_eq!(cache.metrics.guilds, 0);
    assert_eq!(cache.metrics.users, 0);
    assert_eq!(cache.metrics.channels_guild, 0);
}

/// A changed user payload keeps the tracked-guild set.
#[test]
fn test_user_replace_keeps_tracked_guilds() {
    let mut cache = InMemoryCache::new();
    cache.cache_user(user(7), Some(1));
    let mut renamed = user(7);
    renamed.name = "renamed".to_owned();
    cache.cache_user(renamed, Some(3));
    let entry = cache.user_ref(7).unwrap();
    assert_eq!(entry.0.name, "renamed");
    assert!(entry.1.contains(&1) && entry.1.contains(&3));
    assert_eq!(entry.1.len(), 2);
}

fn member(id: u64, guild_id: u64) -> Member {
    Member {
        deaf: false,
        guild_id,
        joined_at: None,
        mute: false,
        nick: None,
        pending: false,
        premium_since: None,
        roles: Vec::new(),
        user: user(id),
    }
}

/// Each event reducer routes its payload into the matching engine
/// operation.
#[test]
fn test_event_reducers() {
    let mut cache = InMemoryCache::new();

    cache.update(&GuildCreate(guild(1, vec![text_channel(11, "general")])));
    assert!(cache.guild(1).is_some());
    assert!(cache.guild_channel(11).is_some());

    let mut away = text_channel(12, "away");
    away.guild_id = Some(1);
    cache.update(&ChannelCreate(away.clone()));
    assert!(cache.guild_channel(12).is_some());
    cache.update(&ChannelDelete(away));
    assert!(cache.guild_channel(12).is_none());

    cache.update(&RoleCreate { guild_id: 1, role: role(5) });
    assert!(cache.role(5).is_some());
    let mut renamed = role(5);
    renamed.name = "renamed".to_owned();
    cache.update(&RoleUpdate { guild_id: 1, role: renamed });
    assert_eq!(cache.role(5).unwrap().name, "renamed");

    cache.update(&MemberAdd(member(7, 1)));
    assert!(cache.member(1, 7).is_some());
    assert!(cache.user(7).is_some());

    cache.update(&MessageCreate(message(30, 11)));
    assert_eq!(cache.last_message(11), Some(30));

    // A guild channel delivered with no guild reference is rejected.
    cache.update(&ChannelCreate(text_channel(13, "orphan")));
    assert!(cache.guild_channel(13).is_none());
}
