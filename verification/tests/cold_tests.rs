use cache_inmemory::cold::{chunk_count, GUILD_CHUNK_SIZE};
use cache_inmemory::model::channel::ColdStorageTextChannel;
use cache_inmemory::model::guild::CachedGuild;
use cache_inmemory::model::member::CachedMember;
use cache_inmemory::model::user::{ColdStorageUser, CurrentUser};
use cache_inmemory::{InMemoryCache, RedisCacheError};
use std::collections::BTreeSet;

fn cached_guild(id: u64) -> CachedGuild {
    CachedGuild {
        id,
        icon: None,
        max_members: None,
        member_count: Some(3),
        name: "guild".to_owned(),
        owner_id: 1,
        permissions: None,
        system_channel_id: None,
        unavailable: false,
    }
}

fn current_user(id: u64) -> CurrentUser {
    CurrentUser {
        avatar: None,
        bot: true,
        discriminator: "9876".to_owned(),
        id,
        mfa_enabled: true,
        name: "test".to_owned(),
        verified: Some(true),
    }
}

#[test]
fn test_chunk_count_boundaries() {
    assert_eq!(chunk_count(0, 25_000), 1);
    assert_eq!(chunk_count(1, 25_000), 1);
    assert_eq!(chunk_count(25_000, 25_000), 1);
    assert_eq!(chunk_count(25_001, 25_000), 2);
    assert_eq!(chunk_count(150_000, 25_000), 6);
}

/// Exporting a store of 150,000 guilds at 25,000 per chunk gives exactly 6
/// chunks, and restoring them reproduces the original guild count.
#[test]
fn test_snapshot_round_trip_150k_guilds() {
    let mut cache = InMemoryCache::new();
    let mut guilds: Vec<CachedGuild> = Vec::with_capacity(150_000);
    for id in 0..150_000u64 {
        guilds.push(cached_guild(id));
    }
    cache.defrost_guilds(guilds);
    assert_eq!(cache.metrics.guilds, 150_000);

    let chunks = cache.prepare_cold_resume_guilds();
    assert_eq!(chunks.len(), 6);
    assert_eq!(GUILD_CHUNK_SIZE, 25_000);
    assert_eq!(cache.metrics.guilds, 0);

    let mut restored = InMemoryCache::new();
    for chunk in chunks {
        restored.defrost_guilds(chunk);
    }
    assert_eq!(restored.metrics.guilds, 150_000);
}

/// A full freeze drains every exported index and carries the current user;
/// a cache with no current user refuses to freeze.
#[test]
fn test_prepare_cold_resume() {
    let mut cache = InMemoryCache::new();
    match cache.prepare_cold_resume() {
        Err(RedisCacheError::MissingCurrentUser) => {},
        _ => panic!("freezing without a current user must fail"),
    }

    cache.cache_current_user(current_user(99));
    cache.defrost_guilds(vec![cached_guild(1), cached_guild(2)]);
    let payload = cache.prepare_cold_resume().unwrap();
    assert_eq!(payload.current_user.id, 99);
    assert_eq!(payload.guilds.len(), 1);
    assert_eq!(payload.guilds[0].len(), 2);
    assert_eq!(cache.metrics.guilds, 0);
    assert_eq!(payload.users.len(), 1);
    assert_eq!(payload.members.len(), 1);
    assert_eq!(payload.channels.len(), 1);
    assert_eq!(payload.roles.len(), 1);
}

/// Restoring users rebuilds the reverse-reference sets; an entry with no
/// tracked guilds is rejected as malformed.
#[test]
fn test_defrost_users() {
    let mut cache = InMemoryCache::new();
    let mut guilds = BTreeSet::new();
    guilds.insert(4u64);
    let entry = ColdStorageUser {
        avatar: None,
        bot: false,
        discriminator: "0001".to_owned(),
        id: 7,
        name: "user".to_owned(),
        guilds,
    };
    cache.defrost_users(vec![entry]).unwrap();
    assert_eq!(cache.metrics.users, 1);
    assert!(cache.user_ref(7).unwrap().1.contains(&4));

    let empty = ColdStorageUser {
        avatar: None,
        bot: false,
        discriminator: "0001".to_owned(),
        id: 8,
        name: "user".to_owned(),
        guilds: BTreeSet::new(),
    };
    match cache.defrost_users(vec![empty]) {
        Err(RedisCacheError::Serde(_)) => {},
        _ => panic!("a user with no tracked guilds must be rejected"),
    }
    assert!(cache.user_ref(8).is_none());
}

/// Restoring channels rebuilds the guild channel index; an entry without a
/// guild is rejected as malformed.
#[test]
fn test_defrost_channels() {
    let mut cache = InMemoryCache::new();
    let entry = ColdStorageTextChannel {
        guild_id: Some(3),
        id: 11,
        name: "general".to_owned(),
        parent_id: None,
        position: 0,
    };
    cache.defrost_channels(vec![entry]).unwrap();
    assert!(cache.guild_channel(11).is_some());
    assert!(cache.guild_channels(3).unwrap().contains(&11));
    assert_eq!(cache.metrics.channels_guild, 1);

    let orphan = ColdStorageTextChannel {
        guild_id: None,
        id: 12,
        name: "orphan".to_owned(),
        parent_id: None,
        position: 0,
    };
    match cache.defrost_channels(vec![orphan]) {
        Err(RedisCacheError::Serde(_)) => {},
        _ => panic!("a channel with no guild must be rejected"),
    }
    assert!(cache.guild_channel(12).is_none());
}

/// Restoring members rebuilds the guild member index.
#[test]
fn test_defrost_members() {
    let mut cache = InMemoryCache::new();
    let member = CachedMember {
        deaf: None,
        guild_id: 3,
        joined_at: None,
        mute: None,
        nick: None,
        pending: false,
        premium_since: None,
        roles: Vec::new(),
        user_id: 7,
    };
    cache.defrost_members(vec![member]);
    assert!(cache.member(3, 7).is_some());
    assert!(cache.guild_members(3).unwrap().contains(&7));
    assert_eq!(cache.metrics.members, 1);
}

/// The restored current user is retrievable.
#[test]
fn test_defrost_current_user() {
    let mut cache = InMemoryCache::new();
    cache.defrost_current_user(current_user(99));
    assert_eq!(cache.current_user().unwrap().id, 99);
}

#[test]
fn test_error_descriptions() {
    assert_eq!(
        RedisCacheError::MissingCurrentUser.description(),
        "missing current user in cache",
    );
    assert_eq!(
        RedisCacheError::MissingKey("cb_data".to_owned()).description(),
        "missing key `cb_data`",
    );
    assert_eq!(
        RedisCacheError::Store("timeout".to_owned(), "cb_data".to_owned()).description(),
        "failed to set key `cb_data`: timeout",
    );
}
