use cache_inmemory::model::member::Member;
use cache_inmemory::model::user::{CurrentUser, User};
use cache_inmemory::InMemoryCache;

fn user(id: u64) -> User {
    User {
        avatar: None,
        bot: false,
        discriminator: "0001".to_owned(),
        id,
        name: "user".to_owned(),
    }
}

fn member(id: u64, guild_id: u64) -> Member {
    Member {
        deaf: false,
        guild_id,
        joined_at: None,
        mute: false,
        nick: None,
        pending: false,
        premium_since: None,
        roles: Vec::new(),
        user: user(id),
    }
}

#[test]
fn test_stats_shape() {
    let cache = InMemoryCache::new();
    let stats = cache.stats(0, 0);
    assert!(stats.biggest_guilds.is_none());
    assert!(stats.most_mutuals_users.is_none());
    assert_eq!(stats.metrics.guilds, 0);
}

fn guild(id: u64, name: &str, members: Vec<Member>) -> cache_inmemory::model::guild::Guild {
    cache_inmemory::model::guild::Guild {
        id,
        channels: Vec::new(),
        emojis: Vec::new(),
        icon: None,
        max_members: None,
        member_count: None,
        members,
        name: name.to_owned(),
        owner_id: 1,
        permissions: None,
        roles: Vec::new(),
        system_channel_id: None,
        unavailable: false,
    }
}

#[test]
fn test_stats_biggest_guilds() {
    let mut cache = InMemoryCache::new();
    // A guild with members but no cached record is never reported.
    cache.cache_member(3, member(1, 3));
    let empty = cache.stats(2, 0).biggest_guilds.unwrap();
    assert!(empty.is_empty());

    cache.cache_guild(guild(2, "small", vec![member(1, 2)]));
    cache.cache_guild(
        guild(1, "big", vec![member(1, 1), member(2, 1), member(3, 1)]),
    );

    let biggest = cache.stats(5, 0).biggest_guilds.unwrap();
    assert_eq!(biggest.len(), 2);
    assert_eq!(biggest[0].name, "big");
    assert_eq!(biggest[0].member_count, 3);
    assert_eq!(biggest[1].name, "small");
    assert_eq!(biggest[1].member_count, 1);
}

#[test]
fn test_stats_most_mutuals() {
    let mut cache = InMemoryCache::new();
    cache.cache_current_user(CurrentUser {
        avatar: None,
        bot: true,
        discriminator: "9876".to_owned(),
        id: 99,
        mfa_enabled: true,
        name: "bot".to_owned(),
        verified: None,
    });
    cache.cache_user(user(7), Some(1));
    cache.cache_user(user(7), Some(2));
    cache.cache_user(user(8), Some(1));
    // The bot's own account never counts as a mutual.
    cache.cache_user(user(99), Some(1));

    let mutuals = cache.stats(0, 5).most_mutuals_users.unwrap();
    assert_eq!(mutuals.len(), 2);
    assert_eq!(mutuals[0].mutual_count, 2);
    assert_eq!(mutuals[0].name, "user#0001");
    assert_eq!(mutuals[1].mutual_count, 1);
}
