use cache_inmemory::model::channel::{ChannelKind, GuildChannel};
use cache_inmemory::model::emoji::Emoji;
use cache_inmemory::model::guild::Guild;
use cache_inmemory::model::member::Member;
use cache_inmemory::model::role::Role;
use cache_inmemory::model::user::{CurrentUser, User};
use cache_inmemory::{InMemoryCache, MemberRemove, RoleDelete};

fn current_user(id: u64) -> CurrentUser {
    CurrentUser {
        avatar: None,
        bot: true,
        discriminator: "9876".to_owned(),
        id,
        mfa_enabled: true,
        name: "test".to_owned(),
        verified: Some(true),
    }
}

fn user(id: u64) -> User {
    User {
        avatar: None,
        bot: false,
        discriminator: "0001".to_owned(),
        id,
        name: "user".to_owned(),
    }
}

fn role(id: u64) -> Role {
    Role {
        color: 0,
        hoist: false,
        id,
        managed: false,
        mentionable: false,
        name: "test".to_owned(),
        permissions: 0,
        position: 0,
    }
}

fn emoji(id: u64, user: Option<User>) -> Emoji {
    Emoji {
        animated: false,
        available: true,
        id,
        managed: false,
        name: "test".to_owned(),
        require_colons: true,
        roles: Vec::new(),
        user,
    }
}

fn member(id: u64, guild_id: u64) -> Member {
    Member {
        deaf: false,
        guild_id,
        joined_at: None,
        mute: false,
        nick: None,
        pending: false,
        premium_since: None,
        roles: Vec::new(),
        user: user(id),
    }
}

/// Test retrieval of the current user, notably that it doesn't simply
/// panic or do anything funny.
#[test]
fn mod_test_current_user_retrieval() {
    let mut cache = InMemoryCache::new();
    assert!(cache.current_user().is_none());
    cache.cache_current_user(current_user(1));
    assert!(cache.current_user().is_some());
}

/// Test retrieval of the current user through the replace path as well.
#[test]
fn lib_test_current_user_retrieval() {
    let mut cache = InMemoryCache::new();
    assert!(cache.current_user().is_none());
    cache.cache_current_user(current_user(1));
    cache.cache_current_user(current_user(1));
    assert!(cache.current_user().is_some());
}

#[test]
fn test_guild_create_channels_have_guild_ids() {
    let channels = vec![GuildChannel {
        id: 111,
        guild_id: None,
        kind: ChannelKind::Text,
        name: "guild channel with no guild id".to_owned(),
        parent_id: None,
        position: 1,
    }];

    let guild = Guild {
        id: 123,
        channels,
        emojis: Vec::new(),
        icon: None,
        max_members: Some(50),
        member_count: Some(25),
        members: Vec::new(),
        name: "this is a guild".to_owned(),
        owner_id: 456,
        permissions: Some(0x800),
        roles: Vec::new(),
        system_channel_id: None,
        unavailable: false,
    };

    let mut cache = InMemoryCache::new();
    cache.cache_guild(guild);

    let channel = cache.guild_channel(111).unwrap();

    // The channel was given to the cache without a guild id, but because
    // it's part of a guild payload, the cache attaches the guild id to it.
    assert_eq!(Some(123), channel.guild_id);
    assert_eq!(ChannelKind::Text, channel.kind);
}

#[test]
fn test_syntax_update() {
    let mut cache = InMemoryCache::new();
    cache.update(&RoleDelete { guild_id: 0, role_id: 1 });
}

#[test]
fn test_cache_user_guild_state() {
    let user_id: u64 = 2;
    let mut cache = InMemoryCache::new();
    cache.cache_user(user(user_id), Some(1));

    // Test the guild's id is the only one in the user's set of guilds.
    {
        let user = cache.user_ref(user_id).unwrap();
        assert!(user.1.contains(&1));
        assert_eq!(1, user.1.len());
    }

    // Test that a second guild will cause 2 in the set.
    cache.cache_user(user(user_id), Some(3));

    {
        let user = cache.user_ref(user_id).unwrap();
        assert!(user.1.contains(&3));
        assert_eq!(2, user.1.len());
    }

    // Test that removing a user from a guild will cause the id to be
    // removed from the set, leaving the other id.
    cache.update(&MemberRemove { guild_id: 3, user: user(user_id) });

    {
        let user = cache.user_ref(user_id).unwrap();
        assert!(!user.1.contains(&3));
        assert_eq!(1, user.1.len());
    }

    // Test that removing the user from its last guild removes the user's
    // entry.
    cache.update(&MemberRemove { guild_id: 1, user: user(user_id) });
    assert!(cache.user_ref(user_id).is_none());
}

#[test]
fn test_cache_role() {
    let mut cache = InMemoryCache::new();

    // Single inserts
    {
        // The role ids for the guild with id 1
        let guild_1_role_ids: Vec<u64> = (1..=10).collect();
        // Map the role ids to a test role
        let guild_1_roles: Vec<Role> = guild_1_role_ids.iter().copied().map(role).collect();
        // Cache all the roles using cache_role
        for role in guild_1_roles.clone() {
            cache.cache_role(1, role);
        }

        // Check for the cached guild role ids
        let cached_roles = cache.guild_roles(1).unwrap();
        assert_eq!(cached_roles.len(), guild_1_role_ids.len());
        assert!(guild_1_role_ids.iter().all(|id| cached_roles.contains(id)));

        // Check for the cached role
        assert!(guild_1_roles
            .into_iter()
            .all(|role| cache.role(role.id).expect("Role missing from cache") == role))
    }

    // Bulk inserts
    {
        // The role ids for the guild with id 2
        let guild_2_role_ids: Vec<u64> = (101..=110).collect();
        // Map the role ids to a test role
        let guild_2_roles: Vec<Role> = guild_2_role_ids.iter().copied().map(role).collect();
        // Cache all the roles using cache_roles
        cache.cache_roles(2, guild_2_roles.clone());

        // Check for the cached guild role ids
        let cached_roles = cache.guild_roles(2).unwrap();
        assert_eq!(cached_roles.len(), guild_2_role_ids.len());
        assert!(guild_2_role_ids.iter().all(|id| cached_roles.contains(id)));

        // Check for the cached role
        assert!(guild_2_roles
            .into_iter()
            .all(|role| cache.role(role.id).expect("Role missing from cache") == role))
    }
}

#[test]
fn test_cache_guild_member() {
    let mut cache = InMemoryCache::new();

    // Single inserts
    {
        let guild_1_user_ids: Vec<u64> = (1..=10).collect();
        let guild_1_members: Vec<Member> =
            guild_1_user_ids.iter().copied().map(|id| member(id, 1)).collect();

        for member in guild_1_members {
            cache.cache_member(1, member);
        }

        // Check for the cached guild members ids
        let cached_roles = cache.guild_members(1).unwrap();
        assert_eq!(cached_roles.len(), guild_1_user_ids.len());
        assert!(guild_1_user_ids.iter().all(|id| cached_roles.contains(id)));

        // Check for the cached members
        assert!(guild_1_user_ids.iter().all(|id| cache.member(1, *id).is_some()));

        // Check for the cached users
        assert!(guild_1_user_ids.iter().all(|id| cache.user(*id).is_some()));
    }

    // Bulk inserts
    {
        let guild_2_user_ids: Vec<u64> = (1..=10).collect();
        let guild_2_members: Vec<Member> =
            guild_2_user_ids.iter().copied().map(|id| member(id, 2)).collect();
        cache.cache_members(2, guild_2_members);

        // Check for the cached guild members ids
        let cached_roles = cache.guild_members(1).unwrap();
        assert_eq!(cached_roles.len(), guild_2_user_ids.len());
        assert!(guild_2_user_ids.iter().all(|id| cached_roles.contains(id)));

        // Check for the cached members
        assert!(guild_2_user_ids.iter().copied().all(|id| cache.member(1, id).is_some()));

        // Check for the cached users
        assert!(guild_2_user_ids.iter().all(|id| cache.user(*id).is_some()));
    }
}

#[test]
fn test_cache_emoji() {
    let mut cache = InMemoryCache::new();

    // The user to do some of the inserts
    fn user_mod(id: u64) -> Option<User> {
        if id % 2 == 0 {
            // Only use user for half
            Some(user(1))
        } else {
            None
        }
    }

    // Single inserts
    {
        let guild_1_emoji_ids: Vec<u64> = (1..=10).collect();
        let guild_1_emoji: Vec<Emoji> =
            guild_1_emoji_ids.iter().copied().map(|id| emoji(id, user_mod(id))).collect();

        for emoji in guild_1_emoji {
            cache.cache_emoji(1, emoji);
        }

        for id in guild_1_emoji_ids.iter().cloned() {
            let global_emoji = cache.emoji(id);
            assert!(global_emoji.is_some());
        }

        // The emoji must also be added to the per-guild lookup map.
        let guild_emojis = cache.guild_emojis(1);
        assert!(guild_emojis.is_some());
        let guild_emojis = guild_emojis.unwrap();

        assert_eq!(guild_1_emoji_ids.len(), guild_emojis.len());
        assert!(guild_1_emoji_ids.iter().all(|id| guild_emojis.contains(id)));
    }

    // Bulk inserts
    {
        let guild_2_emoji_ids: Vec<u64> = (11..=20).collect();
        let guild_2_emojis: Vec<Emoji> =
            guild_2_emoji_ids.iter().copied().map(|id| emoji(id, user_mod(id))).collect();
        cache.cache_emojis(2, guild_2_emojis);

        for id in guild_2_emoji_ids.iter().cloned() {
            let global_emoji = cache.emoji(id);
            assert!(global_emoji.is_some());
        }

        let guild_emojis = cache.guild_emojis(2);

        assert!(guild_emojis.is_some());
        let guild_emojis = guild_emojis.unwrap();
        assert_eq!(guild_2_emoji_ids.len(), guild_emojis.len());
        assert!(guild_2_emoji_ids.iter().all(|id| guild_emojis.contains(id)));
    }
}
