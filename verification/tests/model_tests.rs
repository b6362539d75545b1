use cache_inmemory::model::emoji::{CachedEmoji, Emoji};
use cache_inmemory::model::guild::CachedGuild;
use cache_inmemory::model::member::{CachedMember, Member, PartialMember};
use cache_inmemory::model::message::{CachedMessage, Message};
use cache_inmemory::model::user::User;
use cache_inmemory::is_false;

fn user() -> User {
    User {
        avatar: None,
        bot: false,
        discriminator: "0001".to_owned(),
        id: 1,
        name: "bar".to_owned(),
    }
}

fn cached_member() -> CachedMember {
    CachedMember {
        deaf: Some(false),
        guild_id: 3,
        joined_at: None,
        mute: Some(true),
        nick: Some("member nick".to_owned()),
        pending: false,
        premium_since: None,
        roles: Vec::new(),
        user_id: user().id,
    }
}

#[test]
fn test_eq_emoji() {
    let emoji = Emoji {
        animated: true,
        available: true,
        id: 123,
        managed: false,
        name: "foo".to_owned(),
        require_colons: true,
        roles: vec![],
        user: None,
    };
    let cached = CachedEmoji {
        id: 123,
        animated: true,
        name: "foo".to_owned(),
        require_colons: true,
        roles: vec![],
        available: true,
    };

    assert_eq!(cached, emoji);
}

#[test]
fn test_fields() {
    let cached = CachedEmoji {
        id: 7,
        animated: false,
        name: "fields".to_owned(),
        require_colons: false,
        roles: vec![9],
        available: true,
    };
    assert!(
        cached.id == 7 && !cached.animated && cached.name == "fields" && !cached.require_colons
            && cached.roles == vec![9],
    );
}

#[test]
fn test_impls() {
    let cached = CachedEmoji {
        id: 8,
        animated: false,
        name: "impls".to_owned(),
        require_colons: false,
        roles: vec![],
        available: true,
    };
    let copy = cached.clone();
    let shown = format!("{:?}", copy);
    assert!(copy == cached && !shown.is_empty());
}

#[test]
fn test_eq_member() {
    let member = Member {
        deaf: false,
        guild_id: 3,
        joined_at: None,
        mute: true,
        nick: Some("member nick".to_owned()),
        pending: false,
        premium_since: None,
        roles: Vec::new(),
        user: user(),
    };

    assert_eq!(cached_member(), member);
}

#[test]
fn test_eq_partial_member() {
    let member = PartialMember {
        deaf: false,
        joined_at: None,
        mute: true,
        nick: Some("member nick".to_owned()),
        premium_since: None,
        roles: Vec::new(),
    };

    assert_eq!(cached_member(), &member);
}

#[test]
fn test_reexports() {
    let _guild: Option<CachedGuild> = None;
    let _member: Option<CachedMember> = None;
    let _emoji: Option<CachedEmoji> = None;
}

#[test]
fn test_is_false() {
    assert!(is_false(&false));
    assert!(!is_false(&true));
}

#[test]
fn test_message_reduction() {
    let msg = Message {
        id: 5,
        attachments: vec!["a.png".to_owned()],
        author: user(),
        channel_id: 9,
        content: "hello".to_owned(),
        guild_id: Some(3),
        mention_everyone: false,
        mention_roles: vec![],
        mentions: vec![2],
        pinned: false,
        timestamp: "2021-06-01T00:00:00Z".to_owned(),
        tts: false,
    };
    let cached = CachedMessage::from_message(msg);
    assert_eq!(cached.id, 5);
    assert_eq!(cached.author, 1);
    assert_eq!(cached.channel_id, 9);
    assert_eq!(cached.content, "hello");
}
