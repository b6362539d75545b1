//! Event reducers: each gateway event type knows how to apply itself against
//! a cache, gated by the configured interest in its resource type.
//!
//! Each impl carries its own contract: when the cache is interested in the
//! event's resource type, the store changes exactly as the engine operation
//! the event maps to describes; when it is not, the cache is left completely
//! unchanged.
use vstd::prelude::*;

use crate::cache::{ring_of, set_of, tracked_of, InMemoryCache};
use crate::config::{spec_wants, ResourceType};
use crate::model::channel::{channel_eq, channel_with_guild, GuildChannel};
use crate::model::emoji::{copy_emojis, Emoji};
use crate::model::guild::{cached_guild_eq, cached_of_guild, Guild};
use crate::model::member::{member_key, member_matches, Member};
use crate::model::message::Message;
use crate::model::role::{role_eq, Role};
use crate::model::user::{current_user_eq, user_eq, CurrentUser, User};
use crate::update::{
    channel_ids, lemma_channels_fold_contains, lemma_emojis_fold_contains,
    lemma_members_fold_contains, lemma_roles_fold_contains, role_ids, users_grown,
};

verus! {

/// An event that can be applied against the store. Applying an event keeps
/// the store well formed and never touches the configuration; each event
/// type's impl states exactly what it changes.
pub trait UpdateCache {
    /// Applies this event against the cache.
    fn update(&self, cache: &mut InMemoryCache)
        requires
            old(cache).wf(),
        ensures
            final(cache).wf(),
            final(cache).config == old(cache).config,
    ;
}

/// The hello payload of a fresh session: the bot's account and the guilds it
/// is in, all still unavailable.
#[derive(Debug)]
pub struct Ready {
    pub guilds: Vec<UnavailableGuild>,
    pub user: CurrentUser,
}

/// A guild became unavailable due to an outage.
#[derive(Debug)]
pub struct UnavailableGuild {
    pub id: u64,
}

/// The bot's own account changed.
#[derive(Debug)]
pub struct UserUpdate(pub CurrentUser);

/// A role was deleted from a guild.
#[derive(Debug)]
pub struct RoleDelete {
    pub guild_id: u64,
    pub role_id: u64,
}

/// A user left a guild, or was removed from it.
#[derive(Debug)]
pub struct MemberRemove {
    pub guild_id: u64,
    pub user: User,
}

/// A full guild became available, or was joined.
#[derive(Debug)]
pub struct GuildCreate(pub Guild);

/// A channel was created in a guild.
#[derive(Debug)]
pub struct ChannelCreate(pub GuildChannel);

/// A channel was deleted from a guild.
#[derive(Debug)]
pub struct ChannelDelete(pub GuildChannel);

/// A role was created in a guild.
#[derive(Debug)]
pub struct RoleCreate {
    pub guild_id: u64,
    pub role: Role,
}

/// A role of a guild changed.
#[derive(Debug)]
pub struct RoleUpdate {
    pub guild_id: u64,
    pub role: Role,
}

/// A user joined a guild.
#[derive(Debug)]
pub struct MemberAdd(pub Member);

/// A guild's emoji list changed.
#[derive(Debug)]
pub struct GuildEmojisUpdate {
    pub guild_id: u64,
    pub emojis: Vec<Emoji>,
}

/// A message was sent in a channel.
#[derive(Debug)]
pub struct MessageCreate(pub Message);

/// The guild ids a hello payload marks unavailable.
pub open spec fn unavailable_ids(gs: Seq<UnavailableGuild>) -> Set<u64> {
    gs.map_values(|g: UnavailableGuild| g.id).to_set()
}

/// Appending one more entry adds its id to the set.
proof fn lemma_unavailable_ids_snoc(gs: Seq<UnavailableGuild>, x: UnavailableGuild)
    ensures
        unavailable_ids(gs.push(x)) == unavailable_ids(gs).insert(x.id),
{
    assert(gs.push(x).map_values(|g: UnavailableGuild| g.id) =~= gs.map_values(
        |g: UnavailableGuild| g.id,
    ).push(x.id));
    crate::update::lemma_ids_push_to_set(gs.map_values(|g: UnavailableGuild| g.id), x.id);
}

impl UpdateCache for Ready {
    fn update(&self, cache: &mut InMemoryCache)
        ensures
            spec_wants(old(cache).config, ResourceType::UserCurrent) ==> final(cache).current_user
                is Some && current_user_eq(final(cache).current_user.unwrap(), self.user),
            !spec_wants(old(cache).config, ResourceType::UserCurrent) ==> final(cache).current_user
                == old(cache).current_user,
            spec_wants(old(cache).config, ResourceType::Guild) ==> final(cache).unavailable_guilds@ == old(cache).unavailable_guilds@.union(
                unavailable_ids(self.guilds@),
            ) && final(cache).guilds@ == old(cache).guilds@.remove_keys(
                unavailable_ids(self.guilds@),
            ),
            !spec_wants(old(cache).config, ResourceType::Guild) ==> final(cache).unavailable_guilds
                == old(cache).unavailable_guilds && final(cache).guilds == old(cache).guilds,
            final(cache).channels_guild == old(cache).channels_guild,
            final(cache).channels_private == old(cache).channels_private,
            final(cache).emojis == old(cache).emojis,
            final(cache).groups == old(cache).groups,
            final(cache).guild_channels == old(cache).guild_channels,
            final(cache).guild_emojis == old(cache).guild_emojis,
            final(cache).guild_members == old(cache).guild_members,
            final(cache).guild_roles == old(cache).guild_roles,
            final(cache).members == old(cache).members,
            final(cache).messages == old(cache).messages,
            final(cache).roles == old(cache).roles,
            final(cache).users == old(cache).users,
            final(cache).metrics.messages == old(cache).metrics.messages,
    {
        if cache.wants(ResourceType::UserCurrent) {
            cache.cache_current_user(self.user.clone());
        }
        if cache.wants(ResourceType::Guild) {
            let ghost mid = *cache;
            let mut i: usize = 0;
            let n = self.guilds.len();
            proof {
                assert(unavailable_ids(self.guilds@.take(0)) =~= Set::<u64>::empty());
                assert(cache.unavailable_guilds@ =~= mid.unavailable_guilds@.union(
                    unavailable_ids(self.guilds@.take(0)),
                ));
                assert(cache.guilds@ =~= mid.guilds@.remove_keys(
                    unavailable_ids(self.guilds@.take(0)),
                ));
            }
            while i < n
                invariant
                    i <= n,
                    n == self.guilds@.len(),
                    cache.wf(),
                    cache.unavailable_guilds@ == mid.unavailable_guilds@.union(
                        unavailable_ids(self.guilds@.take(i as int)),
                    ),
                    cache.guilds@ == mid.guilds@.remove_keys(
                        unavailable_ids(self.guilds@.take(i as int)),
                    ),
                    cache.channels_guild == mid.channels_guild,
                    cache.channels_private == mid.channels_private,
                    cache.config == mid.config,
                    cache.current_user == mid.current_user,
                    cache.emojis == mid.emojis,
                    cache.groups == mid.groups,
                    cache.guild_channels == mid.guild_channels,
                    cache.guild_emojis == mid.guild_emojis,
                    cache.guild_members == mid.guild_members,
                    cache.guild_roles == mid.guild_roles,
                    cache.members == mid.members,
                    cache.messages == mid.messages,
                    cache.roles == mid.roles,
                    cache.users == mid.users,
                    cache.metrics.messages == mid.metrics.messages,
                decreases n - i,
            {
                proof {
                    assert(self.guilds@.take(i as int + 1) =~= self.guilds@.take(i as int).push(
                        self.guilds@[i as int],
                    ));
                    lemma_unavailable_ids_snoc(self.guilds@.take(i as int), self.guilds@[i as int]);
                }
                cache.unavailable_guild(self.guilds[i].id);
                proof {
                    assert(cache.unavailable_guilds@ =~= mid.unavailable_guilds@.union(
                        unavailable_ids(self.guilds@.take(i as int + 1)),
                    ));
                    assert(cache.guilds@ =~= mid.guilds@.remove_keys(
                        unavailable_ids(self.guilds@.take(i as int + 1)),
                    ));
                }
                i = i + 1;
            }
            proof {
                assert(self.guilds@.take(n as int) =~= self.guilds@);
            }
        }
    }
}

impl UpdateCache for UnavailableGuild {
    fn update(&self, cache: &mut InMemoryCache)
        ensures
            spec_wants(old(cache).config, ResourceType::Guild) ==> final(cache).unavailable_guilds@ == old(cache).unavailable_guilds@.insert(self.id) && final(cache).guilds@ == old(cache).guilds@.remove(self.id),
            !spec_wants(old(cache).config, ResourceType::Guild) ==> *final(cache) == *old(cache),
            final(cache).channels_guild == old(cache).channels_guild,
            final(cache).channels_private == old(cache).channels_private,
            final(cache).current_user == old(cache).current_user,
            final(cache).emojis == old(cache).emojis,
            final(cache).groups == old(cache).groups,
            final(cache).guild_channels == old(cache).guild_channels,
            final(cache).guild_emojis == old(cache).guild_emojis,
            final(cache).guild_members == old(cache).guild_members,
            final(cache).guild_roles == old(cache).guild_roles,
            final(cache).members == old(cache).members,
            final(cache).messages == old(cache).messages,
            final(cache).roles == old(cache).roles,
            final(cache).users == old(cache).users,
            final(cache).metrics.messages == old(cache).metrics.messages,
    {
        if cache.wants(ResourceType::Guild) {
            cache.unavailable_guild(self.id);
        }
    }
}

impl UpdateCache for UserUpdate {
    fn update(&self, cache: &mut InMemoryCache)
        ensures
            spec_wants(old(cache).config, ResourceType::UserCurrent) ==> final(cache).current_user
                is Some && current_user_eq(final(cache).current_user.unwrap(), self.0),
            !spec_wants(old(cache).config, ResourceType::UserCurrent) ==> *final(cache) == *old(cache),
            final(cache).channels_guild == old(cache).channels_guild,
            final(cache).channels_private == old(cache).channels_private,
            final(cache).emojis == old(cache).emojis,
            final(cache).groups == old(cache).groups,
            final(cache).guilds == old(cache).guilds,
            final(cache).guild_channels == old(cache).guild_channels,
            final(cache).guild_emojis == old(cache).guild_emojis,
            final(cache).guild_members == old(cache).guild_members,
            final(cache).guild_roles == old(cache).guild_roles,
            final(cache).members == old(cache).members,
            final(cache).messages == old(cache).messages,
            final(cache).metrics == old(cache).metrics,
            final(cache).roles == old(cache).roles,
            final(cache).unavailable_guilds == old(cache).unavailable_guilds,
            final(cache).users == old(cache).users,
    {
        if cache.wants(ResourceType::UserCurrent) {
            cache.cache_current_user(self.0.clone());
        }
    }
}

impl UpdateCache for RoleDelete {
    fn update(&self, cache: &mut InMemoryCache)
        ensures
            spec_wants(old(cache).config, ResourceType::Role) ==> final(cache).roles@ == old(cache).roles@.remove(self.role_id) && ({
                let m = old(cache).roles@;
                if m.contains_key(self.role_id) {
                    let g = m[self.role_id].guild_id;
                    &&& final(cache).guild_roles@.dom() == old(cache).guild_roles@.dom()
                    &&& set_of(final(cache).guild_roles@, g) == set_of(
                        old(cache).guild_roles@,
                        g,
                    ).remove(self.role_id)
                    &&& forall|h: u64|
                        h != g ==> set_of(final(cache).guild_roles@, h) == set_of(
                            old(cache).guild_roles@,
                            h,
                        )
                } else {
                    final(cache).guild_roles == old(cache).guild_roles
                }
            }),
            !spec_wants(old(cache).config, ResourceType::Role) ==> *final(cache) == *old(cache),
            final(cache).channels_guild == old(cache).channels_guild,
            final(cache).channels_private == old(cache).channels_private,
            final(cache).current_user == old(cache).current_user,
            final(cache).emojis == old(cache).emojis,
            final(cache).groups == old(cache).groups,
            final(cache).guilds == old(cache).guilds,
            final(cache).guild_channels == old(cache).guild_channels,
            final(cache).guild_emojis == old(cache).guild_emojis,
            final(cache).guild_members == old(cache).guild_members,
            final(cache).members == old(cache).members,
            final(cache).messages == old(cache).messages,
            final(cache).unavailable_guilds == old(cache).unavailable_guilds,
            final(cache).users == old(cache).users,
            final(cache).metrics.messages == old(cache).metrics.messages,
    {
        if cache.wants(ResourceType::Role) {
            cache.delete_role(self.role_id);
        }
    }
}

impl UpdateCache for MemberRemove {
    fn update(&self, cache: &mut InMemoryCache)
        ensures
            spec_wants(old(cache).config, ResourceType::Member) ==> {
                &&& final(cache).members@ == old(cache).members@.remove(
                    member_key(self.guild_id, self.user.id),
                )
                &&& final(cache).guild_members@.dom() == old(cache).guild_members@.dom()
                &&& set_of(final(cache).guild_members@, self.guild_id) == set_of(
                    old(cache).guild_members@,
                    self.guild_id,
                ).remove(self.user.id)
                &&& forall|h: u64|
                    h != self.guild_id ==> set_of(final(cache).guild_members@, h) == set_of(
                        old(cache).guild_members@,
                        h,
                    )
                &&& tracked_of(final(cache).users@, self.user.id) == tracked_of(
                    old(cache).users@,
                    self.user.id,
                ).remove(self.guild_id)
                &&& (final(cache).users@.contains_key(self.user.id) <==> !tracked_of(
                    old(cache).users@,
                    self.user.id,
                ).remove(self.guild_id).is_empty())
                &&& (final(cache).users@.contains_key(self.user.id) ==> final(cache).users@[self.user.id].0 == old(cache).users@[self.user.id].0)
                &&& forall|k: u64|
                    k != self.user.id && old(cache).users@.contains_key(k) ==> final(cache).users@[k] == old(cache).users@[k]
                &&& forall|k: u64|
                    k != self.user.id ==> (final(cache).users@.contains_key(k) <==> old(cache).users@.contains_key(k))
            },
            !spec_wants(old(cache).config, ResourceType::Member) ==> *final(cache) == *old(cache),
            final(cache).channels_guild == old(cache).channels_guild,
            final(cache).channels_private == old(cache).channels_private,
            final(cache).current_user == old(cache).current_user,
            final(cache).emojis == old(cache).emojis,
            final(cache).groups == old(cache).groups,
            final(cache).guilds == old(cache).guilds,
            final(cache).guild_channels == old(cache).guild_channels,
            final(cache).guild_emojis == old(cache).guild_emojis,
            final(cache).guild_roles == old(cache).guild_roles,
            final(cache).messages == old(cache).messages,
            final(cache).roles == old(cache).roles,
            final(cache).unavailable_guilds == old(cache).unavailable_guilds,
            final(cache).metrics.messages == old(cache).metrics.messages,
    {
        if cache.wants(ResourceType::Member) {
            cache.delete_member(self.guild_id, self.user.id);
            cache.remove_user_from_guild(self.user.id, self.guild_id);
        }
    }
}

impl UpdateCache for GuildCreate {
    fn update(&self, cache: &mut InMemoryCache)
        ensures
            spec_wants(old(cache).config, ResourceType::Guild) ==> {
                let g = self.0;
                &&& final(cache).guilds@.dom() == old(cache).guilds@.dom().insert(g.id)
                &&& cached_guild_eq(final(cache).guilds@[g.id], cached_of_guild(g))
                &&& forall|k: u64|
                    k != g.id && old(cache).guilds@.contains_key(k) ==> final(cache).guilds@[k]
                        == old(cache).guilds@[k]
                &&& final(cache).unavailable_guilds@ == old(cache).unavailable_guilds@.remove(
                    g.id,
                )
                &&& set_of(final(cache).guild_channels@, g.id) == channel_ids(g.channels@)
                &&& set_of(final(cache).guild_roles@, g.id) == role_ids(g.roles@)
                &&& forall|h: u64|
                    h != g.id ==> set_of(final(cache).guild_channels@, h) == set_of(
                        old(cache).guild_channels@,
                        h,
                    ) && set_of(final(cache).guild_emojis@, h) == set_of(
                        old(cache).guild_emojis@,
                        h,
                    ) && set_of(final(cache).guild_members@, h) == set_of(
                        old(cache).guild_members@,
                        h,
                    ) && set_of(final(cache).guild_roles@, h) == set_of(
                        old(cache).guild_roles@,
                        h,
                    )
                &&& forall|i: int|
                    0 <= i < g.channels@.len() ==> final(cache).channels_guild@.contains_key(
                        (#[trigger] g.channels@[i]).id,
                    )
                &&& forall|i: int|
                    0 <= i < g.roles@.len() ==> final(cache).roles@.contains_key(
                        (#[trigger] g.roles@[i]).id,
                    )
                &&& forall|i: int|
                    0 <= i < g.emojis@.len() ==> final(cache).emojis@.contains_key(
                        (#[trigger] g.emojis@[i]).id,
                    )
                &&& forall|i: int|
                    0 <= i < g.members@.len() ==> final(cache).members@.contains_key(
                        member_key(g.id, (#[trigger] g.members@[i]).user.id),
                    )
                &&& users_grown(old(cache).users@, final(cache).users@, g.id)
            },
            !spec_wants(old(cache).config, ResourceType::Guild) ==> *final(cache) == *old(cache),
            final(cache).channels_private == old(cache).channels_private,
            final(cache).current_user == old(cache).current_user,
            final(cache).groups == old(cache).groups,
            final(cache).messages == old(cache).messages,
            final(cache).metrics.messages == old(cache).metrics.messages,
    {
        if cache.wants(ResourceType::Guild) {
            let payload = self.0.clone();
            let ghost cl = payload;
            cache.cache_guild(payload);
            proof {
                let g = self.0;
                assert(cl.channels@.map_values(|c: GuildChannel| c.id) =~= g.channels@.map_values(
                    |c: GuildChannel| c.id,
                ));
                assert(channel_ids(cl.channels@) == channel_ids(g.channels@));
                assert(cl.roles@.map_values(|r: Role| r.id) =~= g.roles@.map_values(
                    |r: Role| r.id,
                ));
                assert(role_ids(cl.roles@) == role_ids(g.roles@));
                assert forall|i: int|
                    0 <= i < g.channels@.len() implies cache.channels_guild@.contains_key(
                    (#[trigger] g.channels@[i]).id,
                ) by {
                    lemma_channels_fold_contains(old(cache).channels_guild@, g.id, cl.channels@, i);
                    assert(cl.channels@[i].id == g.channels@[i].id);
                }
                assert forall|i: int|
                    0 <= i < g.roles@.len() implies cache.roles@.contains_key(
                    (#[trigger] g.roles@[i]).id,
                ) by {
                    lemma_roles_fold_contains(old(cache).roles@, g.id, cl.roles@, i);
                    assert(cl.roles@[i].id == g.roles@[i].id);
                }
                assert forall|i: int|
                    0 <= i < g.emojis@.len() implies cache.emojis@.contains_key(
                    (#[trigger] g.emojis@[i]).id,
                ) by {
                    lemma_emojis_fold_contains(
                        old(cache).emojis@,
                        Set::<u64>::empty(),
                        g.id,
                        cl.emojis@,
                        i,
                    );
                    assert(cl.emojis@[i].id == g.emojis@[i].id);
                }
                assert forall|i: int|
                    0 <= i < g.members@.len() implies cache.members@.contains_key(
                    member_key(g.id, (#[trigger] g.members@[i]).user.id),
                ) by {
                    lemma_members_fold_contains(
                        old(cache).members@,
                        Set::<u64>::empty(),
                        g.id,
                        cl.members@,
                        i,
                    );
                    assert(cl.members@[i].user.id == g.members@[i].user.id);
                }
            }
        }
    }
}

impl UpdateCache for ChannelCreate {
    fn update(&self, cache: &mut InMemoryCache)
        ensures
            (spec_wants(old(cache).config, ResourceType::Channel) && self.0.guild_id is Some)
                ==> {
                let g = self.0.guild_id.unwrap();
                &&& final(cache).channels_guild@.dom() == old(cache).channels_guild@.dom().insert(self.0.id)
                &&& channel_eq(
                    final(cache).channels_guild@[self.0.id].data,
                    channel_with_guild(self.0, g),
                )
                &&& forall|k: u64|
                    k != self.0.id && old(cache).channels_guild@.contains_key(k) ==> final(cache).channels_guild@[k] == old(cache).channels_guild@[k]
                &&& set_of(final(cache).guild_channels@, g) == set_of(
                    old(cache).guild_channels@,
                    g,
                ).insert(self.0.id)
                &&& forall|h: u64|
                    h != g ==> set_of(final(cache).guild_channels@, h) == set_of(
                        old(cache).guild_channels@,
                        h,
                    )
            },
            (!spec_wants(old(cache).config, ResourceType::Channel) || self.0.guild_id is None)
                ==> *final(cache) == *old(cache),
            final(cache).channels_private == old(cache).channels_private,
            final(cache).current_user == old(cache).current_user,
            final(cache).emojis == old(cache).emojis,
            final(cache).groups == old(cache).groups,
            final(cache).guilds == old(cache).guilds,
            final(cache).guild_emojis == old(cache).guild_emojis,
            final(cache).guild_members == old(cache).guild_members,
            final(cache).guild_roles == old(cache).guild_roles,
            final(cache).members == old(cache).members,
            final(cache).messages == old(cache).messages,
            final(cache).roles == old(cache).roles,
            final(cache).unavailable_guilds == old(cache).unavailable_guilds,
            final(cache).users == old(cache).users,
            final(cache).metrics.messages == old(cache).metrics.messages,
    {
        if cache.wants(ResourceType::Channel) {
            // A guild channel delivered outside a guild payload must name
            // its guild; one that does not is rejected.
            match self.0.guild_id {
                Some(guild_id) => {
                    cache.cache_guild_channel(guild_id, self.0.clone());
                },
                None => {},
            }
        }
    }
}

impl UpdateCache for ChannelDelete {
    fn update(&self, cache: &mut InMemoryCache)
        ensures
            spec_wants(old(cache).config, ResourceType::Channel) ==> final(cache).channels_guild@
                == old(cache).channels_guild@.remove(self.0.id) && ({
                let m = old(cache).channels_guild@;
                if m.contains_key(self.0.id) {
                    let g = m[self.0.id].guild_id;
                    &&& final(cache).guild_channels@.dom() == old(cache).guild_channels@.dom()
                    &&& set_of(final(cache).guild_channels@, g) == set_of(
                        old(cache).guild_channels@,
                        g,
                    ).remove(self.0.id)
                    &&& forall|h: u64|
                        h != g ==> set_of(final(cache).guild_channels@, h) == set_of(
                            old(cache).guild_channels@,
                            h,
                        )
                } else {
                    final(cache).guild_channels == old(cache).guild_channels
                }
            }),
            !spec_wants(old(cache).config, ResourceType::Channel) ==> *final(cache) == *old(cache),
            final(cache).channels_private == old(cache).channels_private,
            final(cache).current_user == old(cache).current_user,
            final(cache).emojis == old(cache).emojis,
            final(cache).groups == old(cache).groups,
            final(cache).guilds == old(cache).guilds,
            final(cache).guild_emojis == old(cache).guild_emojis,
            final(cache).guild_members == old(cache).guild_members,
            final(cache).guild_roles == old(cache).guild_roles,
            final(cache).members == old(cache).members,
            final(cache).messages == old(cache).messages,
            final(cache).roles == old(cache).roles,
            final(cache).unavailable_guilds == old(cache).unavailable_guilds,
            final(cache).users == old(cache).users,
            final(cache).metrics.messages == old(cache).metrics.messages,
    {
        if cache.wants(ResourceType::Channel) {
            cache.delete_guild_channel(self.0.id);
        }
    }
}

impl UpdateCache for RoleCreate {
    fn update(&self, cache: &mut InMemoryCache)
        ensures
            spec_wants(old(cache).config, ResourceType::Role) ==> {
                &&& final(cache).roles@.dom() == old(cache).roles@.dom().insert(self.role.id)
                &&& role_eq(final(cache).roles@[self.role.id].data, self.role)
                &&& forall|k: u64|
                    k != self.role.id && old(cache).roles@.contains_key(k) ==> final(cache).roles@[k] == old(cache).roles@[k]
                &&& set_of(final(cache).guild_roles@, self.guild_id) == set_of(
                    old(cache).guild_roles@,
                    self.guild_id,
                ).insert(self.role.id)
                &&& forall|h: u64|
                    h != self.guild_id ==> set_of(final(cache).guild_roles@, h) == set_of(
                        old(cache).guild_roles@,
                        h,
                    )
            },
            !spec_wants(old(cache).config, ResourceType::Role) ==> *final(cache) == *old(cache),
            final(cache).channels_guild == old(cache).channels_guild,
            final(cache).channels_private == old(cache).channels_private,
            final(cache).current_user == old(cache).current_user,
            final(cache).emojis == old(cache).emojis,
            final(cache).groups == old(cache).groups,
            final(cache).guilds == old(cache).guilds,
            final(cache).guild_channels == old(cache).guild_channels,
            final(cache).guild_emojis == old(cache).guild_emojis,
            final(cache).guild_members == old(cache).guild_members,
            final(cache).members == old(cache).members,
            final(cache).messages == old(cache).messages,
            final(cache).unavailable_guilds == old(cache).unavailable_guilds,
            final(cache).users == old(cache).users,
            final(cache).metrics.messages == old(cache).metrics.messages,
    {
        if cache.wants(ResourceType::Role) {
            cache.cache_role(self.guild_id, self.role.clone());
        }
    }
}

impl UpdateCache for RoleUpdate {
    fn update(&self, cache: &mut InMemoryCache)
        ensures
            spec_wants(old(cache).config, ResourceType::Role) ==> {
                &&& final(cache).roles@.dom() == old(cache).roles@.dom().insert(self.role.id)
                &&& role_eq(final(cache).roles@[self.role.id].data, self.role)
                &&& forall|k: u64|
                    k != self.role.id && old(cache).roles@.contains_key(k) ==> final(cache).roles@[k] == old(cache).roles@[k]
                &&& set_of(final(cache).guild_roles@, self.guild_id) == set_of(
                    old(cache).guild_roles@,
                    self.guild_id,
                ).insert(self.role.id)
                &&& forall|h: u64|
                    h != self.guild_id ==> set_of(final(cache).guild_roles@, h) == set_of(
                        old(cache).guild_roles@,
                        h,
                    )
            },
            !spec_wants(old(cache).config, ResourceType::Role) ==> *final(cache) == *old(cache),
            final(cache).channels_guild == old(cache).channels_guild,
            final(cache).channels_private == old(cache).channels_private,
            final(cache).current_user == old(cache).current_user,
            final(cache).emojis == old(cache).emojis,
            final(cache).groups == old(cache).groups,
            final(cache).guilds == old(cache).guilds,
            final(cache).guild_channels == old(cache).guild_channels,
            final(cache).guild_emojis == old(cache).guild_emojis,
            final(cache).guild_members == old(cache).guild_members,
            final(cache).members == old(cache).members,
            final(cache).messages == old(cache).messages,
            final(cache).unavailable_guilds == old(cache).unavailable_guilds,
            final(cache).users == old(cache).users,
            final(cache).metrics.messages == old(cache).metrics.messages,
    {
        if cache.wants(ResourceType::Role) {
            cache.cache_role(self.guild_id, self.role.clone());
        }
    }
}

impl UpdateCache for MemberAdd {
    fn update(&self, cache: &mut InMemoryCache)
        ensures
            spec_wants(old(cache).config, ResourceType::Member) ==> ({
                let gid = self.0.guild_id;
                let uid = self.0.user.id;
                let k = member_key(gid, uid);
                if old(cache).members@.contains_key(k) && member_matches(
                    old(cache).members@[k],
                    self.0,
                ) {
                    *final(cache) == *old(cache)
                } else {
                    &&& final(cache).members@.dom() == old(cache).members@.dom().insert(k)
                    &&& member_matches(final(cache).members@[k], self.0)
                    &&& forall|j: u128|
                        j != k && old(cache).members@.contains_key(j) ==> final(cache).members@[j] == old(cache).members@[j]
                    &&& set_of(final(cache).guild_members@, gid) == set_of(
                        old(cache).guild_members@,
                        gid,
                    ).insert(uid)
                    &&& forall|h: u64|
                        h != gid ==> set_of(final(cache).guild_members@, h) == set_of(
                            old(cache).guild_members@,
                            h,
                        )
                    &&& final(cache).users@.dom() == old(cache).users@.dom().insert(uid)
                    &&& tracked_of(final(cache).users@, uid) == tracked_of(
                        old(cache).users@,
                        uid,
                    ).insert(gid)
                    &&& (final(cache).users@[uid].0 == old(cache).users@[uid].0 || user_eq(
                        final(cache).users@[uid].0,
                        self.0.user,
                    ))
                    &&& forall|k2: u64|
                        k2 != uid && old(cache).users@.contains_key(k2) ==> final(cache).users@[k2] == old(cache).users@[k2]
                }
            }),
            !spec_wants(old(cache).config, ResourceType::Member) ==> *final(cache) == *old(cache),
            final(cache).channels_guild == old(cache).channels_guild,
            final(cache).channels_private == old(cache).channels_private,
            final(cache).current_user == old(cache).current_user,
            final(cache).emojis == old(cache).emojis,
            final(cache).groups == old(cache).groups,
            final(cache).guilds == old(cache).guilds,
            final(cache).guild_channels == old(cache).guild_channels,
            final(cache).guild_emojis == old(cache).guild_emojis,
            final(cache).guild_roles == old(cache).guild_roles,
            final(cache).messages == old(cache).messages,
            final(cache).roles == old(cache).roles,
            final(cache).unavailable_guilds == old(cache).unavailable_guilds,
            final(cache).metrics.messages == old(cache).metrics.messages,
    {
        if cache.wants(ResourceType::Member) {
            cache.cache_member(self.0.guild_id, self.0.clone());
        }
    }
}

impl UpdateCache for GuildEmojisUpdate {
    fn update(&self, cache: &mut InMemoryCache)
        ensures
            spec_wants(old(cache).config, ResourceType::Emoji) ==> {
                &&& forall|i: int|
                    0 <= i < self.emojis@.len() ==> final(cache).emojis@.contains_key(
                        (#[trigger] self.emojis@[i]).id,
                    )
                &&& forall|h: u64|
                    h != self.guild_id ==> set_of(final(cache).guild_emojis@, h) == set_of(
                        old(cache).guild_emojis@,
                        h,
                    )
                &&& users_grown(old(cache).users@, final(cache).users@, self.guild_id)
            },
            !spec_wants(old(cache).config, ResourceType::Emoji) ==> *final(cache) == *old(cache),
            final(cache).channels_guild == old(cache).channels_guild,
            final(cache).channels_private == old(cache).channels_private,
            final(cache).current_user == old(cache).current_user,
            final(cache).groups == old(cache).groups,
            final(cache).guilds == old(cache).guilds,
            final(cache).guild_channels == old(cache).guild_channels,
            final(cache).guild_members == old(cache).guild_members,
            final(cache).guild_roles == old(cache).guild_roles,
            final(cache).members == old(cache).members,
            final(cache).messages == old(cache).messages,
            final(cache).roles == old(cache).roles,
            final(cache).unavailable_guilds == old(cache).unavailable_guilds,
            final(cache).metrics.messages == old(cache).metrics.messages,
    {
        if cache.wants(ResourceType::Emoji) {
            let payload = copy_emojis(&self.emojis);
            let ghost cl = payload;
            cache.cache_emojis(self.guild_id, payload);
            proof {
                assert forall|i: int|
                    0 <= i < self.emojis@.len() implies cache.emojis@.contains_key(
                    (#[trigger] self.emojis@[i]).id,
                ) by {
                    lemma_emojis_fold_contains(
                        old(cache).emojis@,
                        set_of(old(cache).guild_emojis@, self.guild_id),
                        self.guild_id,
                        cl@,
                        i,
                    );
                    assert(cl@[i].id == self.emojis@[i].id);
                }
            }
        }
    }
}

impl UpdateCache for MessageCreate {
    fn update(&self, cache: &mut InMemoryCache)
        ensures
            spec_wants(old(cache).config, ResourceType::Message) ==> ({
                let cid = self.0.channel_id;
                let before = ring_of(old(cache).messages@, cid);
                let after = ring_of(final(cache).messages@, cid);
                &&& final(cache).messages@.dom() == old(cache).messages@.dom().insert(cid)
                &&& after.len() == (if before.len() == old(cache).config.message_cache_size {
                    before.len() as int
                } else {
                    before.len() as int + 1
                })
                &&& (after.len() > 0 ==> after[0].id == self.0.id && after[0].channel_id == cid
                    && after[0].author == self.0.author.id)
                &&& forall|j: int| 1 <= j < after.len() ==> after[j] == before[j - 1]
                &&& forall|c: u64|
                    c != cid ==> ring_of(final(cache).messages@, c) == ring_of(
                        old(cache).messages@,
                        c,
                    )
            }),
            !spec_wants(old(cache).config, ResourceType::Message) ==> *final(cache) == *old(cache),
            final(cache).channels_guild == old(cache).channels_guild,
            final(cache).channels_private == old(cache).channels_private,
            final(cache).current_user == old(cache).current_user,
            final(cache).emojis == old(cache).emojis,
            final(cache).groups == old(cache).groups,
            final(cache).guilds == old(cache).guilds,
            final(cache).guild_channels == old(cache).guild_channels,
            final(cache).guild_emojis == old(cache).guild_emojis,
            final(cache).guild_members == old(cache).guild_members,
            final(cache).guild_roles == old(cache).guild_roles,
            final(cache).members == old(cache).members,
            final(cache).metrics == old(cache).metrics,
            final(cache).roles == old(cache).roles,
            final(cache).unavailable_guilds == old(cache).unavailable_guilds,
            final(cache).users == old(cache).users,
    {
        if cache.wants(ResourceType::Message) {
            cache.cache_message(self.0.clone());
        }
    }
}

impl InMemoryCache {
    /// Update the cache with an event from the gateway.
    pub fn update(&mut self, value: &impl UpdateCache)
        requires
            old(self).wf(),
        ensures
            final(self).wf(),
            final(self).config == old(self).config,
    {
        value.update(self);
    }
}

} // verus!
