//! The concurrent-store layer: the primary per-id indices, the guild-scoped
//! secondary indices, and the read API. All mutation goes through the upsert
//! and delete engine built on top of this struct.
use vstd::prelude::*;

use crate::config::{default_config, Config, ResourceType};
use crate::model::channel::{
    channel_eq, group_eq, private_channel_eq, Group, GuildChannel, PrivateChannel,
};
use crate::model::emoji::{cached_emoji_eq, CachedEmoji};
use crate::model::guild::{cached_guild_eq, CachedGuild};
use crate::model::member::{cached_member_eq, member_key, member_key_exec, CachedMember};
use crate::model::message::CachedMessage;
use crate::model::role::{role_eq, Role};
use crate::model::user::{user_eq, CurrentUser, User};
use crate::stats::{zero_metrics, Metrics};
use std::collections::{BTreeSet, HashMap, HashSet, VecDeque};
use std::ops::Index;

verus! {

broadcast use vstd::std_specs::hash::group_hash_axioms, vstd::std_specs::btree::group_btree_axioms;

/// An entity paired with the identifier of the guild that owns it, so that
/// the owner is found in the same lookup as the entity.
#[derive(Debug)]
pub struct GuildItem<T> {
    pub data: T,
    pub guild_id: u64,
}

/// The entity-id set a secondary index holds for a guild; empty when the
/// guild has no entry.
pub open spec fn set_of(m: Map<u64, HashSet<u64>>, g: u64) -> Set<u64> {
    if m.contains_key(g) {
        m[g]@
    } else {
        Set::empty()
    }
}

/// The guild set a user is tracked in; empty when the user is not cached.
pub open spec fn tracked_of(m: Map<u64, (User, BTreeSet<u64>)>, u: u64) -> Set<u64> {
    if m.contains_key(u) {
        m[u].1@
    } else {
        Set::empty()
    }
}

/// The message ring of a channel, newest first; empty when the channel has
/// no entry.
pub open spec fn ring_of(m: Map<u64, VecDeque<CachedMessage>>, c: u64) -> Seq<CachedMessage> {
    if m.contains_key(c) {
        m[c]@
    } else {
        Seq::empty()
    }
}

/// An in-process cache of gateway state.
///
/// Every index is keyed by entity id; members are keyed by the combined
/// guild/user key. Reads hand back owned copies, so a caller may hold a
/// result across later mutations.
#[derive(Debug)]
pub struct InMemoryCache {
    pub config: Config,
    pub channels_guild: HashMap<u64, GuildItem<GuildChannel>>,
    pub channels_private: HashMap<u64, PrivateChannel>,
    pub current_user: Option<CurrentUser>,
    pub emojis: HashMap<u64, GuildItem<CachedEmoji>>,
    pub groups: HashMap<u64, Group>,
    pub guilds: HashMap<u64, CachedGuild>,
    pub guild_channels: HashMap<u64, HashSet<u64>>,
    pub guild_emojis: HashMap<u64, HashSet<u64>>,
    pub guild_members: HashMap<u64, HashSet<u64>>,
    pub guild_roles: HashMap<u64, HashSet<u64>>,
    pub members: HashMap<u128, CachedMember>,
    pub messages: HashMap<u64, VecDeque<CachedMessage>>,
    pub roles: HashMap<u64, GuildItem<Role>>,
    pub unavailable_guilds: HashSet<u64>,
    pub users: HashMap<u64, (User, BTreeSet<u64>)>,
    pub metrics: Metrics,
}

impl InMemoryCache {
    /// Well-formedness of the store.
    ///
    /// The counters equal the cardinalities of their primary indices — on
    /// every path, including the full-snapshot rebuild, which clears a
    /// guild's secondary sets without touching the counters, since the
    /// primary entries it leaves behind stay cached. A guild is never both
    /// cached and marked unavailable; a cached user is tracked in at least
    /// one guild; every primary entry carries its own key; a stored guild
    /// channel has its owner back-filled; no message ring exceeds the
    /// configured capacity.
    pub open spec fn wf(&self) -> bool {
        &&& self.metrics.channels_guild == self.channels_guild@.len()
        &&& self.metrics.channels_private == self.channels_private@.len()
        &&& self.metrics.emojis == self.emojis@.len()
        &&& self.metrics.guilds == self.guilds@.len()
        &&& self.metrics.members == self.members@.len()
        &&& self.metrics.roles == self.roles@.len()
        &&& self.metrics.unavailable_guilds == self.unavailable_guilds@.len()
        &&& self.metrics.users == self.users@.len()
        &&& self.unavailable_guilds@.finite()
        &&& self.guilds@.dom().disjoint(self.unavailable_guilds@)
        &&& forall|u: u64|
            self.users@.contains_key(u) ==> !(#[trigger] self.users@[u]).1@.is_empty()
        &&& forall|u: u64|
            self.users@.contains_key(u) ==> (#[trigger] self.users@[u]).0.id == u
        &&& forall|g: u64| self.guilds@.contains_key(g) ==> (#[trigger] self.guilds@[g]).id == g
        &&& forall|r: u64|
            self.roles@.contains_key(r) ==> (#[trigger] self.roles@[r]).data.id == r
        &&& forall|c: u64|
            self.channels_guild@.contains_key(c) ==> {
                let item = #[trigger] self.channels_guild@[c];
                item.data.id == c && item.data.guild_id == Some(item.guild_id)
            }
        &&& forall|e: u64|
            self.emojis@.contains_key(e) ==> (#[trigger] self.emojis@[e]).data.id == e
        &&& forall|k: u128|
            self.members@.contains_key(k) ==> {
                let m = #[trigger] self.members@[k];
                member_key(m.guild_id, m.user_id) == k
            }
        &&& forall|c: u64|
            self.messages@.contains_key(c) ==> (#[trigger] self.messages@[c])@.len()
                <= self.config.message_cache_size
    }

    /// Every index of the store is empty and every counter zero.
    pub open spec fn is_empty_state(&self) -> bool {
        &&& self.channels_guild@ == Map::<u64, GuildItem<GuildChannel>>::empty()
        &&& self.channels_private@ == Map::<u64, PrivateChannel>::empty()
        &&& self.current_user is None
        &&& self.emojis@ == Map::<u64, GuildItem<CachedEmoji>>::empty()
        &&& self.groups@ == Map::<u64, Group>::empty()
        &&& self.guilds@ == Map::<u64, CachedGuild>::empty()
        &&& self.guild_channels@ == Map::<u64, HashSet<u64>>::empty()
        &&& self.guild_emojis@ == Map::<u64, HashSet<u64>>::empty()
        &&& self.guild_members@ == Map::<u64, HashSet<u64>>::empty()
        &&& self.guild_roles@ == Map::<u64, HashSet<u64>>::empty()
        &&& self.members@ == Map::<u128, CachedMember>::empty()
        &&& self.messages@ == Map::<u64, VecDeque<CachedMessage>>::empty()
        &&& self.roles@ == Map::<u64, GuildItem<Role>>::empty()
        &&& self.unavailable_guilds@ == Set::<u64>::empty()
        &&& self.users@ == Map::<u64, (User, BTreeSet<u64>)>::empty()
        &&& self.metrics == zero_metrics()
    }

    /// Creates a new, empty cache with the given configuration.
    pub fn new_with_config(config: Config) -> (r: InMemoryCache)
        ensures
            r.wf(),
            r.is_empty_state(),
            r.config == config,
    {
        InMemoryCache {
            config,
            channels_guild: HashMap::new(),
            channels_private: HashMap::new(),
            current_user: None,
            emojis: HashMap::new(),
            groups: HashMap::new(),
            guilds: HashMap::new(),
            guild_channels: HashMap::new(),
            guild_emojis: HashMap::new(),
            guild_members: HashMap::new(),
            guild_roles: HashMap::new(),
            members: HashMap::new(),
            messages: HashMap::new(),
            roles: HashMap::new(),
            unavailable_guilds: HashSet::new(),
            users: HashMap::new(),
            metrics: Metrics::default(),
        }
    }

    /// Creates a new, empty cache with the default configuration.
    pub fn new() -> (r: InMemoryCache)
        ensures
            r.wf(),
            r.is_empty_state(),
            r.config == default_config(),
    {
        Self::new_with_config(Config::new())
    }

    /// Create a new builder to configure and construct a cache.
    pub fn builder() -> (r: InMemoryCacheBuilder)
        ensures
            r.config == default_config(),
    {
        InMemoryCacheBuilder { config: Config::new() }
    }

    /// Returns a copy of the cache's configuration.
    pub fn config(&self) -> (r: Config)
        ensures
            r == self.config,
    {
        self.config
    }

    /// Whether the cache is configured to hold a resource type.
    pub fn wants(&self, r: ResourceType) -> (b: bool)
        ensures
            b == crate::config::spec_wants(self.config, r),
    {
        self.config.wants(r)
    }

    /// Gets a channel by id.
    pub fn guild_channel(&self, channel_id: u64) -> (r: Option<GuildChannel>)
        ensures
            match r {
                Some(c) => self.channels_guild@.contains_key(channel_id) && channel_eq(
                    c,
                    self.channels_guild@[channel_id].data,
                ),
                None => !self.channels_guild@.contains_key(channel_id),
            },
    {
        match self.channels_guild.get(&channel_id) {
            Some(item) => Some(item.data.clone()),
            None => None,
        }
    }

    /// Gets the current user.
    pub fn current_user(&self) -> (r: Option<CurrentUser>)
        ensures
            match r {
                Some(u) => self.current_user is Some
                    && crate::model::user::current_user_eq(u, self.current_user.unwrap()),
                None => self.current_user is None,
            },
    {
        match &self.current_user {
            Some(u) => Some(u.clone()),
            None => None,
        }
    }

    /// Gets an emoji by id.
    pub fn emoji(&self, emoji_id: u64) -> (r: Option<CachedEmoji>)
        ensures
            match r {
                Some(e) => self.emojis@.contains_key(emoji_id) && cached_emoji_eq(
                    e,
                    self.emojis@[emoji_id].data,
                ),
                None => !self.emojis@.contains_key(emoji_id),
            },
    {
        match self.emojis.get(&emoji_id) {
            Some(item) => Some(item.data.clone()),
            None => None,
        }
    }

    /// Gets a group by channel id.
    pub fn group(&self, channel_id: u64) -> (r: Option<Group>)
        ensures
            match r {
                Some(g) => self.groups@.contains_key(channel_id) && group_eq(
                    g,
                    self.groups@[channel_id],
                ),
                None => !self.groups@.contains_key(channel_id),
            },
    {
        match self.groups.get(&channel_id) {
            Some(g) => Some(g.clone()),
            None => None,
        }
    }

    /// Gets a guild by id.
    pub fn guild(&self, guild_id: u64) -> (r: Option<CachedGuild>)
        ensures
            match r {
                Some(g) => self.guilds@.contains_key(guild_id) && cached_guild_eq(
                    g,
                    self.guilds@[guild_id],
                ),
                None => !self.guilds@.contains_key(guild_id),
            },
    {
        match self.guilds.get(&guild_id) {
            Some(g) => Some(g.clone()),
            None => None,
        }
    }

    /// Gets the set of channels in a guild.
    pub fn guild_channels(&self, guild_id: u64) -> (r: Option<HashSet<u64>>)
        ensures
            match r {
                Some(s) => self.guild_channels@.contains_key(guild_id) && s@
                    == self.guild_channels@[guild_id]@,
                None => !self.guild_channels@.contains_key(guild_id),
            },
    {
        match self.guild_channels.get(&guild_id) {
            Some(s) => Some(copy_id_set(s)),
            None => None,
        }
    }

    /// Gets the set of emojis in a guild.
    pub fn guild_emojis(&self, guild_id: u64) -> (r: Option<HashSet<u64>>)
        ensures
            match r {
                Some(s) => self.guild_emojis@.contains_key(guild_id) && s@
                    == self.guild_emojis@[guild_id]@,
                None => !self.guild_emojis@.contains_key(guild_id),
            },
    {
        match self.guild_emojis.get(&guild_id) {
            Some(s) => Some(copy_id_set(s)),
            None => None,
        }
    }

    /// Gets the set of members in a guild.
    pub fn guild_members(&self, guild_id: u64) -> (r: Option<HashSet<u64>>)
        ensures
            match r {
                Some(s) => self.guild_members@.contains_key(guild_id) && s@
                    == self.guild_members@[guild_id]@,
                None => !self.guild_members@.contains_key(guild_id),
            },
    {
        match self.guild_members.get(&guild_id) {
            Some(s) => Some(copy_id_set(s)),
            None => None,
        }
    }

    /// Gets the set of roles in a guild.
    pub fn guild_roles(&self, guild_id: u64) -> (r: Option<HashSet<u64>>)
        ensures
            match r {
                Some(s) => self.guild_roles@.contains_key(guild_id) && s@
                    == self.guild_roles@[guild_id]@,
                None => !self.guild_roles@.contains_key(guild_id),
            },
    {
        match self.guild_roles.get(&guild_id) {
            Some(s) => Some(copy_id_set(s)),
            None => None,
        }
    }

    /// Gets a member by guild id and user id.
    pub fn member(&self, guild_id: u64, user_id: u64) -> (r: Option<CachedMember>)
        ensures
            match r {
                Some(m) => self.members@.contains_key(member_key(guild_id, user_id))
                    && cached_member_eq(m, self.members@[member_key(guild_id, user_id)]),
                None => !self.members@.contains_key(member_key(guild_id, user_id)),
            },
    {
        let key = member_key_exec(guild_id, user_id);
        match self.members.get(&key) {
            Some(m) => Some(m.clone()),
            None => None,
        }
    }

    /// Gets the earliest message of a channel: the last entry of its
    /// newest-first ring.
    pub fn first_message(&self, channel_id: u64) -> (r: Option<u64>)
        ensures
            match r {
                Some(id) => {
                    let ring = ring_of(self.messages@, channel_id);
                    ring.len() > 0 && id == ring.last().id
                },
                None => ring_of(self.messages@, channel_id).len() == 0,
            },
    {
        match self.messages.get(&channel_id) {
            Some(ring) => {
                if ring.len() > 0 {
                    Some(ring.index(ring.len() - 1).id)
                } else {
                    None
                }
            },
            None => None,
        }
    }

    /// Gets the latest message of a channel: the first entry of its
    /// newest-first ring.
    pub fn last_message(&self, channel_id: u64) -> (r: Option<u64>)
        ensures
            match r {
                Some(id) => {
                    let ring = ring_of(self.messages@, channel_id);
                    ring.len() > 0 && id == ring[0].id
                },
                None => ring_of(self.messages@, channel_id).len() == 0,
            },
    {
        match self.messages.get(&channel_id) {
            Some(ring) => {
                if ring.len() > 0 {
                    Some(ring.index(0).id)
                } else {
                    None
                }
            },
            None => None,
        }
    }

    /// Gets a private channel by the id of its first recipient.
    pub fn private_channel(&self, user_id: u64) -> (r: Option<PrivateChannel>)
        ensures
            match r {
                Some(c) => self.channels_private@.contains_key(user_id) && private_channel_eq(
                    c,
                    self.channels_private@[user_id],
                ),
                None => !self.channels_private@.contains_key(user_id),
            },
    {
        match self.channels_private.get(&user_id) {
            Some(c) => Some(c.clone()),
            None => None,
        }
    }

    /// Gets a role by id.
    pub fn role(&self, role_id: u64) -> (r: Option<Role>)
        ensures
            match r {
                Some(role) => self.roles@.contains_key(role_id) && role_eq(
                    role,
                    self.roles@[role_id].data,
                ),
                None => !self.roles@.contains_key(role_id),
            },
    {
        match self.roles.get(&role_id) {
            Some(item) => Some(item.data.clone()),
            None => None,
        }
    }

    /// Gets a user by id.
    pub fn user(&self, user_id: u64) -> (r: Option<User>)
        ensures
            match r {
                Some(u) => self.users@.contains_key(user_id) && user_eq(
                    u,
                    self.users@[user_id].0,
                ),
                None => !self.users@.contains_key(user_id),
            },
    {
        match self.users.get(&user_id) {
            Some(p) => Some(p.0.clone()),
            None => None,
        }
    }

    /// Gets a user together with the set of guilds it is tracked in.
    pub fn user_ref(&self, user_id: u64) -> (r: Option<&(User, BTreeSet<u64>)>)
        ensures
            match r {
                Some(p) => self.users@.contains_key(user_id) && *p == self.users@[user_id],
                None => !self.users@.contains_key(user_id),
            },
    {
        self.users.get(&user_id)
    }

    /// Clears the entire state of the cache. This is equal to creating a new
    /// empty cache with the same configuration.
    pub fn clear(&mut self)
        ensures
            final(self).wf(),
            final(self).is_empty_state(),
            final(self).config == old(self).config,
    {
        self.channels_guild.clear();
        self.channels_private.clear();
        self.current_user = None;
        self.emojis.clear();
        self.groups.clear();
        self.guilds.clear();
        self.guild_channels.clear();
        self.guild_emojis.clear();
        self.guild_members.clear();
        self.guild_roles.clear();
        self.members.clear();
        self.messages.clear();
        self.roles.clear();
        self.unavailable_guilds.clear();
        self.users.clear();
        self.metrics = Metrics::default();
    }
}

/// Builds a cache with adjusted configuration.
#[derive(Debug)]
pub struct InMemoryCacheBuilder {
    pub config: Config,
}

impl InMemoryCacheBuilder {
    /// A builder starting from the default configuration.
    pub fn new() -> (r: InMemoryCacheBuilder)
        ensures
            r.config == default_config(),
    {
        InMemoryCacheBuilder { config: Config::new() }
    }

    /// Sets the per-channel message ring capacity.
    pub fn message_cache_size(self, size: usize) -> (r: InMemoryCacheBuilder)
        ensures
            r.config.message_cache_size == size,
            r.config.resource_types == self.config.resource_types,
    {
        InMemoryCacheBuilder {
            config: Config { message_cache_size: size, resource_types: self.config.resource_types },
        }
    }

    /// Sets the interest mask.
    pub fn resource_types(self, mask: u64) -> (r: InMemoryCacheBuilder)
        ensures
            r.config.resource_types == mask,
            r.config.message_cache_size == self.config.message_cache_size,
    {
        InMemoryCacheBuilder {
            config: Config {
                message_cache_size: self.config.message_cache_size,
                resource_types: mask,
            },
        }
    }

    /// Builds the empty cache with the chosen configuration.
    pub fn build(self) -> (r: InMemoryCache)
        ensures
            r.wf(),
            r.is_empty_state(),
            r.config == self.config,
    {
        InMemoryCache::new_with_config(self.config)
    }
}

/// An owned copy of an identifier set, with the same contents.
pub fn copy_id_set(s: &HashSet<u64>) -> (r: HashSet<u64>)
    ensures
        r@ == s@,
{
    let mut r: HashSet<u64> = HashSet::new();
    for x in it: s.iter()
        invariant
            it.seq().unref().to_set() == s@,
            forall|y: u64| r@.contains(y) ==> s@.contains(y),
            forall|j: int| 0 <= j < it.index() ==> r@.contains(#[trigger] it.seq().unref()[j]),
        ensures
            r@ == s@,
    {
        proof {
            let i = it.index() as int;
            assert(*x == *it.seq()[i]);
            assert(it.seq().unref()[i] == *x);
            assert(it.seq().unref().contains(*x));
            assert(it.seq().unref().to_set().contains(*x));
        }
        r.insert(*x);
    }
    proof {
        assert(r@ =~= s@);
    }
    r
}

} // verus!
