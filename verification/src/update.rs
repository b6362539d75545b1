//! The upsert/delete engine: per-entity-type cache operations with
//! equality-based deduplication, secondary-index maintenance and counter
//! updates.
//!
//! Each operation's contract states the new store as a function of the old
//! one: the primary map becomes an `*_upsert` of itself, the owning guild's
//! secondary set gains or loses the entity id, and every other index is left
//! as it was. Counters stay equal to the cardinality of their index, which is
//! part of [`InMemoryCache::wf`].
use vstd::prelude::*;

use crate::cache::{ring_of, set_of, tracked_of, GuildItem, InMemoryCache};
use crate::model::channel::{
    channel_eq, channel_with_guild, group_eq, private_channel_eq, Group, GuildChannel,
    PrivateChannel,
};
use crate::model::emoji::{cached_of_emoji, emoji_matches, CachedEmoji, Emoji};
use crate::model::guild::{cached_of_guild, CachedGuild, Guild};
use crate::model::member::{
    cached_of_member, member_key, member_key_exec, member_matches, partial_member_matches,
    CachedMember, Member, PartialMember,
};
use crate::model::message::{cached_of_message, CachedMessage, Message};
use crate::model::role::{role_eq, Role};
use crate::model::user::{user_eq, CurrentUser, User};
use std::collections::{BTreeSet, HashMap, HashSet, VecDeque};
use std::ops::Index;

verus! {

broadcast use vstd::std_specs::hash::group_hash_axioms, vstd::std_specs::btree::group_btree_axioms, vstd::laws_cmp::group_laws_cmp;

/// The identifiers of a sequence of roles.
pub open spec fn role_ids(rs: Seq<Role>) -> Set<u64> {
    rs.map_values(|r: Role| r.id).to_set()
}

/// Appending to an identifier sequence adds its identifier to the set.
pub proof fn lemma_ids_push_to_set(s: Seq<u64>, x: u64)
    ensures
        s.push(x).to_set() == s.to_set().insert(x),
{
    assert forall|y: u64| s.push(x).to_set().contains(y) implies s.to_set().insert(
        x,
    ).contains(y) by {
        let j = choose|j: int| 0 <= j < s.push(x).len() && s.push(x)[j] == y;
        if j < s.len() {
            assert(s[j] == y);
        }
    }
    assert forall|y: u64| s.to_set().insert(x).contains(y) implies s.push(x).to_set().contains(
        y,
    ) by {
        if y == x {
            assert(s.push(x)[s.len() as int] == y);
        } else {
            let j = choose|j: int| 0 <= j < s.len() && s[j] == y;
            assert(s.push(x)[j] == y);
        }
    }
    assert(s.push(x).to_set() =~= s.to_set().insert(x));
}

/// Appending a role to a payload sequence adds its id to the id set.
pub proof fn lemma_role_ids_snoc(rs: Seq<Role>, x: Role)
    ensures
        role_ids(rs.push(x)) == role_ids(rs).insert(x.id),
{
    assert(rs.push(x).map_values(|r: Role| r.id) =~= rs.map_values(|r: Role| r.id).push(x.id));
    lemma_ids_push_to_set(rs.map_values(|r: Role| r.id), x.id);
}

/// The role map after an upsert: unchanged when an entry with the same id
/// holds a semantically equal role, otherwise with the payload stored under
/// its id and tagged with the owning guild.
pub open spec fn role_upsert(
    m: Map<u64, GuildItem<Role>>,
    guild_id: u64,
    role: Role,
) -> Map<u64, GuildItem<Role>> {
    if m.contains_key(role.id) && role_eq(m[role.id].data, role) {
        m
    } else {
        m.insert(role.id, GuildItem { data: role, guild_id })
    }
}

/// The role map after upserting each payload of a sequence in order.
pub open spec fn roles_fold(
    m: Map<u64, GuildItem<Role>>,
    guild_id: u64,
    rs: Seq<Role>,
) -> Map<u64, GuildItem<Role>>
    decreases rs.len(),
{
    if rs.len() == 0 {
        m
    } else {
        roles_fold(role_upsert(m, guild_id, rs[0]), guild_id, rs.skip(1))
    }
}

/// Folding one more payload applies one more upsert.
pub proof fn lemma_roles_fold_snoc(m: Map<u64, GuildItem<Role>>, guild_id: u64, rs: Seq<Role>, x: Role)
    ensures
        roles_fold(m, guild_id, rs.push(x)) == role_upsert(roles_fold(m, guild_id, rs), guild_id, x),
    decreases rs.len(),
{
    let s = rs.push(x);
    assert(roles_fold(m, guild_id, s) == roles_fold(role_upsert(m, guild_id, s[0]), guild_id, s.skip(1)));
    if rs.len() == 0 {
        assert(s[0] == x);
        assert(s.skip(1) =~= Seq::<Role>::empty());
        assert(roles_fold(role_upsert(m, guild_id, x), guild_id, s.skip(1)) == role_upsert(
            m,
            guild_id,
            x,
        ));
        assert(roles_fold(m, guild_id, rs) == m);
    } else {
        assert(s[0] == rs[0]);
        assert(s.skip(1) =~= rs.skip(1).push(x));
        lemma_roles_fold_snoc(role_upsert(m, guild_id, rs[0]), guild_id, rs.skip(1), x);
        assert(roles_fold(m, guild_id, rs) == roles_fold(
            role_upsert(m, guild_id, rs[0]),
            guild_id,
            rs.skip(1),
        ));
    }
}

/// How one upsert changes the user index.
///
/// Without a guild context nothing is stored. With one, the user ends up
/// cached with the guild added to its tracked set; the stored account data is
/// replaced only when the incoming payload differs from it.
pub open spec fn users_upserted(
    old_m: Map<u64, (User, BTreeSet<u64>)>,
    new_m: Map<u64, (User, BTreeSet<u64>)>,
    user: User,
    guild_id: Option<u64>,
) -> bool {
    match guild_id {
        None => new_m == old_m,
        Some(g) => {
            &&& new_m.dom() == old_m.dom().insert(user.id)
            &&& tracked_of(new_m, user.id) == tracked_of(old_m, user.id).insert(g)
            &&& new_m[user.id].0 == (if old_m.contains_key(user.id) && user_eq(
                old_m[user.id].0,
                user,
            ) {
                old_m[user.id].0
            } else {
                user
            })
            &&& forall|k: u64|
                k != user.id && old_m.contains_key(k) ==> new_m[k] == old_m[k]
        },
    }
}

/// Inserts an entity id into a guild's secondary-index set, creating the set
/// when the guild has none yet.
pub(crate) fn index_insert(m: &mut HashMap<u64, HashSet<u64>>, g: u64, id: u64)
    ensures
        final(m)@.dom() == old(m)@.dom().insert(g),
        set_of(final(m)@, g) == set_of(old(m)@, g).insert(id),
        forall|h: u64| h != g && old(m)@.contains_key(h) ==> final(m)@[h] == old(m)@[h],
        forall|h: u64| h != g ==> set_of(final(m)@, h) == set_of(old(m)@, h),
{
    let mut s: HashSet<u64> = match m.remove(&g) {
        Some(s) => s,
        None => HashSet::new(),
    };
    s.insert(id);
    m.insert(g, s);
}

/// Removes an entity id from a guild's secondary-index set, if either
/// exists; reports whether the id was present.
fn index_remove(m: &mut HashMap<u64, HashSet<u64>>, g: u64, id: u64) -> (removed: bool)
    ensures
        final(m)@.dom() == old(m)@.dom(),
        set_of(final(m)@, g) == set_of(old(m)@, g).remove(id),
        forall|h: u64| h != g && old(m)@.contains_key(h) ==> final(m)@[h] == old(m)@[h],
        forall|h: u64| h != g ==> set_of(final(m)@, h) == set_of(old(m)@, h),
        removed == set_of(old(m)@, g).contains(id),
{
    match m.remove(&g) {
        Some(mut s) => {
            let removed = s.remove(&id);
            m.insert(g, s);
            removed
        },
        None => {
            proof {
                assert(set_of(old(m)@, g).remove(id) =~= set_of(old(m)@, g));
            }
            false
        },
    }
}

/// Replaces a guild's secondary-index set with an empty one, creating it
/// when the guild has none yet. Used by the full-snapshot rebuild, for which
/// a guild payload's entity lists are authoritative.
fn index_clear(m: &mut HashMap<u64, HashSet<u64>>, g: u64)
    ensures
        final(m)@.dom() == old(m)@.dom().insert(g),
        set_of(final(m)@, g) == Set::<u64>::empty(),
        forall|h: u64| h != g && old(m)@.contains_key(h) ==> final(m)@[h] == old(m)@[h],
        forall|h: u64| h != g ==> set_of(final(m)@, h) == set_of(old(m)@, h),
{
    if m.contains_key(&g) {
        m.remove(&g);
    }
    m.insert(g, HashSet::new());
}

impl InMemoryCache {
    /// Replaces the current-user singleton.
    pub fn cache_current_user(&mut self, current_user: CurrentUser)
        requires
            old(self).wf(),
        ensures
            final(self).wf(),
            final(self).current_user == Some(current_user),
            final(self).channels_guild == old(self).channels_guild,
            final(self).channels_private == old(self).channels_private,
            final(self).config == old(self).config,
            final(self).emojis == old(self).emojis,
            final(self).groups == old(self).groups,
            final(self).guilds == old(self).guilds,
            final(self).guild_channels == old(self).guild_channels,
            final(self).guild_emojis == old(self).guild_emojis,
            final(self).guild_members == old(self).guild_members,
            final(self).guild_roles == old(self).guild_roles,
            final(self).members == old(self).members,
            final(self).messages == old(self).messages,
            final(self).metrics == old(self).metrics,
            final(self).roles == old(self).roles,
            final(self).unavailable_guilds == old(self).unavailable_guilds,
            final(self).users == old(self).users,
    {
        self.current_user = Some(current_user);
    }

    /// Upserts a user, optionally tracking a guild membership.
    ///
    /// A payload equal to the stored user only adds the guild to the user's
    /// tracked set; a changed payload replaces the stored data and keeps the
    /// tracked set. Without a guild context the index is left untouched:
    /// this store never caches a user with no tracked guild, so a user
    /// exists in the index exactly as long as its tracked set is non-empty
    /// (which [`InMemoryCache::wf`] pins down), and a restored user record
    /// with an empty set is rejected as malformed. Returns the user as
    /// cached.
    pub fn cache_user(&mut self, user: User, guild_id: Option<u64>) -> (out: User)
        requires
            old(self).wf(),
        ensures
            final(self).wf(),
            users_upserted(old(self).users@, final(self).users@, user, guild_id),
            user_eq(out, user),
            final(self).channels_guild == old(self).channels_guild,
            final(self).channels_private == old(self).channels_private,
            final(self).config == old(self).config,
            final(self).current_user == old(self).current_user,
            final(self).emojis == old(self).emojis,
            final(self).groups == old(self).groups,
            final(self).guilds == old(self).guilds,
            final(self).guild_channels == old(self).guild_channels,
            final(self).guild_emojis == old(self).guild_emojis,
            final(self).guild_members == old(self).guild_members,
            final(self).guild_roles == old(self).guild_roles,
            final(self).members == old(self).members,
            final(self).messages == old(self).messages,
            final(self).roles == old(self).roles,
            final(self).unavailable_guilds == old(self).unavailable_guilds,
            final(self).metrics.messages == old(self).metrics.messages,
    {
        let uid = user.id;
        match self.users.remove(&uid) {
            Some((stored, mut set)) => {
                if stored == user {
                    let out = stored.clone();
                    match guild_id {
                        Some(g) => {
                            set.insert(g);
                        },
                        None => {},
                    }
                    let ghost sv = set@;
                    self.users.insert(uid, (stored, set));
                    proof {
                        assert(self.users@.dom() =~= old(self).users@.dom().insert(uid));
                        if guild_id is None {
                            assert(self.users@ =~= old(self).users@);
                        } else {
                            assert(sv.contains(guild_id.unwrap()));
                        }
                        assert(!old(self).users@[uid].1@.is_empty());
                        assert(!sv.is_empty());
                        assert forall|u: u64| self.users@.contains_key(u) implies !(
                        #[trigger] self.users@[u]).1@.is_empty() by {
                            if u != uid {
                                assert(old(self).users@.contains_key(u));
                                assert(self.users@[u] == old(self).users@[u]);
                            } else {
                                assert(self.users@[u].1@ == sv);
                            }
                        }
                    }
                    out
                } else {
                    match guild_id {
                        Some(g) => {
                            set.insert(g);
                            let out = user.clone();
                            let ghost sv = set@;
                            self.users.insert(uid, (user, set));
                            proof {
                                assert(self.users@.dom() =~= old(
                                    self,
                                ).users@.dom().insert(uid));
                                assert(sv.contains(g));
                                assert(!sv.is_empty());
                                assert forall|u: u64| self.users@.contains_key(u) implies !(
                                #[trigger] self.users@[u]).1@.is_empty() by {
                                    if u != uid {
                                        assert(old(self).users@.contains_key(u));
                                        assert(self.users@[u] == old(self).users@[u]);
                                    } else {
                                        assert(self.users@[u].1@ == sv);
                                    }
                                }
                            }
                            out
                        },
                        None => {
                            self.users.insert(uid, (stored, set));
                            proof {
                                assert(self.users@ =~= old(self).users@);
                            }
                            user
                        },
                    }
                }
            },
            None => {
                match guild_id {
                    Some(g) => {
                        let mut set: BTreeSet<u64> = BTreeSet::new();
                        set.insert(g);
                        let out = user.clone();
                        let ghost sv = set@;
                        self.users.insert(uid, (user, set));
                        proof {
                            assert(vstd::std_specs::hash::spec_hash_map_len(&self.users)
                                == self.users@.len());
                        }
                        self.metrics.users = self.metrics.users + 1;
                        proof {
                            assert(tracked_of(self.users@, uid) =~= tracked_of(
                                old(self).users@,
                                uid,
                            ).insert(g));
                            assert(sv.contains(g));
                            assert(!sv.is_empty());
                            assert(self.users@.dom() =~= old(self).users@.dom().insert(uid));
                            assert forall|u: u64| self.users@.contains_key(u) implies !(
                            #[trigger] self.users@[u]).1@.is_empty() by {
                                if u != uid {
                                    assert(old(self).users@.contains_key(u));
                                    assert(self.users@[u] == old(self).users@[u]);
                                } else {
                                    assert(self.users@[u].1@ == sv);
                                }
                            }
                        }
                        out
                    },
                    None => {
                        proof {
                            assert(self.users@ =~= old(self).users@);
                        }
                        user
                    },
                }
            },
        }
    }

    /// Removes a guild from a user's tracked set; a user whose set becomes
    /// empty is removed from the store entirely.
    pub fn remove_user_from_guild(&mut self, user_id: u64, guild_id: u64)
        requires
            old(self).wf(),
        ensures
            final(self).wf(),
            tracked_of(final(self).users@, user_id) == tracked_of(
                old(self).users@,
                user_id,
            ).remove(guild_id),
            final(self).users@.contains_key(user_id) <==> !tracked_of(
                old(self).users@,
                user_id,
            ).remove(guild_id).is_empty(),
            final(self).users@.contains_key(user_id) ==> final(self).users@[user_id].0 == old(
                self,
            ).users@[user_id].0,
            forall|k: u64|
                k != user_id && old(self).users@.contains_key(k) ==> final(self).users@[k] == old(
                    self,
                ).users@[k],
            forall|k: u64|
                k != user_id ==> (final(self).users@.contains_key(k) <==> old(
                    self,
                ).users@.contains_key(k)),
            final(self).channels_guild == old(self).channels_guild,
            final(self).channels_private == old(self).channels_private,
            final(self).config == old(self).config,
            final(self).current_user == old(self).current_user,
            final(self).emojis == old(self).emojis,
            final(self).groups == old(self).groups,
            final(self).guilds == old(self).guilds,
            final(self).guild_channels == old(self).guild_channels,
            final(self).guild_emojis == old(self).guild_emojis,
            final(self).guild_members == old(self).guild_members,
            final(self).guild_roles == old(self).guild_roles,
            final(self).members == old(self).members,
            final(self).messages == old(self).messages,
            final(self).roles == old(self).roles,
            final(self).unavailable_guilds == old(self).unavailable_guilds,
            final(self).metrics.messages == old(self).metrics.messages,
    {
        match self.users.remove(&user_id) {
            Some((stored, mut set)) => {
                set.remove(&guild_id);
                if set.is_empty() {
                    self.metrics.users = self.metrics.users - 1;
                    proof {
                        assert(tracked_of(self.users@, user_id) =~= tracked_of(
                            old(self).users@,
                            user_id,
                        ).remove(guild_id));
                    }
                } else {
                    self.users.insert(user_id, (stored, set));
                    proof {
                        assert(self.users@.dom() =~= old(self).users@.dom());
                    }
                }
            },
            None => {
                proof {
                    assert(tracked_of(old(self).users@, user_id).remove(guild_id)
                        =~= Set::<u64>::empty());
                }
            },
        }
    }

    /// Upserts a role for a guild: the role id always joins the guild's role
    /// set, and the payload is stored unless an equal role is already cached.
    /// Returns the role as cached.
    pub fn cache_role(&mut self, guild_id: u64, role: Role) -> (out: Role)
        requires
            old(self).wf(),
        ensures
            final(self).wf(),
            final(self).roles@ == role_upsert(old(self).roles@, guild_id, role),
            final(self).guild_roles@.dom() == old(self).guild_roles@.dom().insert(guild_id),
            set_of(final(self).guild_roles@, guild_id) == set_of(
                old(self).guild_roles@,
                guild_id,
            ).insert(role.id),
            forall|h: u64|
                h != guild_id ==> set_of(final(self).guild_roles@, h) == set_of(
                    old(self).guild_roles@,
                    h,
                ),
            role_eq(out, role),
            final(self).channels_guild == old(self).channels_guild,
            final(self).channels_private == old(self).channels_private,
            final(self).config == old(self).config,
            final(self).current_user == old(self).current_user,
            final(self).emojis == old(self).emojis,
            final(self).groups == old(self).groups,
            final(self).guilds == old(self).guilds,
            final(self).guild_channels == old(self).guild_channels,
            final(self).guild_emojis == old(self).guild_emojis,
            final(self).guild_members == old(self).guild_members,
            final(self).members == old(self).members,
            final(self).messages == old(self).messages,
            final(self).unavailable_guilds == old(self).unavailable_guilds,
            final(self).users == old(self).users,
            final(self).metrics.messages == old(self).metrics.messages,
    {
        index_insert(&mut self.guild_roles, guild_id, role.id);
        match self.roles.remove(&role.id) {
            Some(item) => {
                if item.data == role {
                    let out = item.data.clone();
                    self.roles.insert(role.id, item);
                    proof {
                        assert(self.roles@ =~= old(self).roles@);
                    }
                    out
                } else {
                    let out = role.clone();
                    self.roles.insert(role.id, GuildItem { data: role, guild_id });
                    out
                }
            },
            None => {
                let out = role.clone();
                self.roles.insert(role.id, GuildItem { data: role, guild_id });
                proof {
                    assert(vstd::std_specs::hash::spec_hash_map_len(&self.roles)
                        == self.roles@.len());
                }
                self.metrics.roles = self.metrics.roles + 1;
                out
            },
        }
    }

    /// Upserts each role of a bulk payload in order.
    pub fn cache_roles(&mut self, guild_id: u64, roles: Vec<Role>)
        requires
            old(self).wf(),
        ensures
            final(self).wf(),
            final(self).roles@ == roles_fold(old(self).roles@, guild_id, roles@),
            set_of(final(self).guild_roles@, guild_id) == set_of(
                old(self).guild_roles@,
                guild_id,
            ).union(role_ids(roles@)),
            roles@.len() == 0 ==> final(self).guild_roles == old(self).guild_roles,
            roles@.len() > 0 ==> final(self).guild_roles@.dom() == old(
                self,
            ).guild_roles@.dom().insert(guild_id),
            forall|h: u64|
                h != guild_id ==> set_of(final(self).guild_roles@, h) == set_of(
                    old(self).guild_roles@,
                    h,
                ),
            final(self).channels_guild == old(self).channels_guild,
            final(self).channels_private == old(self).channels_private,
            final(self).config == old(self).config,
            final(self).current_user == old(self).current_user,
            final(self).emojis == old(self).emojis,
            final(self).groups == old(self).groups,
            final(self).guilds == old(self).guilds,
            final(self).guild_channels == old(self).guild_channels,
            final(self).guild_emojis == old(self).guild_emojis,
            final(self).guild_members == old(self).guild_members,
            final(self).members == old(self).members,
            final(self).messages == old(self).messages,
            final(self).unavailable_guilds == old(self).unavailable_guilds,
            final(self).users == old(self).users,
            final(self).metrics.messages == old(self).metrics.messages,
    {
        let ghost orig = *self;
        let ghost rs = roles@;
        proof {
            assert(role_ids(rs.take(0)) =~= Set::<u64>::empty());
            assert(set_of(self.guild_roles@, guild_id) =~= set_of(orig.guild_roles@, guild_id).union(
                role_ids(rs.take(0)),
            ));
        }
        for role in it: roles.into_iter()
            invariant
                it.seq() == rs,
                self.wf(),
                self.roles@ == roles_fold(orig.roles@, guild_id, rs.take(it.index() as int)),
                set_of(self.guild_roles@, guild_id) == set_of(orig.guild_roles@, guild_id).union(
                    role_ids(rs.take(it.index() as int)),
                ),
                it.index() == 0 ==> self.guild_roles == orig.guild_roles,
                it.index() > 0 ==> self.guild_roles@.dom() == orig.guild_roles@.dom().insert(
                    guild_id,
                ),
                forall|h: u64|
                    h != guild_id ==> set_of(self.guild_roles@, h) == set_of(orig.guild_roles@, h),
                self.channels_guild == orig.channels_guild,
                self.channels_private == orig.channels_private,
                self.config == orig.config,
                self.current_user == orig.current_user,
                self.emojis == orig.emojis,
                self.groups == orig.groups,
                self.guilds == orig.guilds,
                self.guild_channels == orig.guild_channels,
                self.guild_emojis == orig.guild_emojis,
                self.guild_members == orig.guild_members,
                self.members == orig.members,
                self.messages == orig.messages,
                self.unavailable_guilds == orig.unavailable_guilds,
                self.users == orig.users,
                self.metrics.messages == orig.metrics.messages,
        {
            proof {
                let i = it.index() as int;
                assert(role == rs[i]);
                assert(rs.take(i + 1) =~= rs.take(i).push(role));
                lemma_roles_fold_snoc(orig.roles@, guild_id, rs.take(i), role);
                lemma_role_ids_snoc(rs.take(i), role);
            }
            self.cache_role(guild_id, role);
            proof {
                assert(set_of(self.guild_roles@, guild_id) =~= set_of(
                    orig.guild_roles@,
                    guild_id,
                ).union(role_ids(rs.take(it.index() as int + 1))));
            }
        }
        proof {
            assert(rs.take(rs.len() as int) =~= rs);
        }
    }

    /// Deletes a role: the entry leaves the primary map, and the id leaves
    /// its owning guild's role set. Deleting an uncached role changes
    /// nothing.
    pub fn delete_role(&mut self, role_id: u64)
        requires
            old(self).wf(),
        ensures
            final(self).wf(),
            final(self).roles@ == old(self).roles@.remove(role_id),
            ({
                let m = old(self).roles@;
                if m.contains_key(role_id) {
                    let g = m[role_id].guild_id;
                    &&& final(self).guild_roles@.dom() == old(self).guild_roles@.dom()
                    &&& set_of(final(self).guild_roles@, g) == set_of(
                        old(self).guild_roles@,
                        g,
                    ).remove(role_id)
                    &&& forall|h: u64|
                        h != g ==> set_of(final(self).guild_roles@, h) == set_of(
                            old(self).guild_roles@,
                            h,
                        )
                } else {
                    final(self).guild_roles == old(self).guild_roles
                }
            }),
            final(self).channels_guild == old(self).channels_guild,
            final(self).channels_private == old(self).channels_private,
            final(self).config == old(self).config,
            final(self).current_user == old(self).current_user,
            final(self).emojis == old(self).emojis,
            final(self).groups == old(self).groups,
            final(self).guilds == old(self).guilds,
            final(self).guild_channels == old(self).guild_channels,
            final(self).guild_emojis == old(self).guild_emojis,
            final(self).guild_members == old(self).guild_members,
            final(self).members == old(self).members,
            final(self).messages == old(self).messages,
            final(self).unavailable_guilds == old(self).unavailable_guilds,
            final(self).users == old(self).users,
            final(self).metrics.messages == old(self).metrics.messages,
    {
        match self.roles.remove(&role_id) {
            Some(item) => {
                self.metrics.roles = self.metrics.roles - 1;
                index_remove(&mut self.guild_roles, item.guild_id, role_id);
            },
            None => {
                proof {
                    assert(self.roles@ =~= old(self).roles@.remove(role_id));
                }
            },
        }
    }

    /// Marks a guild unavailable: its id joins the unavailable set and its
    /// entry leaves the guild map.
    pub fn unavailable_guild(&mut self, guild_id: u64)
        requires
            old(self).wf(),
        ensures
            final(self).wf(),
            final(self).unavailable_guilds@ == old(self).unavailable_guilds@.insert(guild_id),
            final(self).guilds@ == old(self).guilds@.remove(guild_id),
            final(self).channels_guild == old(self).channels_guild,
            final(self).channels_private == old(self).channels_private,
            final(self).config == old(self).config,
            final(self).current_user == old(self).current_user,
            final(self).emojis == old(self).emojis,
            final(self).groups == old(self).groups,
            final(self).guild_channels == old(self).guild_channels,
            final(self).guild_emojis == old(self).guild_emojis,
            final(self).guild_members == old(self).guild_members,
            final(self).guild_roles == old(self).guild_roles,
            final(self).members == old(self).members,
            final(self).messages == old(self).messages,
            final(self).roles == old(self).roles,
            final(self).users == old(self).users,
            final(self).metrics.messages == old(self).metrics.messages,
    {
        if self.unavailable_guilds.insert(guild_id) {
            proof {
                assert(vstd::std_specs::hash::spec_hash_set_len(&self.unavailable_guilds)
                    == self.unavailable_guilds@.len());
                assert(!old(self).unavailable_guilds@.contains(guild_id));
                assert(old(self).unavailable_guilds@.insert(guild_id).len() == old(
                    self,
                ).unavailable_guilds@.len() + 1);
            }
            self.metrics.unavailable_guilds = self.metrics.unavailable_guilds + 1;
        }
        match self.guilds.remove(&guild_id) {
            Some(_) => {
                proof {
                    assert(vstd::std_specs::hash::spec_hash_map_len(&self.guilds)
                        == self.guilds@.len());
                }
                self.metrics.guilds = self.metrics.guilds - 1;
                proof {
                    assert(self.guilds@.dom().disjoint(self.unavailable_guilds@));
                }
            },
            None => {
                proof {
                    assert(self.guilds@ =~= old(self).guilds@.remove(guild_id));
                }
            },
        }
    }
}

/// The identifiers of a sequence of guild channels.
pub open spec fn channel_ids(cs: Seq<GuildChannel>) -> Set<u64> {
    cs.map_values(|c: GuildChannel| c.id).to_set()
}

/// Appending a channel to a payload sequence adds its id to the id set.
pub proof fn lemma_channel_ids_snoc(cs: Seq<GuildChannel>, x: GuildChannel)
    ensures
        channel_ids(cs.push(x)) == channel_ids(cs).insert(x.id),
{
    assert(cs.push(x).map_values(|c: GuildChannel| c.id) =~= cs.map_values(
        |c: GuildChannel| c.id,
    ).push(x.id));
    lemma_ids_push_to_set(cs.map_values(|c: GuildChannel| c.id), x.id);
}

/// The channel map after an upsert of an already back-filled channel.
pub open spec fn channel_upsert(
    m: Map<u64, GuildItem<GuildChannel>>,
    guild_id: u64,
    channel: GuildChannel,
) -> Map<u64, GuildItem<GuildChannel>> {
    if m.contains_key(channel.id) && channel_eq(m[channel.id].data, channel) {
        m
    } else {
        m.insert(channel.id, GuildItem { data: channel, guild_id })
    }
}

/// The channel map after upserting each payload of a sequence in order, with
/// each channel's guild back-reference filled in first.
pub open spec fn channels_fold(
    m: Map<u64, GuildItem<GuildChannel>>,
    guild_id: u64,
    cs: Seq<GuildChannel>,
) -> Map<u64, GuildItem<GuildChannel>>
    decreases cs.len(),
{
    if cs.len() == 0 {
        m
    } else {
        channels_fold(channel_upsert(m, guild_id, channel_with_guild(cs[0], guild_id)), guild_id, cs.skip(1))
    }
}

/// Folding one more payload applies one more upsert.
pub proof fn lemma_channels_fold_snoc(
    m: Map<u64, GuildItem<GuildChannel>>,
    guild_id: u64,
    cs: Seq<GuildChannel>,
    x: GuildChannel,
)
    ensures
        channels_fold(m, guild_id, cs.push(x)) == channel_upsert(
            channels_fold(m, guild_id, cs),
            guild_id,
            channel_with_guild(x, guild_id),
        ),
    decreases cs.len(),
{
    let s = cs.push(x);
    assert(channels_fold(m, guild_id, s) == channels_fold(
        channel_upsert(m, guild_id, channel_with_guild(s[0], guild_id)),
        guild_id,
        s.skip(1),
    ));
    if cs.len() == 0 {
        assert(s[0] == x);
        assert(s.skip(1) =~= Seq::<GuildChannel>::empty());
        assert(channels_fold(
            channel_upsert(m, guild_id, channel_with_guild(x, guild_id)),
            guild_id,
            s.skip(1),
        ) == channel_upsert(m, guild_id, channel_with_guild(x, guild_id)));
        assert(channels_fold(m, guild_id, cs) == m);
    } else {
        assert(s[0] == cs[0]);
        assert(s.skip(1) =~= cs.skip(1).push(x));
        lemma_channels_fold_snoc(
            channel_upsert(m, guild_id, channel_with_guild(cs[0], guild_id)),
            guild_id,
            cs.skip(1),
            x,
        );
        assert(channels_fold(m, guild_id, cs) == channels_fold(
            channel_upsert(m, guild_id, channel_with_guild(cs[0], guild_id)),
            guild_id,
            cs.skip(1),
        ));
    }
}

/// The emoji map and the guild's emoji set after one upsert: both unchanged
/// when an equal emoji is already cached, since a duplicate payload is
/// dropped before any index is touched.
pub open spec fn emoji_upsert(
    m: Map<u64, GuildItem<CachedEmoji>>,
    s: Set<u64>,
    guild_id: u64,
    e: Emoji,
) -> (Map<u64, GuildItem<CachedEmoji>>, Set<u64>) {
    if m.contains_key(e.id) && emoji_matches(m[e.id].data, e) {
        (m, s)
    } else {
        (m.insert(e.id, GuildItem { data: cached_of_emoji(e), guild_id }), s.insert(e.id))
    }
}

/// The emoji map and guild emoji set after upserting a sequence in order.
pub open spec fn emojis_fold(
    m: Map<u64, GuildItem<CachedEmoji>>,
    s: Set<u64>,
    guild_id: u64,
    es: Seq<Emoji>,
) -> (Map<u64, GuildItem<CachedEmoji>>, Set<u64>)
    decreases es.len(),
{
    if es.len() == 0 {
        (m, s)
    } else {
        let (m1, s1) = emoji_upsert(m, s, guild_id, es[0]);
        emojis_fold(m1, s1, guild_id, es.skip(1))
    }
}

/// Folding one more payload applies one more upsert.
pub proof fn lemma_emojis_fold_snoc(
    m: Map<u64, GuildItem<CachedEmoji>>,
    s: Set<u64>,
    guild_id: u64,
    es: Seq<Emoji>,
    x: Emoji,
)
    ensures
        emojis_fold(m, s, guild_id, es.push(x)) == emoji_upsert(
            emojis_fold(m, s, guild_id, es).0,
            emojis_fold(m, s, guild_id, es).1,
            guild_id,
            x,
        ),
    decreases es.len(),
{
    let q = es.push(x);
    let (mq, sq) = emoji_upsert(m, s, guild_id, q[0]);
    assert(emojis_fold(m, s, guild_id, q) == emojis_fold(mq, sq, guild_id, q.skip(1)));
    if es.len() == 0 {
        assert(q[0] == x);
        assert(q.skip(1) =~= Seq::<Emoji>::empty());
        assert(emojis_fold(mq, sq, guild_id, q.skip(1)) == (mq, sq));
        assert(emojis_fold(m, s, guild_id, es) == (m, s));
    } else {
        assert(q[0] == es[0]);
        assert(q.skip(1) =~= es.skip(1).push(x));
        let (m1, s1) = emoji_upsert(m, s, guild_id, es[0]);
        lemma_emojis_fold_snoc(m1, s1, guild_id, es.skip(1), x);
        assert(emojis_fold(m, s, guild_id, es) == emojis_fold(m1, s1, guild_id, es.skip(1)));
    }
}

/// How a bulk operation may change the user index for a guild: entries are
/// never dropped, and an entry either stays as it was or has the guild added
/// to its tracked set (its account data possibly replaced by a payload).
pub open spec fn users_grown(
    old_m: Map<u64, (User, BTreeSet<u64>)>,
    new_m: Map<u64, (User, BTreeSet<u64>)>,
    guild_id: u64,
) -> bool {
    &&& old_m.dom().subset_of(new_m.dom())
    &&& forall|k: u64|
        old_m.contains_key(k) ==> (tracked_of(new_m, k) == tracked_of(old_m, k) || tracked_of(
            new_m,
            k,
        ) == tracked_of(old_m, k).insert(guild_id))
}

/// The member map and guild member set after one upsert: both unchanged when
/// an equal member is already cached.
pub open spec fn member_upsert(
    ms: Map<u128, CachedMember>,
    s: Set<u64>,
    guild_id: u64,
    m: Member,
) -> (Map<u128, CachedMember>, Set<u64>) {
    let k = member_key(guild_id, m.user.id);
    if ms.contains_key(k) && member_matches(ms[k], m) {
        (ms, s)
    } else {
        (ms.insert(k, cached_of_member(guild_id, m)), s.insert(m.user.id))
    }
}

/// The member map and guild member set after upserting a sequence in order.
pub open spec fn members_fold(
    ms: Map<u128, CachedMember>,
    s: Set<u64>,
    guild_id: u64,
    payload: Seq<Member>,
) -> (Map<u128, CachedMember>, Set<u64>)
    decreases payload.len(),
{
    if payload.len() == 0 {
        (ms, s)
    } else {
        let (m1, s1) = member_upsert(ms, s, guild_id, payload[0]);
        members_fold(m1, s1, guild_id, payload.skip(1))
    }
}

/// Folding one more payload applies one more upsert.
pub proof fn lemma_members_fold_snoc(
    ms: Map<u128, CachedMember>,
    s: Set<u64>,
    guild_id: u64,
    payload: Seq<Member>,
    x: Member,
)
    ensures
        members_fold(ms, s, guild_id, payload.push(x)) == member_upsert(
            members_fold(ms, s, guild_id, payload).0,
            members_fold(ms, s, guild_id, payload).1,
            guild_id,
            x,
        ),
    decreases payload.len(),
{
    let q = payload.push(x);
    let (mq, sq) = member_upsert(ms, s, guild_id, q[0]);
    assert(members_fold(ms, s, guild_id, q) == members_fold(mq, sq, guild_id, q.skip(1)));
    if payload.len() == 0 {
        assert(q[0] == x);
        assert(q.skip(1) =~= Seq::<Member>::empty());
        assert(members_fold(mq, sq, guild_id, q.skip(1)) == (mq, sq));
        assert(members_fold(ms, s, guild_id, payload) == (ms, s));
    } else {
        assert(q[0] == payload[0]);
        assert(q.skip(1) =~= payload.skip(1).push(x));
        let (m1, s1) = member_upsert(ms, s, guild_id, payload[0]);
        lemma_members_fold_snoc(m1, s1, guild_id, payload.skip(1), x);
        assert(members_fold(ms, s, guild_id, payload) == members_fold(
            m1,
            s1,
            guild_id,
            payload.skip(1),
        ));
    }
}

/// A channel's message ring after a push: the message goes to the front, and
/// when the ring would exceed its capacity the oldest entry is dropped.
pub open spec fn ring_push(ring: Seq<CachedMessage>, m: CachedMessage, cap: nat) -> Seq<
    CachedMessage,
> {
    let grown = seq![m] + ring;
    if grown.len() > cap {
        grown.drop_last()
    } else {
        grown
    }
}

impl InMemoryCache {
    /// Upserts a guild channel, back-filling its guild reference first: the
    /// channel id always joins the guild's channel set, and the payload is
    /// stored unless an equal channel is already cached. Returns the channel
    /// as cached.
    pub fn cache_guild_channel(&mut self, guild_id: u64, channel: GuildChannel) -> (out:
        GuildChannel)
        requires
            old(self).wf(),
        ensures
            final(self).wf(),
            final(self).channels_guild@ == channel_upsert(
                old(self).channels_guild@,
                guild_id,
                channel_with_guild(channel, guild_id),
            ),
            final(self).guild_channels@.dom() == old(self).guild_channels@.dom().insert(guild_id),
            set_of(final(self).guild_channels@, guild_id) == set_of(
                old(self).guild_channels@,
                guild_id,
            ).insert(channel.id),
            forall|h: u64|
                h != guild_id ==> set_of(final(self).guild_channels@, h) == set_of(
                    old(self).guild_channels@,
                    h,
                ),
            channel_eq(out, channel_with_guild(channel, guild_id)),
            final(self).channels_private == old(self).channels_private,
            final(self).config == old(self).config,
            final(self).current_user == old(self).current_user,
            final(self).emojis == old(self).emojis,
            final(self).groups == old(self).groups,
            final(self).guilds == old(self).guilds,
            final(self).guild_emojis == old(self).guild_emojis,
            final(self).guild_members == old(self).guild_members,
            final(self).guild_roles == old(self).guild_roles,
            final(self).members == old(self).members,
            final(self).messages == old(self).messages,
            final(self).roles == old(self).roles,
            final(self).unavailable_guilds == old(self).unavailable_guilds,
            final(self).users == old(self).users,
            final(self).metrics.messages == old(self).metrics.messages,
    {
        let mut channel = channel;
        channel.guild_id = Some(guild_id);
        let id = channel.id;
        index_insert(&mut self.guild_channels, guild_id, id);
        match self.channels_guild.remove(&id) {
            Some(item) => {
                if item.data == channel {
                    let out = item.data.clone();
                    self.channels_guild.insert(id, item);
                    proof {
                        assert(self.channels_guild@ =~= old(self).channels_guild@);
                    }
                    out
                } else {
                    let out = channel.clone();
                    self.channels_guild.insert(id, GuildItem { data: channel, guild_id });
                    out
                }
            },
            None => {
                let out = channel.clone();
                self.channels_guild.insert(id, GuildItem { data: channel, guild_id });
                proof {
                    assert(vstd::std_specs::hash::spec_hash_map_len(&self.channels_guild)
                        == self.channels_guild@.len());
                }
                self.metrics.channels_guild = self.metrics.channels_guild + 1;
                out
            },
        }
    }

    /// Upserts each channel of a bulk payload in order.
    pub fn cache_guild_channels(&mut self, guild_id: u64, channels: Vec<GuildChannel>)
        requires
            old(self).wf(),
        ensures
            final(self).wf(),
            final(self).channels_guild@ == channels_fold(
                old(self).channels_guild@,
                guild_id,
                channels@,
            ),
            set_of(final(self).guild_channels@, guild_id) == set_of(
                old(self).guild_channels@,
                guild_id,
            ).union(channel_ids(channels@)),
            channels@.len() == 0 ==> final(self).guild_channels == old(self).guild_channels,
            channels@.len() > 0 ==> final(self).guild_channels@.dom() == old(
                self,
            ).guild_channels@.dom().insert(guild_id),
            forall|h: u64|
                h != guild_id ==> set_of(final(self).guild_channels@, h) == set_of(
                    old(self).guild_channels@,
                    h,
                ),
            final(self).channels_private == old(self).channels_private,
            final(self).config == old(self).config,
            final(self).current_user == old(self).current_user,
            final(self).emojis == old(self).emojis,
            final(self).groups == old(self).groups,
            final(self).guilds == old(self).guilds,
            final(self).guild_emojis == old(self).guild_emojis,
            final(self).guild_members == old(self).guild_members,
            final(self).guild_roles == old(self).guild_roles,
            final(self).members == old(self).members,
            final(self).messages == old(self).messages,
            final(self).roles == old(self).roles,
            final(self).unavailable_guilds == old(self).unavailable_guilds,
            final(self).users == old(self).users,
            final(self).metrics.messages == old(self).metrics.messages,
    {
        let ghost orig = *self;
        let ghost cs = channels@;
        proof {
            assert(channel_ids(cs.take(0)) =~= Set::<u64>::empty());
            assert(set_of(self.guild_channels@, guild_id) =~= set_of(
                orig.guild_channels@,
                guild_id,
            ).union(channel_ids(cs.take(0))));
        }
        for channel in it: channels.into_iter()
            invariant
                it.seq() == cs,
                self.wf(),
                self.channels_guild@ == channels_fold(
                    orig.channels_guild@,
                    guild_id,
                    cs.take(it.index() as int),
                ),
                set_of(self.guild_channels@, guild_id) == set_of(
                    orig.guild_channels@,
                    guild_id,
                ).union(channel_ids(cs.take(it.index() as int))),
                it.index() == 0 ==> self.guild_channels == orig.guild_channels,
                it.index() > 0 ==> self.guild_channels@.dom() == orig.guild_channels@.dom().insert(
                    guild_id,
                ),
                forall|h: u64|
                    h != guild_id ==> set_of(self.guild_channels@, h) == set_of(
                        orig.guild_channels@,
                        h,
                    ),
                self.channels_private == orig.channels_private,
                self.config == orig.config,
                self.current_user == orig.current_user,
                self.emojis == orig.emojis,
                self.groups == orig.groups,
                self.guilds == orig.guilds,
                self.guild_emojis == orig.guild_emojis,
                self.guild_members == orig.guild_members,
                self.guild_roles == orig.guild_roles,
                self.members == orig.members,
                self.messages == orig.messages,
                self.roles == orig.roles,
                self.unavailable_guilds == orig.unavailable_guilds,
                self.users == orig.users,
                self.metrics.messages == orig.metrics.messages,
        {
            proof {
                let i = it.index() as int;
                assert(channel == cs[i]);
                assert(cs.take(i + 1) =~= cs.take(i).push(channel));
                lemma_channels_fold_snoc(orig.channels_guild@, guild_id, cs.take(i), channel);
                lemma_channel_ids_snoc(cs.take(i), channel);
            }
            self.cache_guild_channel(guild_id, channel);
            proof {
                assert(set_of(self.guild_channels@, guild_id) =~= set_of(
                    orig.guild_channels@,
                    guild_id,
                ).union(channel_ids(cs.take(it.index() as int + 1))));
            }
        }
        proof {
            assert(cs.take(cs.len() as int) =~= cs);
        }
    }

    /// Deletes a guild channel: the entry leaves the primary map, and the id
    /// leaves its owning guild's channel set. Deleting an uncached channel
    /// changes nothing.
    pub fn delete_guild_channel(&mut self, channel_id: u64)
        requires
            old(self).wf(),
        ensures
            final(self).wf(),
            final(self).channels_guild@ == old(self).channels_guild@.remove(channel_id),
            ({
                let m = old(self).channels_guild@;
                if m.contains_key(channel_id) {
                    let g = m[channel_id].guild_id;
                    &&& final(self).guild_channels@.dom() == old(self).guild_channels@.dom()
                    &&& set_of(final(self).guild_channels@, g) == set_of(
                        old(self).guild_channels@,
                        g,
                    ).remove(channel_id)
                    &&& forall|h: u64|
                        h != g ==> set_of(final(self).guild_channels@, h) == set_of(
                            old(self).guild_channels@,
                            h,
                        )
                } else {
                    final(self).guild_channels == old(self).guild_channels
                }
            }),
            final(self).channels_private == old(self).channels_private,
            final(self).config == old(self).config,
            final(self).current_user == old(self).current_user,
            final(self).emojis == old(self).emojis,
            final(self).groups == old(self).groups,
            final(self).guilds == old(self).guilds,
            final(self).guild_emojis == old(self).guild_emojis,
            final(self).guild_members == old(self).guild_members,
            final(self).guild_roles == old(self).guild_roles,
            final(self).members == old(self).members,
            final(self).messages == old(self).messages,
            final(self).roles == old(self).roles,
            final(self).unavailable_guilds == old(self).unavailable_guilds,
            final(self).users == old(self).users,
            final(self).metrics.messages == old(self).metrics.messages,
    {
        match self.channels_guild.remove(&channel_id) {
            Some(item) => {
                self.metrics.channels_guild = self.metrics.channels_guild - 1;
                index_remove(&mut self.guild_channels, item.guild_id, channel_id);
            },
            None => {
                proof {
                    assert(self.channels_guild@ =~= old(self).channels_guild@.remove(
                        channel_id,
                    ));
                }
            },
        }
    }

    /// Upserts an emoji for a guild; a payload equal to the cached emoji is
    /// dropped entirely. Caching a new or changed emoji also caches its
    /// creator, when the payload names one, with this guild tracked.
    pub fn cache_emoji(&mut self, guild_id: u64, emoji: Emoji)
        requires
            old(self).wf(),
        ensures
            final(self).wf(),
            ({
                let m = old(self).emojis@;
                if m.contains_key(emoji.id) && emoji_matches(m[emoji.id].data, emoji) {
                    *final(self) == *old(self)
                } else {
                    &&& final(self).emojis@ == m.insert(
                        emoji.id,
                        GuildItem { data: cached_of_emoji(emoji), guild_id },
                    )
                    &&& final(self).guild_emojis@.dom() == old(
                        self,
                    ).guild_emojis@.dom().insert(guild_id)
                    &&& set_of(final(self).guild_emojis@, guild_id) == set_of(
                        old(self).guild_emojis@,
                        guild_id,
                    ).insert(emoji.id)
                    &&& forall|h: u64|
                        h != guild_id ==> set_of(final(self).guild_emojis@, h) == set_of(
                            old(self).guild_emojis@,
                            h,
                        )
                    &&& match emoji.user {
                        Some(u) => users_upserted(
                            old(self).users@,
                            final(self).users@,
                            u,
                            Some(guild_id),
                        ),
                        None => final(self).users == old(self).users,
                    }
                }
            }),
            final(self).channels_guild == old(self).channels_guild,
            final(self).channels_private == old(self).channels_private,
            final(self).config == old(self).config,
            final(self).current_user == old(self).current_user,
            final(self).groups == old(self).groups,
            final(self).guilds == old(self).guilds,
            final(self).guild_channels == old(self).guild_channels,
            final(self).guild_members == old(self).guild_members,
            final(self).guild_roles == old(self).guild_roles,
            final(self).members == old(self).members,
            final(self).messages == old(self).messages,
            final(self).roles == old(self).roles,
            final(self).unavailable_guilds == old(self).unavailable_guilds,
            final(self).metrics.messages == old(self).metrics.messages,
    {
        match self.emojis.get(&emoji.id) {
            Some(item) => {
                if item.data == emoji {
                    return ;
                }
            },
            None => {},
        }
        let is_new = !self.emojis.contains_key(&emoji.id);
        let Emoji { animated, available, id, managed: _managed, name, require_colons, roles, user } =
            emoji;
        match user {
            Some(u) => {
                self.cache_user(u, Some(guild_id));
            },
            None => {},
        }
        let cached = CachedEmoji { id, animated, name, require_colons, roles, available };
        self.emojis.insert(id, GuildItem { data: cached, guild_id });
        if is_new {
            proof {
                assert(vstd::std_specs::hash::spec_hash_map_len(&self.emojis)
                    == self.emojis@.len());
            }
            self.metrics.emojis = self.metrics.emojis + 1;
        } else {
            proof {
                assert(self.emojis@.dom() =~= old(self).emojis@.dom());
            }
        }
        index_insert(&mut self.guild_emojis, guild_id, id);
    }

    /// Upserts each emoji of a bulk payload in order.
    pub fn cache_emojis(&mut self, guild_id: u64, emojis: Vec<Emoji>)
        requires
            old(self).wf(),
        ensures
            final(self).wf(),
            final(self).emojis@ == emojis_fold(
                old(self).emojis@,
                set_of(old(self).guild_emojis@, guild_id),
                guild_id,
                emojis@,
            ).0,
            set_of(final(self).guild_emojis@, guild_id) == emojis_fold(
                old(self).emojis@,
                set_of(old(self).guild_emojis@, guild_id),
                guild_id,
                emojis@,
            ).1,
            forall|h: u64|
                h != guild_id ==> set_of(final(self).guild_emojis@, h) == set_of(
                    old(self).guild_emojis@,
                    h,
                ),
            users_grown(old(self).users@, final(self).users@, guild_id),
            final(self).channels_guild == old(self).channels_guild,
            final(self).channels_private == old(self).channels_private,
            final(self).config == old(self).config,
            final(self).current_user == old(self).current_user,
            final(self).groups == old(self).groups,
            final(self).guilds == old(self).guilds,
            final(self).guild_channels == old(self).guild_channels,
            final(self).guild_members == old(self).guild_members,
            final(self).guild_roles == old(self).guild_roles,
            final(self).members == old(self).members,
            final(self).messages == old(self).messages,
            final(self).roles == old(self).roles,
            final(self).unavailable_guilds == old(self).unavailable_guilds,
            final(self).metrics.messages == old(self).metrics.messages,
    {
        let ghost orig = *self;
        let ghost es = emojis@;
        proof {
            assert(es.take(0) =~= Seq::<Emoji>::empty());
        }
        for emoji in it: emojis.into_iter()
            invariant
                it.seq() == es,
                self.wf(),
                self.emojis@ == emojis_fold(
                    orig.emojis@,
                    set_of(orig.guild_emojis@, guild_id),
                    guild_id,
                    es.take(it.index() as int),
                ).0,
                set_of(self.guild_emojis@, guild_id) == emojis_fold(
                    orig.emojis@,
                    set_of(orig.guild_emojis@, guild_id),
                    guild_id,
                    es.take(it.index() as int),
                ).1,
                forall|h: u64|
                    h != guild_id ==> set_of(self.guild_emojis@, h) == set_of(
                        orig.guild_emojis@,
                        h,
                    ),
                users_grown(orig.users@, self.users@, guild_id),
                self.channels_guild == orig.channels_guild,
                self.channels_private == orig.channels_private,
                self.config == orig.config,
                self.current_user == orig.current_user,
                self.groups == orig.groups,
                self.guilds == orig.guilds,
                self.guild_channels == orig.guild_channels,
                self.guild_members == orig.guild_members,
                self.guild_roles == orig.guild_roles,
                self.members == orig.members,
                self.messages == orig.messages,
                self.roles == orig.roles,
                self.unavailable_guilds == orig.unavailable_guilds,
                self.metrics.messages == orig.metrics.messages,
        {
            proof {
                let i = it.index() as int;
                assert(emoji == es[i]);
                assert(es.take(i + 1) =~= es.take(i).push(emoji));
                lemma_emojis_fold_snoc(
                    orig.emojis@,
                    set_of(orig.guild_emojis@, guild_id),
                    guild_id,
                    es.take(i),
                    emoji,
                );
            }
            let ghost pre = *self;
            self.cache_emoji(guild_id, emoji);
            proof {
                assert forall|k: u64| orig.users@.contains_key(k) implies (tracked_of(
                    self.users@,
                    k,
                ) == tracked_of(orig.users@, k) || tracked_of(self.users@, k) == tracked_of(
                    orig.users@,
                    k,
                ).insert(guild_id)) by {
                    assert(pre.users@.contains_key(k));
                }
            }
        }
        proof {
            assert(es.take(es.len() as int) =~= es);
        }
    }

    /// Upserts a member for a guild; a payload equal to the cached member is
    /// dropped entirely. Caching a new or changed member also caches its
    /// user, with this guild tracked.
    pub fn cache_member(&mut self, guild_id: u64, member: Member)
        requires
            old(self).wf(),
        ensures
            final(self).wf(),
            ({
                let k = member_key(guild_id, member.user.id);
                let m = old(self).members@;
                if m.contains_key(k) && member_matches(m[k], member) {
                    *final(self) == *old(self)
                } else {
                    &&& final(self).members@ == m.insert(k, cached_of_member(guild_id, member))
                    &&& final(self).guild_members@.dom() == old(
                        self,
                    ).guild_members@.dom().insert(guild_id)
                    &&& set_of(final(self).guild_members@, guild_id) == set_of(
                        old(self).guild_members@,
                        guild_id,
                    ).insert(member.user.id)
                    &&& forall|h: u64|
                        h != guild_id ==> set_of(final(self).guild_members@, h) == set_of(
                            old(self).guild_members@,
                            h,
                        )
                    &&& users_upserted(
                        old(self).users@,
                        final(self).users@,
                        member.user,
                        Some(guild_id),
                    )
                }
            }),
            final(self).channels_guild == old(self).channels_guild,
            final(self).channels_private == old(self).channels_private,
            final(self).config == old(self).config,
            final(self).current_user == old(self).current_user,
            final(self).emojis == old(self).emojis,
            final(self).groups == old(self).groups,
            final(self).guilds == old(self).guilds,
            final(self).guild_channels == old(self).guild_channels,
            final(self).guild_emojis == old(self).guild_emojis,
            final(self).guild_roles == old(self).guild_roles,
            final(self).messages == old(self).messages,
            final(self).roles == old(self).roles,
            final(self).unavailable_guilds == old(self).unavailable_guilds,
            final(self).metrics.messages == old(self).metrics.messages,
    {
        let member_id = member.user.id;
        let key = member_key_exec(guild_id, member_id);
        match self.members.get(&key) {
            Some(m) => {
                if *m == member {
                    return ;
                }
            },
            None => {},
        }
        let is_new = !self.members.contains_key(&key);
        let Member {
            deaf,
            guild_id: _payload_guild,
            joined_at,
            mute,
            nick,
            pending,
            premium_since,
            roles,
            user,
        } = member;
        self.cache_user(user, Some(guild_id));
        let cached = CachedMember {
            deaf: Some(deaf),
            guild_id,
            joined_at,
            mute: Some(mute),
            nick,
            pending,
            premium_since,
            roles,
            user_id: member_id,
        };
        self.members.insert(key, cached);
        if is_new {
            proof {
                assert(vstd::std_specs::hash::spec_hash_map_len(&self.members)
                    == self.members@.len());
            }
            self.metrics.members = self.metrics.members + 1;
        } else {
            proof {
                assert(self.members@.dom() =~= old(self).members@.dom());
            }
        }
        index_insert(&mut self.guild_members, guild_id, member_id);
    }

    /// Upserts each member of a bulk payload in order.
    pub fn cache_members(&mut self, guild_id: u64, members: Vec<Member>)
        requires
            old(self).wf(),
        ensures
            final(self).wf(),
            final(self).members@ == members_fold(
                old(self).members@,
                set_of(old(self).guild_members@, guild_id),
                guild_id,
                members@,
            ).0,
            set_of(final(self).guild_members@, guild_id) == members_fold(
                old(self).members@,
                set_of(old(self).guild_members@, guild_id),
                guild_id,
                members@,
            ).1,
            forall|h: u64|
                h != guild_id ==> set_of(final(self).guild_members@, h) == set_of(
                    old(self).guild_members@,
                    h,
                ),
            users_grown(old(self).users@, final(self).users@, guild_id),
            final(self).channels_guild == old(self).channels_guild,
            final(self).channels_private == old(self).channels_private,
            final(self).config == old(self).config,
            final(self).current_user == old(self).current_user,
            final(self).emojis == old(self).emojis,
            final(self).groups == old(self).groups,
            final(self).guilds == old(self).guilds,
            final(self).guild_channels == old(self).guild_channels,
            final(self).guild_emojis == old(self).guild_emojis,
            final(self).guild_roles == old(self).guild_roles,
            final(self).messages == old(self).messages,
            final(self).roles == old(self).roles,
            final(self).unavailable_guilds == old(self).unavailable_guilds,
            final(self).metrics.messages == old(self).metrics.messages,
    {
        let ghost orig = *self;
        let ghost ps = members@;
        proof {
            assert(ps.take(0) =~= Seq::<Member>::empty());
        }
        for member in it: members.into_iter()
            invariant
                it.seq() == ps,
                self.wf(),
                self.members@ == members_fold(
                    orig.members@,
                    set_of(orig.guild_members@, guild_id),
                    guild_id,
                    ps.take(it.index() as int),
                ).0,
                set_of(self.guild_members@, guild_id) == members_fold(
                    orig.members@,
                    set_of(orig.guild_members@, guild_id),
                    guild_id,
                    ps.take(it.index() as int),
                ).1,
                forall|h: u64|
                    h != guild_id ==> set_of(self.guild_members@, h) == set_of(
                        orig.guild_members@,
                        h,
                    ),
                users_grown(orig.users@, self.users@, guild_id),
                self.channels_guild == orig.channels_guild,
                self.channels_private == orig.channels_private,
                self.config == orig.config,
                self.current_user == orig.current_user,
                self.emojis == orig.emojis,
                self.groups == orig.groups,
                self.guilds == orig.guilds,
                self.guild_channels == orig.guild_channels,
                self.guild_emojis == orig.guild_emojis,
                self.guild_roles == orig.guild_roles,
                self.messages == orig.messages,
                self.roles == orig.roles,
                self.unavailable_guilds == orig.unavailable_guilds,
                self.metrics.messages == orig.metrics.messages,
        {
            proof {
                let i = it.index() as int;
                assert(member == ps[i]);
                assert(ps.take(i + 1) =~= ps.take(i).push(member));
                lemma_members_fold_snoc(
                    orig.members@,
                    set_of(orig.guild_members@, guild_id),
                    guild_id,
                    ps.take(i),
                    member,
                );
            }
            let ghost pre = *self;
            self.cache_member(guild_id, member);
            proof {
                assert forall|k: u64| orig.users@.contains_key(k) implies (tracked_of(
                    self.users@,
                    k,
                ) == tracked_of(orig.users@, k) || tracked_of(self.users@, k) == tracked_of(
                    orig.users@,
                    k,
                ).insert(guild_id)) by {
                    assert(pre.users@.contains_key(k));
                }
            }
        }
        proof {
            assert(ps.take(ps.len() as int) =~= ps);
        }
    }

    /// Upserts a member from a partial payload together with its already-known
    /// user. A payload equal to the cached member is dropped; otherwise the
    /// stored member is rebuilt from the payload's fields. The user index is
    /// left untouched.
    pub fn cache_borrowed_partial_member(
        &mut self,
        guild_id: u64,
        member: &PartialMember,
        user: User,
    )
        requires
            old(self).wf(),
        ensures
            final(self).wf(),
            ({
                let k = member_key(guild_id, user.id);
                let m = old(self).members@;
                if m.contains_key(k) && partial_member_matches(m[k], *member) {
                    *final(self) == *old(self)
                } else {
                    &&& final(self).members@.dom() == m.dom().insert(k)
                    &&& crate::model::member::cached_member_eq(
                        final(self).members@[k],
                        CachedMember {
                            deaf: Some(member.deaf),
                            guild_id,
                            joined_at: member.joined_at,
                            mute: Some(member.mute),
                            nick: member.nick,
                            pending: false,
                            premium_since: member.premium_since,
                            roles: member.roles,
                            user_id: user.id,
                        },
                    )
                    &&& forall|j: u128|
                        j != k && m.contains_key(j) ==> final(self).members@[j] == m[j]
                    &&& final(self).guild_members@.dom() == old(
                        self,
                    ).guild_members@.dom().insert(guild_id)
                    &&& set_of(final(self).guild_members@, guild_id) == set_of(
                        old(self).guild_members@,
                        guild_id,
                    ).insert(user.id)
                    &&& forall|h: u64|
                        h != guild_id ==> set_of(final(self).guild_members@, h) == set_of(
                            old(self).guild_members@,
                            h,
                        )
                }
            }),
            final(self).channels_guild == old(self).channels_guild,
            final(self).channels_private == old(self).channels_private,
            final(self).config == old(self).config,
            final(self).current_user == old(self).current_user,
            final(self).emojis == old(self).emojis,
            final(self).groups == old(self).groups,
            final(self).guilds == old(self).guilds,
            final(self).guild_channels == old(self).guild_channels,
            final(self).guild_emojis == old(self).guild_emojis,
            final(self).guild_roles == old(self).guild_roles,
            final(self).messages == old(self).messages,
            final(self).roles == old(self).roles,
            final(self).unavailable_guilds == old(self).unavailable_guilds,
            final(self).users == old(self).users,
            final(self).metrics.messages == old(self).metrics.messages,
    {
        let key = member_key_exec(guild_id, user.id);
        match self.members.get(&key) {
            Some(m) => {
                if *m == member {
                    return ;
                }
            },
            None => {},
        }
        let is_new = !self.members.contains_key(&key);
        index_insert(&mut self.guild_members, guild_id, user.id);
        let cached = CachedMember {
            deaf: Some(member.deaf),
            guild_id,
            joined_at: crate::model::opt_str_clone(&member.joined_at),
            mute: Some(member.mute),
            nick: crate::model::opt_str_clone(&member.nick),
            pending: false,
            premium_since: crate::model::opt_str_clone(&member.premium_since),
            roles: crate::model::copy_ids(&member.roles),
            user_id: user.id,
        };
        self.members.insert(key, cached);
        if is_new {
            proof {
                assert(vstd::std_specs::hash::spec_hash_map_len(&self.members)
                    == self.members@.len());
            }
            self.metrics.members = self.metrics.members + 1;
        } else {
            proof {
                assert(self.members@.dom() =~= old(self).members@.dom());
            }
        }
    }

    /// Deletes a member: the entry leaves the member map, and the user id
    /// leaves the guild's member set. Deleting an uncached member changes
    /// nothing.
    pub fn delete_member(&mut self, guild_id: u64, user_id: u64)
        requires
            old(self).wf(),
        ensures
            final(self).wf(),
            final(self).members@ == old(self).members@.remove(member_key(guild_id, user_id)),
            set_of(final(self).guild_members@, guild_id) == set_of(
                old(self).guild_members@,
                guild_id,
            ).remove(user_id),
            forall|h: u64|
                h != guild_id ==> set_of(final(self).guild_members@, h) == set_of(
                    old(self).guild_members@,
                    h,
                ),
            final(self).guild_members@.dom() == old(self).guild_members@.dom(),
            final(self).channels_guild == old(self).channels_guild,
            final(self).channels_private == old(self).channels_private,
            final(self).config == old(self).config,
            final(self).current_user == old(self).current_user,
            final(self).emojis == old(self).emojis,
            final(self).groups == old(self).groups,
            final(self).guilds == old(self).guilds,
            final(self).guild_channels == old(self).guild_channels,
            final(self).guild_emojis == old(self).guild_emojis,
            final(self).guild_roles == old(self).guild_roles,
            final(self).messages == old(self).messages,
            final(self).roles == old(self).roles,
            final(self).unavailable_guilds == old(self).unavailable_guilds,
            final(self).users == old(self).users,
            final(self).metrics.messages == old(self).metrics.messages,
    {
        let key = member_key_exec(guild_id, user_id);
        match self.members.remove(&key) {
            Some(_) => {
                self.metrics.members = self.metrics.members - 1;
            },
            None => {
                proof {
                    assert(self.members@ =~= old(self).members@.remove(key));
                }
            },
        }
        index_remove(&mut self.guild_members, guild_id, user_id);
    }

    /// Upserts a group conversation; an equal payload leaves the stored
    /// value in place. Returns the group as cached.
    pub fn cache_group(&mut self, group: Group) -> (out: Group)
        requires
            old(self).wf(),
        ensures
            final(self).wf(),
            final(self).groups@ == (if old(self).groups@.contains_key(group.id) && group_eq(
                old(self).groups@[group.id],
                group,
            ) {
                old(self).groups@
            } else {
                old(self).groups@.insert(group.id, group)
            }),
            group_eq(out, group),
            final(self).channels_guild == old(self).channels_guild,
            final(self).channels_private == old(self).channels_private,
            final(self).config == old(self).config,
            final(self).current_user == old(self).current_user,
            final(self).emojis == old(self).emojis,
            final(self).guilds == old(self).guilds,
            final(self).guild_channels == old(self).guild_channels,
            final(self).guild_emojis == old(self).guild_emojis,
            final(self).guild_members == old(self).guild_members,
            final(self).guild_roles == old(self).guild_roles,
            final(self).members == old(self).members,
            final(self).messages == old(self).messages,
            final(self).metrics == old(self).metrics,
            final(self).roles == old(self).roles,
            final(self).unavailable_guilds == old(self).unavailable_guilds,
            final(self).users == old(self).users,
    {
        match self.groups.remove(&group.id) {
            Some(stored) => {
                if stored == group {
                    let out = stored.clone();
                    self.groups.insert(group.id, stored);
                    proof {
                        assert(self.groups@ =~= old(self).groups@);
                    }
                    out
                } else {
                    let out = group.clone();
                    self.groups.insert(group.id, group);
                    out
                }
            },
            None => {
                let out = group.clone();
                self.groups.insert(group.id, group);
                out
            },
        }
    }

    /// Deletes a group conversation; deleting an uncached group changes
    /// nothing.
    pub fn delete_group(&mut self, channel_id: u64)
        requires
            old(self).wf(),
        ensures
            final(self).wf(),
            final(self).groups@ == old(self).groups@.remove(channel_id),
            final(self).channels_guild == old(self).channels_guild,
            final(self).channels_private == old(self).channels_private,
            final(self).config == old(self).config,
            final(self).current_user == old(self).current_user,
            final(self).emojis == old(self).emojis,
            final(self).guilds == old(self).guilds,
            final(self).guild_channels == old(self).guild_channels,
            final(self).guild_emojis == old(self).guild_emojis,
            final(self).guild_members == old(self).guild_members,
            final(self).guild_roles == old(self).guild_roles,
            final(self).members == old(self).members,
            final(self).messages == old(self).messages,
            final(self).metrics == old(self).metrics,
            final(self).roles == old(self).roles,
            final(self).unavailable_guilds == old(self).unavailable_guilds,
            final(self).users == old(self).users,
    {
        match self.groups.remove(&channel_id) {
            Some(_) => {},
            None => {
                proof {
                    assert(self.groups@ =~= old(self).groups@.remove(channel_id));
                }
            },
        }
    }

    /// Upserts a private channel, keyed by its first recipient; an equal
    /// payload leaves the stored value in place. A payload must name at
    /// least one recipient. Returns the channel as cached.
    pub fn cache_private_channel(&mut self, private_channel: PrivateChannel) -> (out:
        PrivateChannel)
        requires
            old(self).wf(),
            private_channel.recipients@.len() > 0,
        ensures
            final(self).wf(),
            ({
                let k = private_channel.recipients@[0];
                final(self).channels_private@ == (if old(self).channels_private@.contains_key(k)
                    && private_channel_eq(old(self).channels_private@[k], private_channel) {
                    old(self).channels_private@
                } else {
                    old(self).channels_private@.insert(k, private_channel)
                })
            }),
            private_channel_eq(out, private_channel),
            final(self).channels_guild == old(self).channels_guild,
            final(self).config == old(self).config,
            final(self).current_user == old(self).current_user,
            final(self).emojis == old(self).emojis,
            final(self).groups == old(self).groups,
            final(self).guilds == old(self).guilds,
            final(self).guild_channels == old(self).guild_channels,
            final(self).guild_emojis == old(self).guild_emojis,
            final(self).guild_members == old(self).guild_members,
            final(self).guild_roles == old(self).guild_roles,
            final(self).members == old(self).members,
            final(self).messages == old(self).messages,
            final(self).roles == old(self).roles,
            final(self).unavailable_guilds == old(self).unavailable_guilds,
            final(self).users == old(self).users,
            final(self).metrics.messages == old(self).metrics.messages,
    {
        let id = private_channel.recipients[0];
        match self.channels_private.remove(&id) {
            Some(stored) => {
                if stored == private_channel {
                    let out = stored.clone();
                    self.channels_private.insert(id, stored);
                    proof {
                        assert(self.channels_private@ =~= old(self).channels_private@);
                    }
                    out
                } else {
                    let out = private_channel.clone();
                    self.channels_private.insert(id, private_channel);
                    out
                }
            },
            None => {
                let out = private_channel.clone();
                self.channels_private.insert(id, private_channel);
                proof {
                    assert(vstd::std_specs::hash::spec_hash_map_len(&self.channels_private)
                        == self.channels_private@.len());
                }
                self.metrics.channels_private = self.metrics.channels_private + 1;
                out
            },
        }
    }

    /// Appends a message to the front of its channel's ring; when the ring
    /// would exceed the configured capacity, the oldest message is dropped.
    pub fn cache_message(&mut self, msg: Message)
        requires
            old(self).wf(),
        ensures
            final(self).wf(),
            final(self).messages@.dom() == old(self).messages@.dom().insert(msg.channel_id),
            ring_of(final(self).messages@, msg.channel_id) == ring_push(
                ring_of(old(self).messages@, msg.channel_id),
                cached_of_message(msg),
                old(self).config.message_cache_size as nat,
            ),
            forall|c: u64|
                c != msg.channel_id && old(self).messages@.contains_key(c)
                    ==> final(self).messages@[c] == old(self).messages@[c],
            forall|c: u64|
                c != msg.channel_id ==> ring_of(final(self).messages@, c) == ring_of(
                    old(self).messages@,
                    c,
                ),
            final(self).channels_guild == old(self).channels_guild,
            final(self).channels_private == old(self).channels_private,
            final(self).config == old(self).config,
            final(self).current_user == old(self).current_user,
            final(self).emojis == old(self).emojis,
            final(self).groups == old(self).groups,
            final(self).guilds == old(self).guilds,
            final(self).guild_channels == old(self).guild_channels,
            final(self).guild_emojis == old(self).guild_emojis,
            final(self).guild_members == old(self).guild_members,
            final(self).guild_roles == old(self).guild_roles,
            final(self).members == old(self).members,
            final(self).metrics == old(self).metrics,
            final(self).roles == old(self).roles,
            final(self).unavailable_guilds == old(self).unavailable_guilds,
            final(self).users == old(self).users,
    {
        let channel_id = msg.channel_id;
        let mut ring: VecDeque<CachedMessage> = match self.messages.remove(&channel_id) {
            Some(r) => r,
            None => VecDeque::new(),
        };
        let cached = CachedMessage::from_message(msg);
        ring.push_front(cached);
        if ring.len() > self.config.message_cache_size {
            ring.pop_back();
        }
        self.messages.insert(channel_id, ring);
        proof {
            assert forall|c: u64| self.messages@.contains_key(c) implies (
            #[trigger] self.messages@[c])@.len() <= self.config.message_cache_size by {
                if c != channel_id {
                    assert(self.messages@[c] == old(self).messages@[c]);
                }
            }
        }
    }
}

/// Growth of the user index composes across successive bulk steps.
pub proof fn lemma_users_grown_trans(
    a: Map<u64, (User, BTreeSet<u64>)>,
    b: Map<u64, (User, BTreeSet<u64>)>,
    c: Map<u64, (User, BTreeSet<u64>)>,
    guild_id: u64,
)
    requires
        users_grown(a, b, guild_id),
        users_grown(b, c, guild_id),
    ensures
        users_grown(a, c, guild_id),
{
    assert forall|k: u64| a.contains_key(k) implies (tracked_of(c, k) == tracked_of(a, k)
        || tracked_of(c, k) == tracked_of(a, k).insert(guild_id)) by {
        assert(b.contains_key(k));
        assert(tracked_of(a, k).insert(guild_id).insert(guild_id) =~= tracked_of(a, k).insert(
            guild_id,
        ));
    }
}

/// A single-user upsert also counts as growth for its guild.
pub proof fn lemma_users_upserted_grown(
    a: Map<u64, (User, BTreeSet<u64>)>,
    b: Map<u64, (User, BTreeSet<u64>)>,
    user: User,
    guild_id: u64,
)
    requires
        users_upserted(a, b, user, Some(guild_id)),
    ensures
        users_grown(a, b, guild_id),
{
    assert(a.dom().subset_of(b.dom()));
}

impl InMemoryCache {
    /// Applies a full guild snapshot.
    ///
    /// The payload is authoritative: each of the guild's four secondary sets
    /// is cleared and rebuilt from the payload's entity lists, so an id no
    /// longer present in the snapshot is dropped from the guild's index. The
    /// entities themselves are then upserted, the guild's own record is
    /// stored, and the guild stops being marked unavailable.
    pub fn cache_guild(&mut self, guild: Guild)
        requires
            old(self).wf(),
        ensures
            final(self).wf(),
            final(self).guilds@ == old(self).guilds@.insert(guild.id, cached_of_guild(guild)),
            final(self).unavailable_guilds@ == old(self).unavailable_guilds@.remove(guild.id),
            final(self).channels_guild@ == channels_fold(
                old(self).channels_guild@,
                guild.id,
                guild.channels@,
            ),
            set_of(final(self).guild_channels@, guild.id) == channel_ids(guild.channels@),
            forall|h: u64|
                h != guild.id ==> set_of(final(self).guild_channels@, h) == set_of(
                    old(self).guild_channels@,
                    h,
                ),
            final(self).emojis@ == emojis_fold(
                old(self).emojis@,
                Set::<u64>::empty(),
                guild.id,
                guild.emojis@,
            ).0,
            set_of(final(self).guild_emojis@, guild.id) == emojis_fold(
                old(self).emojis@,
                Set::<u64>::empty(),
                guild.id,
                guild.emojis@,
            ).1,
            forall|h: u64|
                h != guild.id ==> set_of(final(self).guild_emojis@, h) == set_of(
                    old(self).guild_emojis@,
                    h,
                ),
            final(self).members@ == members_fold(
                old(self).members@,
                Set::<u64>::empty(),
                guild.id,
                guild.members@,
            ).0,
            set_of(final(self).guild_members@, guild.id) == members_fold(
                old(self).members@,
                Set::<u64>::empty(),
                guild.id,
                guild.members@,
            ).1,
            forall|h: u64|
                h != guild.id ==> set_of(final(self).guild_members@, h) == set_of(
                    old(self).guild_members@,
                    h,
                ),
            final(self).roles@ == roles_fold(old(self).roles@, guild.id, guild.roles@),
            set_of(final(self).guild_roles@, guild.id) == role_ids(guild.roles@),
            forall|h: u64|
                h != guild.id ==> set_of(final(self).guild_roles@, h) == set_of(
                    old(self).guild_roles@,
                    h,
                ),
            users_grown(old(self).users@, final(self).users@, guild.id),
            final(self).channels_private == old(self).channels_private,
            final(self).config == old(self).config,
            final(self).current_user == old(self).current_user,
            final(self).groups == old(self).groups,
            final(self).messages == old(self).messages,
            final(self).metrics.messages == old(self).metrics.messages,
    {
        let ghost orig = *self;
        index_clear(&mut self.guild_channels, guild.id);
        index_clear(&mut self.guild_emojis, guild.id);
        index_clear(&mut self.guild_members, guild.id);
        index_clear(&mut self.guild_roles, guild.id);
        let Guild {
            id,
            channels,
            emojis,
            icon,
            max_members,
            member_count,
            members,
            name,
            owner_id,
            permissions,
            roles,
            system_channel_id,
            unavailable,
        } = guild;
        self.cache_guild_channels(id, channels);
        proof {
            assert(set_of(self.guild_channels@, id) =~= channel_ids(guild.channels@));
        }
        let ghost after_channels = *self;
        self.cache_emojis(id, emojis);
        let ghost after_emojis = *self;
        self.cache_members(id, members);
        proof {
            lemma_users_grown_trans(
                after_channels.users@,
                after_emojis.users@,
                self.users@,
                id,
            );
        }
        self.cache_roles(id, roles);
        proof {
            assert(set_of(self.guild_roles@, id) =~= role_ids(guild.roles@));
        }
        let cached = CachedGuild {
            id,
            icon,
            max_members,
            member_count,
            name,
            owner_id,
            permissions,
            system_channel_id,
            unavailable,
        };
        if self.unavailable_guilds.remove(&id) {
            proof {
                assert(old(self).unavailable_guilds@.contains(id));
                assert(self.unavailable_guilds@.len() == old(self).unavailable_guilds@.len() - 1);
            }
            self.metrics.unavailable_guilds = self.metrics.unavailable_guilds - 1;
        } else {
            proof {
                assert(self.unavailable_guilds@ =~= old(self).unavailable_guilds@.remove(id));
            }
        }
        let was_present = self.guilds.contains_key(&id);
        self.guilds.insert(id, cached);
        if !was_present {
            proof {
                assert(vstd::std_specs::hash::spec_hash_map_len(&self.guilds)
                    == self.guilds@.len());
            }
            self.metrics.guilds = self.metrics.guilds + 1;
        } else {
            proof {
                assert(self.guilds@.dom() =~= old(self).guilds@.dom());
            }
        }
    }

    /// Returns what the given extractor yields on the newest message of the
    /// channel that yields anything: messages are tried newest first, and
    /// every message newer than the match yielded nothing.
    pub fn message_extract<T, F: Fn(&CachedMessage) -> Option<T>>(
        &self,
        channel_id: u64,
        f: F,
    ) -> (r: Option<T>)
        requires
            forall|m: &CachedMessage| #[trigger] f.requires((m,)),
        ensures
            ({
                let ring = ring_of(self.messages@, channel_id);
                match r {
                    Some(_) => exists|i: int|
                        0 <= i < ring.len() && #[trigger] f.ensures((&ring[i],), r) && (forall|
                            j: int,
                        |
                            0 <= j < i ==> f.ensures((&ring[j],), Option::<T>::None)),
                    None => forall|i: int|
                        0 <= i < ring.len() ==> #[trigger] f.ensures(
                            (&ring[i],),
                            Option::<T>::None,
                        ),
                }
            }),
    {
        match self.messages.get(&channel_id) {
            Some(ring) => {
                let mut i: usize = 0;
                let n = ring.len();
                while i < n
                    invariant
                        i <= n,
                        n == ring@.len(),
                        ring_of(self.messages@, channel_id) == ring@,
                        forall|m: &CachedMessage| #[trigger] f.requires((m,)),
                        forall|j: int|
                            0 <= j < i ==> #[trigger] f.ensures((&ring@[j],), Option::<T>::None),
                    decreases n - i,
                {
                    let res = f(ring.index(i));
                    if res.is_some() {
                        proof {
                            let rg = ring_of(self.messages@, channel_id);
                            assert(rg == ring@);
                            assert(0 <= i < rg.len() && f.ensures((&rg[i as int],), res) && (
                            forall|j: int|
                                0 <= j < i ==> f.ensures((&rg[j],), Option::<T>::None)));
                        }
                        return res;
                    }
                    i = i + 1;
                }
                proof {
                    assert(ring_of(self.messages@, channel_id) == ring@);
                }
                None
            },
            None => None,
        }
    }
}

/// An upsert fold never drops an entry.
pub proof fn lemma_channels_fold_mono(
    m: Map<u64, GuildItem<GuildChannel>>,
    guild_id: u64,
    cs: Seq<GuildChannel>,
    k: u64,
)
    requires
        m.contains_key(k),
    ensures
        channels_fold(m, guild_id, cs).contains_key(k),
    decreases cs.len(),
{
    if cs.len() > 0 {
        let m1 = channel_upsert(m, guild_id, channel_with_guild(cs[0], guild_id));
        assert(m1.contains_key(k));
        lemma_channels_fold_mono(m1, guild_id, cs.skip(1), k);
    }
}

/// After an upsert fold, every payload channel's id is cached.
pub proof fn lemma_channels_fold_contains(
    m: Map<u64, GuildItem<GuildChannel>>,
    guild_id: u64,
    cs: Seq<GuildChannel>,
    i: int,
)
    requires
        0 <= i < cs.len(),
    ensures
        channels_fold(m, guild_id, cs).contains_key(cs[i].id),
    decreases cs.len(),
{
    let m1 = channel_upsert(m, guild_id, channel_with_guild(cs[0], guild_id));
    assert(channels_fold(m, guild_id, cs) == channels_fold(m1, guild_id, cs.skip(1)));
    if i == 0 {
        assert(m1.contains_key(cs[0].id));
        lemma_channels_fold_mono(m1, guild_id, cs.skip(1), cs[0].id);
    } else {
        lemma_channels_fold_contains(m1, guild_id, cs.skip(1), i - 1);
        assert(cs.skip(1)[i - 1] == cs[i]);
    }
}

/// An upsert fold never drops an entry.
pub proof fn lemma_roles_fold_mono(
    m: Map<u64, GuildItem<Role>>,
    guild_id: u64,
    rs: Seq<Role>,
    k: u64,
)
    requires
        m.contains_key(k),
    ensures
        roles_fold(m, guild_id, rs).contains_key(k),
    decreases rs.len(),
{
    if rs.len() > 0 {
        let m1 = role_upsert(m, guild_id, rs[0]);
        assert(m1.contains_key(k));
        lemma_roles_fold_mono(m1, guild_id, rs.skip(1), k);
    }
}

/// After an upsert fold, every payload role's id is cached.
pub proof fn lemma_roles_fold_contains(
    m: Map<u64, GuildItem<Role>>,
    guild_id: u64,
    rs: Seq<Role>,
    i: int,
)
    requires
        0 <= i < rs.len(),
    ensures
        roles_fold(m, guild_id, rs).contains_key(rs[i].id),
    decreases rs.len(),
{
    let m1 = role_upsert(m, guild_id, rs[0]);
    assert(roles_fold(m, guild_id, rs) == roles_fold(m1, guild_id, rs.skip(1)));
    if i == 0 {
        assert(m1.contains_key(rs[0].id));
        lemma_roles_fold_mono(m1, guild_id, rs.skip(1), rs[0].id);
    } else {
        lemma_roles_fold_contains(m1, guild_id, rs.skip(1), i - 1);
        assert(rs.skip(1)[i - 1] == rs[i]);
    }
}

/// An upsert fold never drops an entry.
pub proof fn lemma_members_fold_mono(
    ms: Map<u128, CachedMember>,
    s: Set<u64>,
    guild_id: u64,
    payload: Seq<Member>,
    k: u128,
)
    requires
        ms.contains_key(k),
    ensures
        members_fold(ms, s, guild_id, payload).0.contains_key(k),
    decreases payload.len(),
{
    if payload.len() > 0 {
        let (m1, s1) = member_upsert(ms, s, guild_id, payload[0]);
        assert(m1.contains_key(k));
        lemma_members_fold_mono(m1, s1, guild_id, payload.skip(1), k);
    }
}

/// After an upsert fold, every payload member is cached under its key.
pub proof fn lemma_members_fold_contains(
    ms: Map<u128, CachedMember>,
    s: Set<u64>,
    guild_id: u64,
    payload: Seq<Member>,
    i: int,
)
    requires
        0 <= i < payload.len(),
    ensures
        members_fold(ms, s, guild_id, payload).0.contains_key(
            member_key(guild_id, payload[i].user.id),
        ),
    decreases payload.len(),
{
    let (m1, s1) = member_upsert(ms, s, guild_id, payload[0]);
    assert(members_fold(ms, s, guild_id, payload) == members_fold(
        m1,
        s1,
        guild_id,
        payload.skip(1),
    ));
    if i == 0 {
        assert(m1.contains_key(member_key(guild_id, payload[0].user.id)));
        lemma_members_fold_mono(
            m1,
            s1,
            guild_id,
            payload.skip(1),
            member_key(guild_id, payload[0].user.id),
        );
    } else {
        lemma_members_fold_contains(m1, s1, guild_id, payload.skip(1), i - 1);
        assert(payload.skip(1)[i - 1] == payload[i]);
    }
}

/// An upsert fold never drops an entry.
pub proof fn lemma_emojis_fold_mono(
    m: Map<u64, GuildItem<CachedEmoji>>,
    s: Set<u64>,
    guild_id: u64,
    es: Seq<Emoji>,
    k: u64,
)
    requires
        m.contains_key(k),
    ensures
        emojis_fold(m, s, guild_id, es).0.contains_key(k),
    decreases es.len(),
{
    if es.len() > 0 {
        let (m1, s1) = emoji_upsert(m, s, guild_id, es[0]);
        assert(m1.contains_key(k));
        lemma_emojis_fold_mono(m1, s1, guild_id, es.skip(1), k);
    }
}

/// After an upsert fold, every payload emoji's id is cached.
pub proof fn lemma_emojis_fold_contains(
    m: Map<u64, GuildItem<CachedEmoji>>,
    s: Set<u64>,
    guild_id: u64,
    es: Seq<Emoji>,
    i: int,
)
    requires
        0 <= i < es.len(),
    ensures
        emojis_fold(m, s, guild_id, es).0.contains_key(es[i].id),
    decreases es.len(),
{
    let (m1, s1) = emoji_upsert(m, s, guild_id, es[0]);
    assert(emojis_fold(m, s, guild_id, es) == emojis_fold(m1, s1, guild_id, es.skip(1)));
    if i == 0 {
        assert(m1.contains_key(es[0].id));
        lemma_emojis_fold_mono(m1, s1, guild_id, es.skip(1), es[0].id);
    } else {
        lemma_emojis_fold_contains(m1, s1, guild_id, es.skip(1), i - 1);
        assert(es.skip(1)[i - 1] == es[i]);
    }
}

} // verus!
