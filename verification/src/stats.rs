//! Live counters of the store's cardinalities and the derived statistics
//! surface exposed to monitoring.
use vstd::prelude::*;

use crate::cache::{set_of, tracked_of, InMemoryCache};
use vstd::string::StringExecFns;

verus! {

/// Net counts of cached entities, adjusted on every insert and delete. For a
/// well-formed cache each counter equals the cardinality of its index.
#[derive(Clone, Copy, Debug, PartialEq, Eq, Structural)]
pub struct Metrics {
    pub channels_guild: usize,
    pub channels_private: usize,
    pub emojis: usize,
    pub guilds: usize,
    pub members: usize,
    pub messages: usize,
    pub roles: usize,
    pub unavailable_guilds: usize,
    pub users: usize,
}

/// The all-zero counters of an empty store.
pub open spec fn zero_metrics() -> Metrics {
    Metrics {
        channels_guild: 0,
        channels_private: 0,
        emojis: 0,
        guilds: 0,
        members: 0,
        messages: 0,
        roles: 0,
        unavailable_guilds: 0,
        users: 0,
    }
}

impl Default for Metrics {
    fn default() -> (r: Metrics)
        ensures
            r == zero_metrics(),
    {
        Metrics {
            channels_guild: 0,
            channels_private: 0,
            emojis: 0,
            guilds: 0,
            members: 0,
            messages: 0,
            roles: 0,
            unavailable_guilds: 0,
            users: 0,
        }
    }
}

/// A guild reduced to its display name and its cached member count.
#[derive(Debug)]
pub struct CompactGuild {
    pub name: String,
    pub member_count: usize,
}

/// A user reduced to a display name and the number of guilds shared with the
/// bot.
#[derive(Debug)]
pub struct CompactUser {
    pub name: String,
    pub mutual_count: usize,
}

/// A statistics snapshot: the live counters, and optionally the largest
/// guilds and the users with the most mutual guilds.
#[derive(Debug)]
pub struct CacheStats {
    pub metrics: Metrics,
    pub biggest_guilds: Option<Vec<CompactGuild>>,
    pub most_mutuals_users: Option<Vec<CompactUser>>,
}

/// The store's current-user id as the statistics surface sees it; a cache
/// with no current user excludes the id zero instead, as the reporting has
/// always done.
pub open spec fn stats_bot_id(c: &InMemoryCache) -> u64 {
    match c.current_user {
        Some(u) => u.id,
        None => 0,
    }
}

/// The guilds the statistics surface reports on: those with both a member
/// index entry and a cached guild record.
pub open spec fn eligible_guilds(c: &InMemoryCache) -> Set<u64> {
    c.guild_members@.dom().intersect(c.guilds@.dom())
}

/// The users the statistics surface reports on: every cached user but the
/// current one.
pub open spec fn eligible_users(c: &InMemoryCache) -> Set<u64> {
    c.users@.dom().remove(stats_bot_id(c))
}

/// Whether a reported guild entry is backed by the store: some cached guild
/// has this name and this many indexed members.
pub open spec fn compact_guild_sourced(
    guilds: Map<u64, crate::model::guild::CachedGuild>,
    gm: Map<u64, std::collections::HashSet<u64>>,
    e: CompactGuild,
) -> bool {
    exists|g: u64|
        #![auto]
        guilds.contains_key(g) && gm.contains_key(g) && e.member_count == set_of(gm, g).len()
            && e.name@ == guilds[g].name@
}

/// Whether a reported user entry is backed by the store: some cached user
/// other than the current one has this display name and is tracked in this
/// many guilds.
pub open spec fn compact_user_sourced(
    users: Map<u64, (crate::model::user::User, std::collections::BTreeSet<u64>)>,
    bot: u64,
    e: CompactUser,
) -> bool {
    exists|u: u64|
        #![auto]
        u != bot && users.contains_key(u) && e.mutual_count == tracked_of(users, u).len()
            && e.name@ == users[u].0.name@ + "#"@ + users[u].0.discriminator@
}

/// Whether some reported guild entry carries this guild's name and member
/// count.
pub open spec fn guild_reported(
    v: Seq<CompactGuild>,
    guilds: Map<u64, crate::model::guild::CachedGuild>,
    gm: Map<u64, std::collections::HashSet<u64>>,
    g: u64,
) -> bool {
    exists|i: int|
        #![auto]
        0 <= i < v.len() && v[i].member_count == set_of(gm, g).len() && v[i].name@
            == guilds[g].name@
}

/// Whether every reported guild entry counts at least as many members as
/// this guild has.
pub open spec fn guild_outranked(
    v: Seq<CompactGuild>,
    gm: Map<u64, std::collections::HashSet<u64>>,
    g: u64,
) -> bool {
    forall|i: int| 0 <= i < v.len() ==> (#[trigger] v[i]).member_count >= set_of(gm, g).len()
}

/// Whether some reported user entry carries this user's display name and
/// mutual-guild count.
pub open spec fn user_reported(
    v: Seq<CompactUser>,
    users: Map<u64, (crate::model::user::User, std::collections::BTreeSet<u64>)>,
    u: u64,
) -> bool {
    exists|i: int|
        #![auto]
        0 <= i < v.len() && v[i].mutual_count == tracked_of(users, u).len() && v[i].name@
            == users[u].0.name@ + "#"@ + users[u].0.discriminator@
}

/// Whether every reported user entry counts at least as many mutual guilds
/// as this user has.
pub open spec fn user_outranked(
    v: Seq<CompactUser>,
    users: Map<u64, (crate::model::user::User, std::collections::BTreeSet<u64>)>,
    u: u64,
) -> bool {
    forall|i: int| 0 <= i < v.len() ==> (#[trigger] v[i]).mutual_count >= tracked_of(
        users,
        u,
    ).len()
}

/// Picks up to `amount` pairs with the largest second components, largest
/// first: every returned pair comes from the input, and every input pair
/// left out ranks no higher than any returned one.
fn top_pairs_desc(pairs: Vec<(u64, usize)>, amount: usize) -> (out: Vec<(u64, usize)>)
    ensures
        out@.len() == (if amount <= pairs@.len() {
            amount as int
        } else {
            pairs@.len() as int
        }),
        forall|i: int, j: int|
            0 <= i < j < out@.len() ==> (#[trigger] out@[i]).1 >= (#[trigger] out@[j]).1,
        forall|i: int| 0 <= i < out@.len() ==> pairs@.contains(#[trigger] out@[i]),
        forall|p: (u64, usize), i: int|
            #![trigger pairs@.contains(p), out@[i]]
            pairs@.contains(p) && !out@.contains(p) && 0 <= i < out@.len() ==> out@[i].1 >= p.1,
{
    let ghost orig = pairs@;
    let mut rest = pairs;
    let mut out: Vec<(u64, usize)> = Vec::new();
    while out.len() < amount && rest.len() > 0
        invariant
            out@.len() <= amount,
            out@.len() + rest@.len() == orig.len(),
            forall|i: int| 0 <= i < rest@.len() ==> orig.contains(#[trigger] rest@[i]),
            forall|i: int| 0 <= i < out@.len() ==> orig.contains(#[trigger] out@[i]),
            forall|p: (u64, usize)|
                #[trigger] orig.contains(p) ==> out@.contains(p) || rest@.contains(p),
            forall|i: int, j: int|
                0 <= i < j < out@.len() ==> (#[trigger] out@[i]).1 >= (#[trigger] out@[j]).1,
            forall|i: int, j: int|
                0 <= i < out@.len() && 0 <= j < rest@.len() ==> (#[trigger] out@[i]).1 >= (
                #[trigger] rest@[j]).1,
        decreases amount - out.len(),
    {
        let mut best: usize = 0;
        let mut k: usize = 1;
        while k < rest.len()
            invariant
                rest@.len() > 0,
                best < rest@.len(),
                k <= rest@.len(),
                forall|j: int| 0 <= j < k ==> (#[trigger] rest@[j]).1 <= rest@[best as int].1,
            decreases rest@.len() - k,
        {
            if rest[k].1 > rest[best].1 {
                best = k;
            }
            k = k + 1;
        }
        let ghost rpre = rest@;
        let ghost opre = out@;
        let item = rest.remove(best);
        proof {
            assert(orig.contains(item));
            assert forall|i: int| 0 <= i < rest@.len() implies orig.contains(
                #[trigger] rest@[i],
            ) by {
                assert(orig.contains(rest@[i]));
            }
        }
        out.push(item);
        proof {
            assert(out@[out@.len() - 1] == item);
            assert(out@.contains(item));
            assert forall|p: (u64, usize)| #[trigger] orig.contains(p) implies out@.contains(p)
                || rest@.contains(p) by {
                if p == item {
                    assert(out@[out@.len() - 1] == p);
                } else if rpre.contains(p) {
                    let j = choose|j: int| 0 <= j < rpre.len() && rpre[j] == p;
                    if j < best {
                        assert(rest@[j] == p);
                    } else {
                        assert(rest@[j - 1] == p);
                    }
                } else {
                    assert(opre.contains(p));
                    let j = choose|j: int| 0 <= j < opre.len() && opre[j] == p;
                    assert(out@[j] == p);
                }
            }
        }
    }
    proof {
        assert forall|p: (u64, usize), i: int|
            orig.contains(p) && !out@.contains(p) && 0 <= i < out@.len() implies out@[i].1
            >= p.1 by {
            assert(rest@.contains(p));
            let j = choose|j: int| 0 <= j < rest@.len() && rest@[j] == p;
            assert(out@[i].1 >= rest@[j].1);
        }
    }
    out
}

impl InMemoryCache {
    /// A statistics snapshot: the live counters; when asked for, the
    /// guilds with the most cached members, largest first, and the users
    /// (other than the current one) tracked in the most guilds, largest
    /// first. Each list holds as many entries as asked for or as the store
    /// can supply, every entry is backed by the store, and everything the
    /// store could have reported but did not ranks no higher than what it
    /// did.
    pub fn stats(&self, guild_amount: usize, mutuals_amount: usize) -> (r: CacheStats)
        ensures
            r.metrics == self.metrics,
            (r.biggest_guilds is Some) == (guild_amount > 0),
            (r.most_mutuals_users is Some) == (mutuals_amount > 0),
            r.biggest_guilds is Some ==> {
                let v = r.biggest_guilds.unwrap()@;
                &&& v.len() == (if guild_amount <= eligible_guilds(self).len() {
                    guild_amount as int
                } else {
                    eligible_guilds(self).len() as int
                })
                &&& forall|i: int, j: int|
                    0 <= i < j < v.len() ==> (#[trigger] v[i]).member_count >= (
                    #[trigger] v[j]).member_count
                &&& forall|i: int|
                    0 <= i < v.len() ==> compact_guild_sourced(
                        self.guilds@,
                        self.guild_members@,
                        #[trigger] v[i],
                    )
                &&& forall|g: u64|
                    #![trigger eligible_guilds(self).contains(g)]
                    eligible_guilds(self).contains(g) ==> guild_reported(
                        v,
                        self.guilds@,
                        self.guild_members@,
                        g,
                    ) || guild_outranked(v, self.guild_members@, g)
            },
            r.most_mutuals_users is Some ==> {
                let v = r.most_mutuals_users.unwrap()@;
                &&& v.len() == (if mutuals_amount <= eligible_users(self).len() {
                    mutuals_amount as int
                } else {
                    eligible_users(self).len() as int
                })
                &&& forall|i: int, j: int|
                    0 <= i < j < v.len() ==> (#[trigger] v[i]).mutual_count >= (
                    #[trigger] v[j]).mutual_count
                &&& forall|i: int|
                    0 <= i < v.len() ==> compact_user_sourced(
                        self.users@,
                        stats_bot_id(self),
                        #[trigger] v[i],
                    )
                &&& forall|u: u64|
                    #![trigger eligible_users(self).contains(u)]
                    eligible_users(self).contains(u) ==> user_reported(v, self.users@, u)
                        || user_outranked(v, self.users@, u)
            },
    {
        let biggest_guilds = if guild_amount > 0 {
            let mut pairs: Vec<(u64, usize)> = Vec::new();
            let ghost mut seen: Set<u64> = Set::empty();
            for kv in it: self.guild_members.iter()
                invariant
                    it.seq().no_duplicates(),
                    forall|j: int|
                        0 <= j < it.seq().len() ==> self.guild_members@.contains_key(
                            *(#[trigger] it.seq()[j]).0,
                        ) && self.guild_members@[*it.seq()[j].0] == *it.seq()[j].1,
                    forall|k: u64|
                        #[trigger] self.guild_members@.contains_key(k) ==> it.seq().contains(
                            (&k, &self.guild_members@[k]),
                        ),
                    seen.finite(),
                    seen.len() == pairs@.len(),
                    forall|k: u64|
                        #[trigger] seen.contains(k) <==> (self.guilds@.contains_key(k) && exists|
                            j: int,
                        |
                            0 <= j < it.index() && *(#[trigger] it.seq()[j]).0 == k),
                    forall|idx: int|
                        0 <= idx < pairs@.len() ==> self.guild_members@.contains_key(
                            (#[trigger] pairs@[idx]).0,
                        ) && self.guilds@.contains_key(pairs@[idx].0) && pairs@[idx].1 == set_of(
                            self.guild_members@,
                            pairs@[idx].0,
                        ).len(),
                    forall|k: u64|
                        #[trigger] seen.contains(k) ==> exists|idx: int|
                            0 <= idx < pairs@.len() && (#[trigger] pairs@[idx]).0 == k,
                ensures
                    seen.finite(),
                    seen.len() == pairs@.len(),
                    forall|k: u64|
                        #[trigger] seen.contains(k) <==> (self.guilds@.contains_key(k)
                            && self.guild_members@.contains_key(k)),
                    forall|k: u64|
                        #[trigger] seen.contains(k) ==> exists|idx: int|
                            0 <= idx < pairs@.len() && (#[trigger] pairs@[idx]).0 == k,
                    forall|idx: int|
                        0 <= idx < pairs@.len() ==> self.guild_members@.contains_key(
                            (#[trigger] pairs@[idx]).0,
                        ) && self.guilds@.contains_key(pairs@[idx].0) && pairs@[idx].1 == set_of(
                            self.guild_members@,
                            pairs@[idx].0,
                        ).len(),
            {
                let (k, v) = kv;
                proof {
                    let i = it.index() as int;
                    assert(kv == it.seq()[i]);
                    assert(!seen.contains(*k)) by {
                        if seen.contains(*k) {
                            let j = choose|j: int|
                                0 <= j < i && *(#[trigger] it.seq()[j]).0 == *k;
                            assert(self.guild_members@[*it.seq()[j].0]
                                == self.guild_members@[*it.seq()[i].0]);
                            assert(it.seq()[j] == it.seq()[i]);
                        }
                    }
                }
                if self.guilds.contains_key(k) {
                    let ghost ppre = pairs@;
                    pairs.push((*k, v.len()));
                    proof {
                        seen = seen.insert(*k);
                        assert(seen.len() == pairs@.len());
                        assert forall|k2: u64| #[trigger] seen.contains(k2) implies exists|
                            idx: int,
                        |
                            0 <= idx < pairs@.len() && (#[trigger] pairs@[idx]).0 == k2 by {
                            if k2 == *k {
                                assert(pairs@[pairs@.len() - 1].0 == k2);
                            } else {
                                let idx = choose|idx: int|
                                    0 <= idx < ppre.len() && (#[trigger] ppre[idx]).0 == k2;
                                assert(pairs@[idx].0 == k2);
                            }
                        }
                    }
                }
            }
            let ghost ps = pairs@;
            proof {
                assert(seen =~= eligible_guilds(self));
                assert forall|k: u64|
                    eligible_guilds(self).contains(k) implies exists|idx: int|
                    0 <= idx < ps.len() && (#[trigger] ps[idx]).0 == k by {
                    assert(seen.contains(k));
                }
            }
            let top = top_pairs_desc(pairs, guild_amount);
            proof {
                assert forall|a: int|
                    0 <= a < top@.len() implies self.guild_members@.contains_key(
                    (#[trigger] top@[a]).0,
                ) && self.guilds@.contains_key(top@[a].0) && top@[a].1 == set_of(
                    self.guild_members@,
                    top@[a].0,
                ).len() by {
                    assert(ps.contains(top@[a]));
                    let idx = choose|idx: int| 0 <= idx < ps.len() && ps[idx] == top@[a];
                    assert(ps[idx].0 == top@[a].0 && ps[idx].1 == top@[a].1);
                }
            }
            let mut biggest: Vec<CompactGuild> = Vec::new();
            let n = top.len();
            let mut i: usize = 0;
            while i < n
                invariant
                    i <= n,
                    n == top@.len(),
                    forall|a: int|
                        0 <= a < top@.len() ==> self.guild_members@.contains_key(
                            (#[trigger] top@[a]).0,
                        ) && self.guilds@.contains_key(top@[a].0) && top@[a].1 == set_of(
                            self.guild_members@,
                            top@[a].0,
                        ).len(),
                    forall|a: int, b: int|
                        0 <= a < b < top@.len() ==> (#[trigger] top@[a]).1 >= (
                        #[trigger] top@[b]).1,
                    biggest@.len() == i,
                    forall|a: int|
                        0 <= a < i ==> (#[trigger] biggest@[a]).member_count == top@[a].1
                            && biggest@[a].name@ == self.guilds@[top@[a].0].name@,
                decreases n - i,
            {
                let (gid, count) = top[i];
                match self.guilds.get(&gid) {
                    Some(g) => {
                        biggest.push(CompactGuild { name: g.name.clone(), member_count: count });
                    },
                    None => {},
                }
                i = i + 1;
            }
            proof {
                assert forall|a: int|
                    0 <= a < biggest@.len() implies compact_guild_sourced(
                    self.guilds@,
                    self.guild_members@,
                    #[trigger] biggest@[a],
                ) by {
                    let g = top@[a].0;
                    assert(self.guilds@.contains_key(g) && self.guild_members@.contains_key(g)
                        && biggest@[a].member_count == set_of(self.guild_members@, g).len()
                        && biggest@[a].name@ == self.guilds@[g].name@);
                }
                assert forall|g: u64|
                    eligible_guilds(self).contains(g) implies guild_reported(
                    biggest@,
                    self.guilds@,
                    self.guild_members@,
                    g,
                ) || guild_outranked(biggest@, self.guild_members@, g) by {
                    let idx = choose|idx: int| 0 <= idx < ps.len() && (#[trigger] ps[idx]).0 == g;
                    let p = ps[idx];
                    assert(ps.contains(p));
                    assert(p.1 == set_of(self.guild_members@, g).len());
                    if top@.contains(p) {
                        let a = choose|a: int| 0 <= a < top@.len() && top@[a] == p;
                        assert(biggest@[a].member_count == set_of(self.guild_members@, g).len()
                            && biggest@[a].name@ == self.guilds@[g].name@);
                    } else {
                        assert forall|i2: int|
                            0 <= i2 < biggest@.len() implies (
                        #[trigger] biggest@[i2]).member_count >= set_of(
                            self.guild_members@,
                            g,
                        ).len() by {
                            assert(top@[i2].1 >= p.1);
                        }
                    }
                }
            }
            Some(biggest)
        } else {
            None
        };
        let most_mutuals_users = if mutuals_amount > 0 {
            let bot_id: u64 = match &self.current_user {
                Some(u) => u.id,
                None => 0,
            };
            let mut pairs: Vec<(u64, usize)> = Vec::new();
            let ghost mut seen: Set<u64> = Set::empty();
            for kv in it: self.users.iter()
                invariant
                    bot_id == stats_bot_id(self),
                    it.seq().no_duplicates(),
                    forall|j: int|
                        0 <= j < it.seq().len() ==> self.users@.contains_key(
                            *(#[trigger] it.seq()[j]).0,
                        ) && self.users@[*it.seq()[j].0] == *it.seq()[j].1,
                    forall|k: u64|
                        #[trigger] self.users@.contains_key(k) ==> it.seq().contains(
                            (&k, &self.users@[k]),
                        ),
                    seen.finite(),
                    seen.len() == pairs@.len(),
                    forall|k: u64|
                        #[trigger] seen.contains(k) <==> (k != bot_id && exists|j: int|
                            0 <= j < it.index() && *(#[trigger] it.seq()[j]).0 == k),
                    forall|idx: int|
                        0 <= idx < pairs@.len() ==> self.users@.contains_key(
                            (#[trigger] pairs@[idx]).0,
                        ) && pairs@[idx].0 != bot_id && pairs@[idx].1 == tracked_of(
                            self.users@,
                            pairs@[idx].0,
                        ).len(),
                    forall|k: u64|
                        #[trigger] seen.contains(k) ==> exists|idx: int|
                            0 <= idx < pairs@.len() && (#[trigger] pairs@[idx]).0 == k,
                ensures
                    seen.finite(),
                    seen.len() == pairs@.len(),
                    forall|k: u64|
                        #[trigger] seen.contains(k) <==> (k != stats_bot_id(self)
                            && self.users@.contains_key(k)),
                    forall|k: u64|
                        #[trigger] seen.contains(k) ==> exists|idx: int|
                            0 <= idx < pairs@.len() && (#[trigger] pairs@[idx]).0 == k,
                    forall|idx: int|
                        0 <= idx < pairs@.len() ==> self.users@.contains_key(
                            (#[trigger] pairs@[idx]).0,
                        ) && pairs@[idx].0 != stats_bot_id(self) && pairs@[idx].1 == tracked_of(
                            self.users@,
                            pairs@[idx].0,
                        ).len(),
            {
                let (k, v) = kv;
                proof {
                    let i = it.index() as int;
                    assert(kv == it.seq()[i]);
                    assert(!seen.contains(*k)) by {
                        if seen.contains(*k) {
                            let j = choose|j: int|
                                0 <= j < i && *(#[trigger] it.seq()[j]).0 == *k;
                            assert(self.users@[*it.seq()[j].0] == self.users@[*it.seq()[i].0]);
                            assert(it.seq()[j] == it.seq()[i]);
                        }
                    }
                }
                if *k != bot_id {
                    let ghost ppre = pairs@;
                    pairs.push((*k, v.1.len()));
                    proof {
                        seen = seen.insert(*k);
                        assert(seen.len() == pairs@.len());
                        assert forall|k2: u64| #[trigger] seen.contains(k2) implies exists|
                            idx: int,
                        |
                            0 <= idx < pairs@.len() && (#[trigger] pairs@[idx]).0 == k2 by {
                            if k2 == *k {
                                assert(pairs@[pairs@.len() - 1].0 == k2);
                            } else {
                                let idx = choose|idx: int|
                                    0 <= idx < ppre.len() && (#[trigger] ppre[idx]).0 == k2;
                                assert(pairs@[idx].0 == k2);
                            }
                        }
                    }
                }
            }
            let ghost ps = pairs@;
            proof {
                assert(seen =~= eligible_users(self));
                assert forall|k: u64|
                    eligible_users(self).contains(k) implies exists|idx: int|
                    0 <= idx < ps.len() && (#[trigger] ps[idx]).0 == k by {
                    assert(seen.contains(k));
                }
            }
            let top = top_pairs_desc(pairs, mutuals_amount);
            proof {
                assert forall|a: int|
                    0 <= a < top@.len() implies self.users@.contains_key((#[trigger] top@[a]).0)
                    && top@[a].0 != stats_bot_id(self) && top@[a].1 == tracked_of(
                    self.users@,
                    top@[a].0,
                ).len() by {
                    assert(ps.contains(top@[a]));
                    let idx = choose|idx: int| 0 <= idx < ps.len() && ps[idx] == top@[a];
                    assert(ps[idx].0 == top@[a].0 && ps[idx].1 == top@[a].1);
                }
            }
            let mut mutuals: Vec<CompactUser> = Vec::new();
            let n = top.len();
            let mut i: usize = 0;
            while i < n
                invariant
                    i <= n,
                    n == top@.len(),
                    forall|a: int|
                        0 <= a < top@.len() ==> self.users@.contains_key((#[trigger] top@[a]).0)
                            && top@[a].0 != stats_bot_id(self) && top@[a].1 == tracked_of(
                            self.users@,
                            top@[a].0,
                        ).len(),
                    forall|a: int, b: int|
                        0 <= a < b < top@.len() ==> (#[trigger] top@[a]).1 >= (
                        #[trigger] top@[b]).1,
                    mutuals@.len() == i,
                    forall|a: int|
                        0 <= a < i ==> (#[trigger] mutuals@[a]).mutual_count == top@[a].1
                            && mutuals@[a].name@ == self.users@[top@[a].0].0.name@ + "#"@
                            + self.users@[top@[a].0].0.discriminator@,
                decreases n - i,
            {
                let (uid, count) = top[i];
                match self.users.get(&uid) {
                    Some(p) => {
                        let mut name = p.0.name.clone();
                        name.append("#");
                        name.append(p.0.discriminator.as_str());
                        mutuals.push(CompactUser { name, mutual_count: count });
                    },
                    None => {},
                }
                i = i + 1;
            }
            proof {
                assert forall|a: int|
                    0 <= a < mutuals@.len() implies compact_user_sourced(
                    self.users@,
                    stats_bot_id(self),
                    #[trigger] mutuals@[a],
                ) by {
                    let u = top@[a].0;
                    assert(u != stats_bot_id(self) && self.users@.contains_key(u)
                        && mutuals@[a].mutual_count == tracked_of(self.users@, u).len()
                        && mutuals@[a].name@ == self.users@[u].0.name@ + "#"@
                        + self.users@[u].0.discriminator@);
                }
                assert forall|u: u64|
                    eligible_users(self).contains(u) implies user_reported(
                    mutuals@,
                    self.users@,
                    u,
                ) || user_outranked(mutuals@, self.users@, u) by {
                    let idx = choose|idx: int| 0 <= idx < ps.len() && (#[trigger] ps[idx]).0 == u;
                    let p = ps[idx];
                    assert(ps.contains(p));
                    assert(p.1 == tracked_of(self.users@, u).len());
                    if top@.contains(p) {
                        let a = choose|a: int| 0 <= a < top@.len() && top@[a] == p;
                        assert(mutuals@[a].mutual_count == tracked_of(self.users@, u).len()
                            && mutuals@[a].name@ == self.users@[u].0.name@ + "#"@
                            + self.users@[u].0.discriminator@);
                    } else {
                        assert forall|i2: int|
                            0 <= i2 < mutuals@.len() implies (
                        #[trigger] mutuals@[i2]).mutual_count >= tracked_of(
                            self.users@,
                            u,
                        ).len() by {
                            assert(top@[i2].1 >= p.1);
                        }
                    }
                }
            }
            Some(mutuals)
        } else {
            None
        };
        CacheStats { metrics: self.metrics, biggest_guilds, most_mutuals_users }
    }
}

} // verus!
