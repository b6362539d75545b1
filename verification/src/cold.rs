//! The snapshot codec: draining the store into bounded chunks for an
//! external key-value store, and repopulating it from such chunks after a
//! restart.
//!
//! The store's side of the work is all here and verified: chunk arithmetic,
//! partitioning, draining, and the simplified insert paths used on restore,
//! which recompute the counters from the index cardinalities once applied.
//! Serializing a chunk to bytes and talking to the external store are the
//! caller's concern.
use vstd::prelude::*;
use vstd::string::StringExecFns;

use crate::cache::{set_of, InMemoryCache};
use crate::update::index_insert;
use crate::model::channel::{ChannelKind, ColdStorageTextChannel, GuildChannel};
use crate::model::guild::CachedGuild;
use crate::model::member::{member_key, member_key_exec, CachedMember};
use crate::model::role::{ColdStorageRole, Role};
use crate::model::user::{cold_of_user, current_user_eq, user_of_cold, ColdStorageUser, CurrentUser, User};
use std::collections::{BTreeSet, HashMap};

verus! {

broadcast use vstd::std_specs::hash::group_hash_axioms, vstd::std_specs::btree::group_btree_axioms, vstd::laws_cmp::group_laws_cmp;

/// Guild entries per exported chunk.
pub const GUILD_CHUNK_SIZE: usize = 25_000;

/// Entries per exported chunk for every other resource type.
pub const COLD_CHUNK_SIZE: usize = 100_000;

/// A gateway session that can be resumed: its token and last sequence
/// number.
pub type ResumeSession = (String, u64);

/// The result of a snapshot or restore step.
pub type RedisCacheResult<T> = Result<T, RedisCacheError>;

/// What can go wrong while writing or reading a snapshot. The payloads
/// describe the underlying failure; the store itself produces
/// `MissingCurrentUser` and `Serde`, the caller wraps its transport and
/// storage failures in the rest.
#[derive(Debug)]
pub enum RedisCacheError {
    /// A snapshot was requested of a cache with no current user.
    MissingCurrentUser,
    /// A key the restart metadata promised was absent.
    MissingKey(String),
    /// The connection pool failed.
    Pool(String),
    /// The external store failed while reading.
    Redis(String),
    /// A chunk could not be decoded, or decoded to malformed entries.
    Serde(String),
    /// The external store failed while writing the named key.
    Store(String, String),
}

impl RedisCacheError {
    /// A human-readable account of the failure, in place of a formatting
    /// trait.
    pub fn description(&self) -> (r: String)
        ensures
            match self {
                RedisCacheError::MissingCurrentUser => r@ =~= "missing current user in cache"@,
                RedisCacheError::MissingKey(key) => r@ =~= "missing key `"@ + key@ + "`"@,
                RedisCacheError::Pool(why) => r@ =~= "pool error: "@ + why@,
                RedisCacheError::Redis(why) => r@ =~= "storage error: "@ + why@,
                RedisCacheError::Serde(why) => r@ =~= "serialization error: "@ + why@,
                RedisCacheError::Store(why, key) => r@ =~= "failed to set key `"@ + key@ + "`: "@
                    + why@,
            },
    {
        match self {
            RedisCacheError::MissingCurrentUser => "missing current user in cache".to_owned(),
            RedisCacheError::MissingKey(key) => {
                let mut r = "missing key `".to_owned();
                r.append(key.as_str());
                r.append("`");
                r
            },
            RedisCacheError::Pool(why) => {
                let mut r = "pool error: ".to_owned();
                r.append(why.as_str());
                r
            },
            RedisCacheError::Redis(why) => {
                let mut r = "storage error: ".to_owned();
                r.append(why.as_str());
                r
            },
            RedisCacheError::Serde(why) => {
                let mut r = "serialization error: ".to_owned();
                r.append(why.as_str());
                r
            },
            RedisCacheError::Store(why, key) => {
                let mut r = "failed to set key `".to_owned();
                r.append(key.as_str());
                r.append("`: ");
                r.append(why.as_str());
                r
            },
        }
    }
}

/// The restart metadata stored beside the chunks: the sessions to resume per
/// shard, and how many chunks each resource type was split into.
#[derive(Debug)]
pub struct ColdRebootData {
    pub resume_data: HashMap<u64, ResumeSession>,
    pub guild_chunks: usize,
    pub user_chunks: usize,
    pub member_chunks: usize,
    pub channel_chunks: usize,
    pub role_chunks: usize,
}

/// Everything a snapshot holds, drained from the store and partitioned into
/// bounded chunks ready for serialization.
#[derive(Debug)]
pub struct ColdResumePayload {
    pub guilds: Vec<Vec<CachedGuild>>,
    pub users: Vec<Vec<ColdStorageUser>>,
    pub members: Vec<Vec<CachedMember>>,
    pub channels: Vec<Vec<ColdStorageTextChannel>>,
    pub roles: Vec<Vec<ColdStorageRole>>,
    pub current_user: CurrentUser,
}

/// How many chunks a resource with `len` entries needs at `size` entries per
/// chunk: at least one, else just enough to hold them all.
pub open spec fn spec_chunk_count(len: nat, size: nat) -> nat {
    if len == 0 {
        1
    } else {
        ((len - 1) / (size as int) + 1) as nat
    }
}

/// Computes the chunk count.
pub fn chunk_count(len: usize, size: usize) -> (n: usize)
    requires
        size > 0,
    ensures
        n == spec_chunk_count(len as nat, size as nat),
{
    if len == 0 {
        1
    } else {
        1 + (len - 1) / size
    }
}

/// The concatenation of a sequence of chunks.
pub open spec fn flat_chunks<T>(cs: Seq<Vec<T>>) -> Seq<T>
    decreases cs.len(),
{
    if cs.len() == 0 {
        Seq::empty()
    } else {
        cs[0]@ + flat_chunks(cs.skip(1))
    }
}

/// Appending one more chunk appends its contents.
pub proof fn lemma_flat_chunks_snoc<T>(cs: Seq<Vec<T>>, x: Vec<T>)
    ensures
        flat_chunks(cs.push(x)) == flat_chunks(cs) + x@,
    decreases cs.len(),
{
    let q = cs.push(x);
    assert(flat_chunks(q) == q[0]@ + flat_chunks(q.skip(1)));
    if cs.len() == 0 {
        assert(q[0] == x);
        assert(q.skip(1) =~= Seq::<Vec<T>>::empty());
        assert(flat_chunks(q.skip(1)) == Seq::<T>::empty());
        assert(flat_chunks(cs) == Seq::<T>::empty());
        assert(flat_chunks(q) =~= flat_chunks(cs) + x@);
    } else {
        assert(q[0] == cs[0]);
        assert(q.skip(1) =~= cs.skip(1).push(x));
        lemma_flat_chunks_snoc(cs.skip(1), x);
        assert(flat_chunks(cs) == cs[0]@ + flat_chunks(cs.skip(1)));
        assert(flat_chunks(q) =~= flat_chunks(cs) + x@);
    }
}

/// Splits a list into successive chunks of at most `size` entries: an empty
/// list gives one empty chunk, and no entry is lost, duplicated or
/// reordered.
pub fn partition_chunks<T>(items: Vec<T>, size: usize) -> (chunks: Vec<Vec<T>>)
    requires
        size > 0,
    ensures
        chunks@.len() == spec_chunk_count(items@.len(), size as nat),
        flat_chunks(chunks@) == items@,
        forall|i: int| 0 <= i < chunks@.len() ==> (#[trigger] chunks@[i])@.len() <= size,
{
    let ghost all = items@;
    let n = items.len();
    let mut chunks: Vec<Vec<T>> = Vec::new();
    let mut cur: Vec<T> = Vec::new();
    proof {
        assert(flat_chunks(chunks@) + cur@ =~= all.take(0));
    }
    for x in it: items.into_iter()
        invariant
            size > 0,
            it.seq() == all,
            n == all.len(),
            flat_chunks(chunks@) + cur@ == all.take(it.index() as int),
            cur@.len() <= size,
            cur@.len() == 0 ==> it.index() == 0 && chunks@.len() == 0,
            forall|i: int| 0 <= i < chunks@.len() ==> (#[trigger] chunks@[i])@.len() == size,
            chunks@.len() * size + cur@.len() == it.index(),
        ensures
            flat_chunks(chunks@) + cur@ == all,
            cur@.len() <= size,
            cur@.len() == 0 ==> n == 0 && chunks@.len() == 0,
            forall|i: int| 0 <= i < chunks@.len() ==> (#[trigger] chunks@[i])@.len() == size,
            chunks@.len() * size + cur@.len() == n,
    {
        proof {
            let i = it.index() as int;
            assert(x == all[i]);
            assert(all.take(i + 1) =~= all.take(i).push(x));
        }
        if cur.len() == size {
            proof {
                lemma_flat_chunks_snoc(chunks@, cur);
                assert((chunks@.len() + 1) * size == chunks@.len() * size + size)
                    by (nonlinear_arith);
            }
            chunks.push(cur);
            cur = Vec::new();
        }
        cur.push(x);
        proof {
            assert(flat_chunks(chunks@) + cur@ =~= all.take(it.index() as int + 1));
        }
    }
    proof {
        assert(all.take(n as int) =~= all);
    }
    proof {
        lemma_flat_chunks_snoc(chunks@, cur);
        assert((chunks@.len() + 1) * size == chunks@.len() * size + size) by (nonlinear_arith);
    }
    chunks.push(cur);
    proof {
        assert(flat_chunks(chunks@) =~= all);
        lemma_partition_count(chunks@, all, size as nat);
    }
    chunks
}

/// The chunk-count arithmetic behind [`partition_chunks`]: full chunks plus
/// a bounded trailing one land exactly on the required count.
proof fn lemma_partition_count<T>(chunks: Seq<Vec<T>>, all: Seq<T>, size: nat)
    requires
        size > 0,
        flat_chunks(chunks) == all,
        chunks.len() > 0,
        forall|i: int| 0 <= i < chunks.len() - 1 ==> (#[trigger] chunks[i])@.len() == size,
        chunks.last()@.len() <= size,
        chunks.len() > 1 ==> chunks.last()@.len() > 0,
        chunks.last()@.len() == 0 ==> all.len() == 0,
        (chunks.len() - 1) * size + chunks.last()@.len() == all.len(),
    ensures
        chunks.len() == spec_chunk_count(all.len(), size),
{
    let k = chunks.len() - 1;
    let t = chunks.last()@.len() as int;
    if all.len() == 0 {
        assert(k * size + t == 0);
        assert(k * size == 0) by (nonlinear_arith)
            requires
                k >= 0,
                t >= 0,
                k * size + t == 0,
        ;
        assert(k == 0) by (nonlinear_arith)
            requires
                k >= 0,
                size > 0,
                k * size == 0,
        ;
    } else {
        assert(t > 0) by (nonlinear_arith)
            requires
                k >= 0,
                size > 0,
                t >= 0,
                k * size + t == all.len(),
                all.len() > 0,
                k > 0 ==> t > 0,
                t == 0 ==> all.len() == 0,
            ;
        assert((all.len() - 1) / (size as int) == k) by (nonlinear_arith)
            requires
                size > 0,
                0 < t <= size,
                k >= 0,
                k * size + t == all.len(),
        ;
    }
}

/// Appending to a sequence adds the element to its set of values.
pub proof fn lemma_push_to_set<T>(s: Seq<T>, x: T)
    ensures
        s.push(x).to_set() == s.to_set().insert(x),
{
    assert forall|y: T| s.push(x).to_set().contains(y) implies s.to_set().insert(x).contains(
        y,
    ) by {
        let j = choose|j: int| 0 <= j < s.push(x).len() && s.push(x)[j] == y;
        if j < s.len() {
            assert(s[j] == y);
        }
    }
    assert forall|y: T| s.to_set().insert(x).contains(y) implies s.push(x).to_set().contains(
        y,
    ) by {
        if y == x {
            assert(s.push(x)[s.len() as int] == y);
        } else {
            let j = choose|j: int| 0 <= j < s.len() && s[j] == y;
            assert(s.push(x)[j] == y);
        }
    }
    assert(s.push(x).to_set() =~= s.to_set().insert(x));
}

/// Removes every entry of a map, returning them as key/value pairs with
/// distinct keys, each taken verbatim from the map.
fn drain_map<K: core::hash::Hash + Eq + Copy, V>(m: &mut HashMap<K, V>) -> (out: Vec<(K, V)>)
    requires
        vstd::std_specs::hash::obeys_key_model::<K>(),
    ensures
        final(m)@ == Map::<K, V>::empty(),
        out@.len() == old(m)@.len(),
        forall|i: int|
            0 <= i < out@.len() ==> old(m)@.contains_key((#[trigger] out@[i]).0)
                && old(m)@[out@[i].0] == out@[i].1,
        forall|k: K|
            #[trigger] old(m)@.contains_key(k) ==> exists|i: int|
                0 <= i < out@.len() && out@[i].0 == k,
        forall|i: int, j: int| 0 <= i < j < out@.len() ==> out@[i].0 != out@[j].0,
{
    let mut keys: Vec<K> = Vec::new();
    for x in it: m.keys()
        invariant
            vstd::std_specs::hash::obeys_key_model::<K>(),
            it.seq().unref().to_set() == m@.dom(),
            it.seq().len() == m@.dom().len(),
            keys@.len() == it.index(),
            forall|y: K| keys@.to_set().contains(y) ==> m@.dom().contains(y),
            forall|j: int|
                0 <= j < it.index() ==> keys@.to_set().contains(
                    #[trigger] it.seq().unref()[j],
                ),
        ensures
            keys@.to_set() == m@.dom(),
            keys@.len() == m@.dom().len(),
    {
        proof {
            let i = it.index() as int;
            assert(*x == *it.seq()[i]);
            assert(it.seq().unref()[i] == *x);
            assert(it.seq().unref().contains(*x));
            assert(it.seq().unref().to_set().contains(*x));
            lemma_push_to_set(keys@, *x);
        }
        keys.push(*x);
    }
    proof {
        assert(keys@.to_set().len() == keys@.len());
        keys@.lemma_no_dup_set_cardinality();
    }
    let ghost km = m@;
    let mut out: Vec<(K, V)> = Vec::new();
    let n = keys.len();
    let mut i: usize = 0;
    while i < n
        invariant
            vstd::std_specs::hash::obeys_key_model::<K>(),
            i <= n,
            n == keys@.len(),
            keys@.to_set() == km.dom(),
            keys@.no_duplicates(),
            km == old(m)@,
            out@.len() == i,
            forall|j: int|
                0 <= j < i ==> (#[trigger] out@[j]).0 == keys@[j] && km.contains_key(keys@[j])
                    && km[keys@[j]] == out@[j].1,
            m@ == km.remove_keys(keys@.take(i as int).to_set()),
        decreases n - i,
    {
        let k = keys[i];
        proof {
            assert(keys@.to_set().contains(keys@[i as int]));
            assert(km.contains_key(k));
            assert(!keys@.take(i as int).to_set().contains(k));
            assert(m@.contains_key(k));
        }
        match m.remove(&k) {
            Some(v) => {
                out.push((k, v));
            },
            None => {
                proof {
                    assert(false);
                }
            },
        }
        i = i + 1;
        proof {
            assert(keys@.take(i as int) =~= keys@.take(i as int - 1).push(k));
            lemma_push_to_set(keys@.take(i as int - 1), k);
            assert(m@ =~= km.remove_keys(keys@.take(i as int).to_set()));
        }
    }
    proof {
        assert(keys@.take(n as int) =~= keys@);
        assert(m@ =~= Map::<K, V>::empty());
        assert forall|k: K| #[trigger] km.contains_key(k) implies exists|j: int|
            0 <= j < out@.len() && out@[j].0 == k by {
            assert(keys@.to_set().contains(k));
            let j = choose|j: int| 0 <= j < keys@.len() && keys@[j] == k;
            assert(out@[j].0 == k);
        }
        assert forall|i0: int, j0: int| 0 <= i0 < j0 < out@.len() implies out@[i0].0
            != out@[j0].0 by {
            assert(out@[i0].0 == keys@[i0] && out@[j0].0 == keys@[j0]);
        }
    }
    out
}

/// The map after storing each entry of a restore chunk in order, keyed and
/// valued by the given projections.
pub open spec fn defrost_fold<K, V, E>(
    m: Map<K, V>,
    es: Seq<E>,
    key: spec_fn(E) -> K,
    val: spec_fn(E) -> V,
) -> Map<K, V>
    decreases es.len(),
{
    if es.len() == 0 {
        m
    } else {
        defrost_fold(m.insert(key(es[0]), val(es[0])), es.skip(1), key, val)
    }
}

/// Folding one more restore entry stores one more value.
pub proof fn lemma_defrost_fold_snoc<K, V, E>(
    m: Map<K, V>,
    es: Seq<E>,
    key: spec_fn(E) -> K,
    val: spec_fn(E) -> V,
    x: E,
)
    ensures
        defrost_fold(m, es.push(x), key, val) == defrost_fold(m, es, key, val).insert(
            key(x),
            val(x),
        ),
    decreases es.len(),
{
    let q = es.push(x);
    assert(defrost_fold(m, q, key, val) == defrost_fold(
        m.insert(key(q[0]), val(q[0])),
        q.skip(1),
        key,
        val,
    ));
    if es.len() == 0 {
        assert(q[0] == x);
        assert(q.skip(1) =~= Seq::<E>::empty());
        assert(defrost_fold(m.insert(key(x), val(x)), q.skip(1), key, val) == m.insert(
            key(x),
            val(x),
        ));
        assert(defrost_fold(m, es, key, val) == m);
    } else {
        assert(q[0] == es[0]);
        assert(q.skip(1) =~= es.skip(1).push(x));
        lemma_defrost_fold_snoc(m.insert(key(es[0]), val(es[0])), es.skip(1), key, val, x);
        assert(defrost_fold(m, es, key, val) == defrost_fold(
            m.insert(key(es[0]), val(es[0])),
            es.skip(1),
            key,
            val,
        ));
    }
}

/// A drained list matches a map: same cardinality, every entry the encoding
/// of the map's value under its own key, and every key covered.
pub open spec fn drained_to<K, E, V>(
    all: Seq<E>,
    m: Map<K, V>,
    enc: spec_fn(V) -> E,
    key: spec_fn(E) -> K,
) -> bool {
    &&& all.len() == m.len()
    &&& forall|i: int|
        0 <= i < all.len() ==> m.contains_key(#[trigger] key(all[i])) && enc(m[key(all[i])])
            == all[i]
    &&& forall|k: K|
        #[trigger] m.contains_key(k) ==> exists|i: int| 0 <= i < all.len() && key(all[i]) == k
}

impl InMemoryCache {
    /// Drains every guild into chunks for a snapshot.
    pub fn prepare_cold_resume_guilds(&mut self) -> (chunks: Vec<Vec<CachedGuild>>)
        requires
            old(self).wf(),
        ensures
            final(self).wf(),
            final(self).guilds@ == Map::<u64, CachedGuild>::empty(),
            chunks@.len() == spec_chunk_count(old(self).guilds@.len(), GUILD_CHUNK_SIZE as nat),
            drained_to(
                flat_chunks(chunks@),
                old(self).guilds@,
                |g: CachedGuild| g,
                |g: CachedGuild| g.id,
            ),
            final(self).channels_guild == old(self).channels_guild,
            final(self).channels_private == old(self).channels_private,
            final(self).config == old(self).config,
            final(self).current_user == old(self).current_user,
            final(self).emojis == old(self).emojis,
            final(self).groups == old(self).groups,
            final(self).guild_channels == old(self).guild_channels,
            final(self).guild_emojis == old(self).guild_emojis,
            final(self).guild_members == old(self).guild_members,
            final(self).guild_roles == old(self).guild_roles,
            final(self).members == old(self).members,
            final(self).messages == old(self).messages,
            final(self).roles == old(self).roles,
            final(self).unavailable_guilds == old(self).unavailable_guilds,
            final(self).users == old(self).users,
            final(self).metrics.messages == old(self).metrics.messages,
    {
        let entries = drain_map(&mut self.guilds);
        self.metrics.guilds = 0;
        let ghost em = old(self).guilds@;
        let ghost pairs = entries@;
        let mut values: Vec<CachedGuild> = Vec::new();
        for pair in it: entries.into_iter()
            invariant
                it.seq() == pairs,
                values@ == it.seq().take(it.index() as int).map_values(
                    |p: (u64, CachedGuild)| p.1,
                ),
            ensures
                values@ == pairs.map_values(|p: (u64, CachedGuild)| p.1),
        {
            proof {
                assert(pair == it.seq()[it.index() as int]);
                assert(it.seq().take(it.index() as int + 1).map_values(
                    |p: (u64, CachedGuild)| p.1,
                ) =~= it.seq().take(it.index() as int).map_values(
                    |p: (u64, CachedGuild)| p.1,
                ).push(pair.1));
            }
            values.push(pair.1);
        }
        proof {
            assert(pairs.take(pairs.len() as int) =~= pairs);
        }
        let chunks = partition_chunks(values, GUILD_CHUNK_SIZE);
        proof {
            let all = flat_chunks(chunks@);
            assert forall|i: int| 0 <= i < all.len() implies em.contains_key(
                #[trigger] all[i].id,
            ) && em[all[i].id] == all[i] by {
                assert(all[i] == pairs[i].1);
                assert(em.contains_key(pairs[i].0));
                assert(em[pairs[i].0] == pairs[i].1);
                assert(pairs[i].1.id == pairs[i].0);
            }
            assert forall|k: u64| #[trigger] em.contains_key(k) implies exists|i: int|
                0 <= i < all.len() && all[i].id == k by {
                let j = choose|j: int| 0 <= j < pairs.len() && pairs[j].0 == k;
                assert(all[j] == pairs[j].1);
                assert(all[j].id == k);
            }
        }
        chunks
    }

    /// Stores a restored chunk of guilds, each under its id and no longer
    /// marked unavailable, then recomputes the guild counters.
    pub fn defrost_guilds(&mut self, guilds: Vec<CachedGuild>)
        requires
            old(self).wf(),
        ensures
            final(self).wf(),
            final(self).guilds@ == defrost_fold(
                old(self).guilds@,
                guilds@,
                |g: CachedGuild| g.id,
                |g: CachedGuild| g,
            ),
            forall|k: u64|
                final(self).unavailable_guilds@.contains(k) <==> (
                old(self).unavailable_guilds@.contains(k) && !exists|i: int|
                    0 <= i < guilds@.len() && (#[trigger] guilds@[i]).id == k),
            final(self).channels_guild == old(self).channels_guild,
            final(self).channels_private == old(self).channels_private,
            final(self).config == old(self).config,
            final(self).current_user == old(self).current_user,
            final(self).emojis == old(self).emojis,
            final(self).groups == old(self).groups,
            final(self).guild_channels == old(self).guild_channels,
            final(self).guild_emojis == old(self).guild_emojis,
            final(self).guild_members == old(self).guild_members,
            final(self).guild_roles == old(self).guild_roles,
            final(self).members == old(self).members,
            final(self).messages == old(self).messages,
            final(self).roles == old(self).roles,
            final(self).users == old(self).users,
            final(self).metrics.messages == old(self).metrics.messages,
    {
        let ghost gs = guilds@;
        let ghost orig = *self;
        for guild in it: guilds.into_iter()
            invariant
                it.seq() == gs,
                self.guilds@ == defrost_fold(
                    orig.guilds@,
                    gs.take(it.index() as int),
                    |g: CachedGuild| g.id,
                    |g: CachedGuild| g,
                ),
                forall|k: u64|
                    self.unavailable_guilds@.contains(k) <==> (
                    orig.unavailable_guilds@.contains(k) && !exists|j: int|
                        0 <= j < it.index() && (#[trigger] gs[j]).id == k),
                self.unavailable_guilds@.finite(),
                forall|g: u64|
                    self.guilds@.contains_key(g) ==> (#[trigger] self.guilds@[g]).id == g,
                self.guilds@.dom().disjoint(self.unavailable_guilds@),
                self.channels_guild == orig.channels_guild,
                self.channels_private == orig.channels_private,
                self.config == orig.config,
                self.current_user == orig.current_user,
                self.emojis == orig.emojis,
                self.groups == orig.groups,
                self.guild_channels == orig.guild_channels,
                self.guild_emojis == orig.guild_emojis,
                self.guild_members == orig.guild_members,
                self.guild_roles == orig.guild_roles,
                self.members == orig.members,
                self.messages == orig.messages,
                self.roles == orig.roles,
                self.users == orig.users,
                self.metrics == orig.metrics,
        {
            proof {
                let i = it.index() as int;
                assert(guild == gs[i]);
                assert(gs.take(i + 1) =~= gs.take(i).push(guild));
                lemma_defrost_fold_snoc(
                    orig.guilds@,
                    gs.take(i),
                    |g: CachedGuild| g.id,
                    |g: CachedGuild| g,
                    guild,
                );
            }
            self.unavailable_guilds.remove(&guild.id);
            self.guilds.insert(guild.id, guild);
        }
        proof {
            assert(gs.take(gs.len() as int) =~= gs);
        }
        let n = self.guilds.len();
        self.metrics.guilds = n;
        let u = self.unavailable_guilds.len();
        self.metrics.unavailable_guilds = u;
    }
}

impl InMemoryCache {
    /// Drains every user, together with its tracked guilds, into chunks for a snapshot.
    pub fn prepare_cold_resume_users(&mut self) -> (chunks: Vec<Vec<ColdStorageUser>>)
        requires
            old(self).wf(),
        ensures
            final(self).wf(),
            final(self).users@ == Map::<u64, (User, BTreeSet<u64>)>::empty(),
            chunks@.len() == spec_chunk_count(old(self).users@.len(), COLD_CHUNK_SIZE as nat),
            drained_to(flat_chunks(chunks@), old(self).users@, (|p: (User, BTreeSet<u64>)| cold_of_user(p.0, p.1)), (|c: ColdStorageUser| c.id)),
            final(self).channels_guild == old(self).channels_guild,
            final(self).channels_private == old(self).channels_private,
            final(self).config == old(self).config,
            final(self).current_user == old(self).current_user,
            final(self).emojis == old(self).emojis,
            final(self).groups == old(self).groups,
            final(self).guilds == old(self).guilds,
            final(self).guild_channels == old(self).guild_channels,
            final(self).guild_emojis == old(self).guild_emojis,
            final(self).guild_members == old(self).guild_members,
            final(self).guild_roles == old(self).guild_roles,
            final(self).members == old(self).members,
            final(self).messages == old(self).messages,
            final(self).roles == old(self).roles,
            final(self).unavailable_guilds == old(self).unavailable_guilds,
            final(self).metrics.messages == old(self).metrics.messages,
    {
        let entries = drain_map(&mut self.users);
        self.metrics.users = 0;
        let ghost em = old(self).users@;
        let ghost pairs = entries@;
        let mut values: Vec<ColdStorageUser> = Vec::new();
        for pair in it: entries.into_iter()
            invariant
                it.seq() == pairs,
                values@.len() == it.index(),
                forall|j: int|
                    0 <= j < it.index() ==> #[trigger] values@[j] == cold_of_user(
                        it.seq()[j].1.0,
                        it.seq()[j].1.1,
                    ),
        {
            proof {
                assert(pair == it.seq()[it.index() as int]);
            }
            let (_uid, pair_val) = pair;
            let (user, set) = pair_val;
            let User { avatar, bot, discriminator, id, name } = user;
            values.push(ColdStorageUser { avatar, bot, discriminator, id, name, guilds: set });
        }
        let ghost vs = values@;
        let chunks = partition_chunks(values, COLD_CHUNK_SIZE);
        proof {
            let all = flat_chunks(chunks@);
            let enc = (|p: (User, BTreeSet<u64>)| cold_of_user(p.0, p.1));
            let keyf = (|c: ColdStorageUser| c.id);
            assert forall|i: int| 0 <= i < all.len() implies em.contains_key(
                #[trigger] keyf(all[i]),
            ) && enc(em[keyf(all[i])]) == all[i] by {
                assert(all[i] == vs[i]);
                assert(vs[i] == cold_of_user(pairs[i].1.0, pairs[i].1.1));
                assert(em.contains_key(pairs[i].0));
                assert(em[pairs[i].0] == pairs[i].1);
            }
            assert forall|k: u64| #[trigger] em.contains_key(k) implies exists|i: int|
                0 <= i < all.len() && keyf(all[i]) == k by {
                let j = choose|j: int| 0 <= j < pairs.len() && pairs[j].0 == k;
                assert(all[j] == cold_of_user(pairs[j].1.0, pairs[j].1.1));
                assert(keyf(all[j]) == k);
            }
        }
        chunks
    }

    /// Drains every member into chunks for a snapshot.
    pub fn prepare_cold_resume_members(&mut self) -> (chunks: Vec<Vec<CachedMember>>)
        requires
            old(self).wf(),
        ensures
            final(self).wf(),
            final(self).members@ == Map::<u128, CachedMember>::empty(),
            chunks@.len() == spec_chunk_count(old(self).members@.len(), COLD_CHUNK_SIZE as nat),
            drained_to(flat_chunks(chunks@), old(self).members@, (|m: CachedMember| m), (|m: CachedMember| member_key(m.guild_id, m.user_id))),
            final(self).channels_guild == old(self).channels_guild,
            final(self).channels_private == old(self).channels_private,
            final(self).config == old(self).config,
            final(self).current_user == old(self).current_user,
            final(self).emojis == old(self).emojis,
            final(self).groups == old(self).groups,
            final(self).guilds == old(self).guilds,
            final(self).guild_channels == old(self).guild_channels,
            final(self).guild_emojis == old(self).guild_emojis,
            final(self).guild_members == old(self).guild_members,
            final(self).guild_roles == old(self).guild_roles,
            final(self).messages == old(self).messages,
            final(self).roles == old(self).roles,
            final(self).unavailable_guilds == old(self).unavailable_guilds,
            final(self).users == old(self).users,
            final(self).metrics.messages == old(self).metrics.messages,
    {
        let entries = drain_map(&mut self.members);
        self.metrics.members = 0;
        let ghost em = old(self).members@;
        let ghost pairs = entries@;
        let mut values: Vec<CachedMember> = Vec::new();
        for pair in it: entries.into_iter()
            invariant
                it.seq() == pairs,
                values@.len() == it.index(),
                forall|j: int|
                    0 <= j < it.index() ==> #[trigger] values@[j] == it.seq()[j].1,
        {
            proof {
                assert(pair == it.seq()[it.index() as int]);
            }
            values.push(pair.1);
        }
        let ghost vs = values@;
        let chunks = partition_chunks(values, COLD_CHUNK_SIZE);
        proof {
            let all = flat_chunks(chunks@);
            let enc = (|m: CachedMember| m);
            let keyf = (|m: CachedMember| member_key(m.guild_id, m.user_id));
            assert forall|i: int| 0 <= i < all.len() implies em.contains_key(
                #[trigger] keyf(all[i]),
            ) && enc(em[keyf(all[i])]) == all[i] by {
                assert(all[i] == vs[i]);
                assert(vs[i] == pairs[i].1);
                assert(em.contains_key(pairs[i].0));
                assert(em[pairs[i].0] == pairs[i].1);
            }
            assert forall|k: u128| #[trigger] em.contains_key(k) implies exists|i: int|
                0 <= i < all.len() && keyf(all[i]) == k by {
                let j = choose|j: int| 0 <= j < pairs.len() && pairs[j].0 == k;
                assert(all[j] == pairs[j].1);
                assert(keyf(all[j]) == k);
            }
        }
        chunks
    }

    /// Drains every role, tagged with its owning guild, into chunks for a snapshot.
    pub fn prepare_cold_resume_roles(&mut self) -> (chunks: Vec<Vec<ColdStorageRole>>)
        requires
            old(self).wf(),
        ensures
            final(self).wf(),
            final(self).roles@ == Map::<u64, crate::cache::GuildItem<Role>>::empty(),
            chunks@.len() == spec_chunk_count(old(self).roles@.len(), COLD_CHUNK_SIZE as nat),
            drained_to(flat_chunks(chunks@), old(self).roles@, (|item: crate::cache::GuildItem<Role>| crate::model::role::cold_of_role(item.data, item.guild_id)), (|c: ColdStorageRole| c.id)),
            final(self).channels_guild == old(self).channels_guild,
            final(self).channels_private == old(self).channels_private,
            final(self).config == old(self).config,
            final(self).current_user == old(self).current_user,
            final(self).emojis == old(self).emojis,
            final(self).groups == old(self).groups,
            final(self).guilds == old(self).guilds,
            final(self).guild_channels == old(self).guild_channels,
            final(self).guild_emojis == old(self).guild_emojis,
            final(self).guild_members == old(self).guild_members,
            final(self).guild_roles == old(self).guild_roles,
            final(self).members == old(self).members,
            final(self).messages == old(self).messages,
            final(self).unavailable_guilds == old(self).unavailable_guilds,
            final(self).users == old(self).users,
            final(self).metrics.messages == old(self).metrics.messages,
    {
        let entries = drain_map(&mut self.roles);
        self.metrics.roles = 0;
        let ghost em = old(self).roles@;
        let ghost pairs = entries@;
        let mut values: Vec<ColdStorageRole> = Vec::new();
        for pair in it: entries.into_iter()
            invariant
                it.seq() == pairs,
                values@.len() == it.index(),
                forall|j: int|
                    0 <= j < it.index() ==> #[trigger] values@[j]
                        == crate::model::role::cold_of_role(
                        it.seq()[j].1.data,
                        it.seq()[j].1.guild_id,
                    ),
        {
            proof {
                assert(pair == it.seq()[it.index() as int]);
            }
            let (_rid, item) = pair;
            let crate::cache::GuildItem { data, guild_id } = item;
            let Role { color, hoist, id, managed, mentionable, name, permissions, position } = data;
            values.push(ColdStorageRole {
                color,
                hoist,
                id,
                managed,
                mentionable,
                name,
                permissions,
                position,
                guild_id,
            });
        }
        let ghost vs = values@;
        let chunks = partition_chunks(values, COLD_CHUNK_SIZE);
        proof {
            let all = flat_chunks(chunks@);
            let enc = (|item: crate::cache::GuildItem<Role>| crate::model::role::cold_of_role(item.data, item.guild_id));
            let keyf = (|c: ColdStorageRole| c.id);
            assert forall|i: int| 0 <= i < all.len() implies em.contains_key(
                #[trigger] keyf(all[i]),
            ) && enc(em[keyf(all[i])]) == all[i] by {
                assert(all[i] == vs[i]);
                assert(vs[i] == crate::model::role::cold_of_role(pairs[i].1.data, pairs[i].1.guild_id));
                assert(em.contains_key(pairs[i].0));
                assert(em[pairs[i].0] == pairs[i].1);
            }
            assert forall|k: u64| #[trigger] em.contains_key(k) implies exists|i: int|
                0 <= i < all.len() && keyf(all[i]) == k by {
                let j = choose|j: int| 0 <= j < pairs.len() && pairs[j].0 == k;
                assert(all[j] == crate::model::role::cold_of_role(pairs[j].1.data, pairs[j].1.guild_id));
                assert(keyf(all[j]) == k);
            }
        }
        chunks
    }
}

impl InMemoryCache {
    /// Drains every guild text channel into chunks for a snapshot, each
    /// tagged with its owning guild; channels of other kinds stay cached.
    #[verifier::rlimit(100)]
    pub fn prepare_cold_resume_channels(&mut self) -> (chunks: Vec<Vec<ColdStorageTextChannel>>)
        requires
            old(self).wf(),
        ensures
            final(self).wf(),
            chunks@.len() == spec_chunk_count(flat_chunks(chunks@).len(), COLD_CHUNK_SIZE as nat),
            forall|k: u64|
                final(self).channels_guild@.contains_key(k) <==> (
                old(self).channels_guild@.contains_key(k) && (#[trigger] old(
                    self,
                ).channels_guild@[k]).data.kind != ChannelKind::Text),
            forall|k: u64|
                final(self).channels_guild@.contains_key(k) ==> final(self).channels_guild@[k]
                    == old(self).channels_guild@[k],
            ({
                let all = flat_chunks(chunks@);
                let m = old(self).channels_guild@;
                &&& forall|i: int|
                    0 <= i < all.len() ==> m.contains_key((#[trigger] all[i]).id)
                        && m[all[i].id].data.kind == ChannelKind::Text && all[i]
                        == crate::model::channel::cold_of_channel(
                        m[all[i].id].data,
                        m[all[i].id].guild_id,
                    )
                &&& forall|k: u64|
                    m.contains_key(k) && (#[trigger] m[k]).data.kind == ChannelKind::Text
                        ==> exists|i: int| 0 <= i < all.len() && (#[trigger] all[i]).id == k
                &&& forall|i: int, j: int| 0 <= i < j < all.len() ==> all[i].id != all[j].id
            }),
            final(self).channels_private == old(self).channels_private,
            final(self).config == old(self).config,
            final(self).current_user == old(self).current_user,
            final(self).emojis == old(self).emojis,
            final(self).groups == old(self).groups,
            final(self).guilds == old(self).guilds,
            final(self).guild_channels == old(self).guild_channels,
            final(self).guild_emojis == old(self).guild_emojis,
            final(self).guild_members == old(self).guild_members,
            final(self).guild_roles == old(self).guild_roles,
            final(self).members == old(self).members,
            final(self).messages == old(self).messages,
            final(self).roles == old(self).roles,
            final(self).unavailable_guilds == old(self).unavailable_guilds,
            final(self).users == old(self).users,
            final(self).metrics.messages == old(self).metrics.messages,
    {
        let entries = drain_map(&mut self.channels_guild);
        let ghost em = old(self).channels_guild@;
        let ghost pairs = entries@;
        let mut values: Vec<ColdStorageTextChannel> = Vec::new();
        for pair in it: entries.into_iter()
            invariant
                old(self).wf(),
                em == old(self).channels_guild@,
                it.seq() == pairs,
                forall|i: int|
                    0 <= i < pairs.len() ==> em.contains_key((#[trigger] pairs[i]).0)
                        && em[pairs[i].0] == pairs[i].1,
                forall|i: int, j: int| 0 <= i < j < pairs.len() ==> pairs[i].0 != pairs[j].0,
                forall|k: u64|
                    #[trigger] em.contains_key(k) ==> exists|i: int|
                        0 <= i < pairs.len() && pairs[i].0 == k,
                forall|k: u64|
                    self.channels_guild@.contains_key(k) <==> exists|j: int|
                        0 <= j < it.index() && (#[trigger] pairs[j]).0 == k
                            && pairs[j].1.data.kind != ChannelKind::Text,
                forall|k: u64|
                    #[trigger] self.channels_guild@.contains_key(k) ==> exists|j: int|
                        0 <= j < it.index() && (#[trigger] pairs[j]).0 == k
                            && self.channels_guild@[k] == pairs[j].1,
                forall|idx: int|
                    0 <= idx < values@.len() ==> exists|j: int|
                        0 <= j < it.index() && pairs[j].1.data.kind == ChannelKind::Text && (
                        #[trigger] values@[idx]) == crate::model::channel::cold_of_channel(
                            pairs[j].1.data,
                            pairs[j].1.guild_id,
                        ) && values@[idx].id == pairs[j].0,
                forall|j: int|
                    0 <= j < it.index() && (#[trigger] pairs[j]).1.data.kind == ChannelKind::Text
                        ==> exists|idx: int|
                        0 <= idx < values@.len() && (#[trigger] values@[idx]).id == pairs[j].0,
                forall|i: int, j: int|
                    0 <= i < j < values@.len() ==> values@[i].id != values@[j].id,
                self.channels_private == old(self).channels_private,
                self.config == old(self).config,
                self.current_user == old(self).current_user,
                self.emojis == old(self).emojis,
                self.groups == old(self).groups,
                self.guilds == old(self).guilds,
                self.guild_channels == old(self).guild_channels,
                self.guild_emojis == old(self).guild_emojis,
                self.guild_members == old(self).guild_members,
                self.guild_roles == old(self).guild_roles,
                self.members == old(self).members,
                self.messages == old(self).messages,
                self.roles == old(self).roles,
                self.unavailable_guilds == old(self).unavailable_guilds,
                self.users == old(self).users,
                self.metrics == old(self).metrics,
        {
            proof {
                assert(pair == pairs[it.index() as int]);
            }
            let (cid, item) = pair;
            proof {
                assert(em[cid].data.id == cid);
            }
            if item.data.kind == ChannelKind::Text {
                let ghost vpre = values@;
                let crate::cache::GuildItem { data, guild_id } = item;
                let GuildChannel { id, guild_id: _gid, kind: _kind, name, parent_id, position } =
                    data;
                values.push(ColdStorageTextChannel {
                    guild_id: Some(guild_id),
                    id,
                    name,
                    parent_id,
                    position,
                });
                proof {
                    let i0 = it.index() as int;
                    let last = values@.len() - 1;
                    assert(values@[last] == crate::model::channel::cold_of_channel(
                        pairs[i0].1.data,
                        pairs[i0].1.guild_id,
                    ));
                    assert(values@[last].id == pairs[i0].0);
                    assert forall|j: int|
                        0 <= j < i0 + 1 && (#[trigger] pairs[j]).1.data.kind
                            == ChannelKind::Text implies exists|idx: int|
                        0 <= idx < values@.len() && (#[trigger] values@[idx]).id
                            == pairs[j].0 by {
                        if j < i0 {
                            let idx = choose|idx: int|
                                0 <= idx < vpre.len() && (#[trigger] vpre[idx]).id == pairs[j].0;
                            assert(values@[idx].id == pairs[j].0);
                        } else {
                            assert(values@[last].id == pairs[j].0);
                        }
                    }
                }
            } else {
                self.channels_guild.insert(cid, item);
            }
        }
        let n = self.channels_guild.len();
        self.metrics.channels_guild = n;
        let ghost vs = values@;
        let chunks = partition_chunks(values, COLD_CHUNK_SIZE);
        proof {
            let all = flat_chunks(chunks@);
            assert(all == vs);
            assert forall|k: u64|
                em.contains_key(k) && (#[trigger] em[k]).data.kind == ChannelKind::Text implies
                exists|i: int| 0 <= i < all.len() && (#[trigger] all[i]).id == k by {
                let j = choose|j: int| 0 <= j < pairs.len() && pairs[j].0 == k;
                assert(pairs[j].1.data.kind == ChannelKind::Text);
                let idx = choose|idx: int| 0 <= idx < vs.len() && vs[idx].id == pairs[j].0;
                assert(all[idx].id == k);
            }
        }
        chunks
    }

    /// Reads the current user for a snapshot; a cache with none cannot be
    /// frozen.
    pub fn prepare_cold_resume_current_user(&self) -> (r: RedisCacheResult<CurrentUser>)
        ensures
            match r {
                Ok(u) => self.current_user is Some && current_user_eq(
                    u,
                    self.current_user.unwrap(),
                ),
                Err(e) => self.current_user is None && e is MissingCurrentUser,
            },
    {
        match &self.current_user {
            Some(u) => Ok(u.clone()),
            None => Err(RedisCacheError::MissingCurrentUser),
        }
    }

    /// Stores a restored chunk of users, each under its id with its tracked
    /// guild set, then recomputes the user counter. An entry with no tracked
    /// guilds is malformed and rejects the whole chunk before anything is
    /// applied.
    pub fn defrost_users(&mut self, users: Vec<ColdStorageUser>) -> (r: RedisCacheResult<()>)
        requires
            old(self).wf(),
        ensures
            final(self).wf(),
            match r {
                Ok(_) => {
                    &&& final(self).users@ == defrost_fold(
                        old(self).users@,
                        users@,
                        |c: ColdStorageUser| c.id,
                        |c: ColdStorageUser| user_of_cold(c),
                    )
                    &&& forall|i: int|
                        0 <= i < users@.len() ==> !(#[trigger] users@[i]).guilds@.is_empty()
                },
                Err(e) => {
                    &&& e is Serde
                    &&& *final(self) == *old(self)
                    &&& exists|i: int|
                        0 <= i < users@.len() && (#[trigger] users@[i]).guilds@.is_empty()
                },
            },
            final(self).channels_guild == old(self).channels_guild,
            final(self).channels_private == old(self).channels_private,
            final(self).config == old(self).config,
            final(self).current_user == old(self).current_user,
            final(self).emojis == old(self).emojis,
            final(self).groups == old(self).groups,
            final(self).guilds == old(self).guilds,
            final(self).guild_channels == old(self).guild_channels,
            final(self).guild_emojis == old(self).guild_emojis,
            final(self).guild_members == old(self).guild_members,
            final(self).guild_roles == old(self).guild_roles,
            final(self).members == old(self).members,
            final(self).messages == old(self).messages,
            final(self).roles == old(self).roles,
            final(self).unavailable_guilds == old(self).unavailable_guilds,
            final(self).metrics.messages == old(self).metrics.messages,
    {
        let mut i: usize = 0;
        let n = users.len();
        while i < n
            invariant
                i <= n,
                n == users@.len(),
                *self == *old(self),
                old(self).wf(),
                forall|j: int| 0 <= j < i ==> !(#[trigger] users@[j]).guilds@.is_empty(),
            decreases n - i,
        {
            if users[i].guilds.is_empty() {
                return Err(
                    RedisCacheError::Serde("user entry with no tracked guilds".to_owned()),
                );
            }
            i = i + 1;
        }
        let ghost us = users@;
        let ghost orig = *self;
        for user in it: users.into_iter()
            invariant
                it.seq() == us,
                forall|j: int| 0 <= j < us.len() ==> !(#[trigger] us[j]).guilds@.is_empty(),
                self.users@ == defrost_fold(
                    orig.users@,
                    us.take(it.index() as int),
                    |c: ColdStorageUser| c.id,
                    |c: ColdStorageUser| user_of_cold(c),
                ),
                forall|u: u64|
                    self.users@.contains_key(u) ==> !(#[trigger] self.users@[u]).1@.is_empty(),
                forall|u: u64|
                    self.users@.contains_key(u) ==> (#[trigger] self.users@[u]).0.id == u,
                self.channels_guild == orig.channels_guild,
                self.channels_private == orig.channels_private,
                self.config == orig.config,
                self.current_user == orig.current_user,
                self.emojis == orig.emojis,
                self.groups == orig.groups,
                self.guilds == orig.guilds,
                self.guild_channels == orig.guild_channels,
                self.guild_emojis == orig.guild_emojis,
                self.guild_members == orig.guild_members,
                self.guild_roles == orig.guild_roles,
                self.members == orig.members,
                self.messages == orig.messages,
                self.roles == orig.roles,
                self.unavailable_guilds == orig.unavailable_guilds,
                self.metrics == orig.metrics,
        {
            proof {
                let i0 = it.index() as int;
                assert(user == us[i0]);
                assert(us.take(i0 + 1) =~= us.take(i0).push(user));
                lemma_defrost_fold_snoc(
                    orig.users@,
                    us.take(i0),
                    |c: ColdStorageUser| c.id,
                    |c: ColdStorageUser| user_of_cold(c),
                    user,
                );
            }
            let (stored, set) = user.into_parts();
            let uid = stored.id;
            self.users.insert(uid, (stored, set));
        }
        proof {
            assert(us.take(us.len() as int) =~= us);
        }
        let n2 = self.users.len();
        self.metrics.users = n2;
        Ok(())
    }

    /// Stores a restored chunk of members, each under its combined key and
    /// indexed in its guild's member set, then recomputes the member
    /// counter.
    pub fn defrost_members(&mut self, members: Vec<CachedMember>)
        requires
            old(self).wf(),
        ensures
            final(self).wf(),
            final(self).members@ == defrost_fold(
                old(self).members@,
                members@,
                |m: CachedMember| member_key(m.guild_id, m.user_id),
                |m: CachedMember| m,
            ),
            forall|g: u64, x: u64|
                set_of(old(self).guild_members@, g).contains(x) ==> set_of(
                    final(self).guild_members@,
                    g,
                ).contains(x),
            forall|g: u64, x: u64|
                set_of(final(self).guild_members@, g).contains(x) ==> set_of(
                    old(self).guild_members@,
                    g,
                ).contains(x) || exists|i: int|
                    0 <= i < members@.len() && (#[trigger] members@[i]).guild_id == g
                        && members@[i].user_id == x,
            forall|i: int|
                0 <= i < members@.len() ==> set_of(
                    final(self).guild_members@,
                    (#[trigger] members@[i]).guild_id,
                ).contains(members@[i].user_id),
            final(self).channels_guild == old(self).channels_guild,
            final(self).channels_private == old(self).channels_private,
            final(self).config == old(self).config,
            final(self).current_user == old(self).current_user,
            final(self).emojis == old(self).emojis,
            final(self).groups == old(self).groups,
            final(self).guilds == old(self).guilds,
            final(self).guild_channels == old(self).guild_channels,
            final(self).guild_emojis == old(self).guild_emojis,
            final(self).guild_roles == old(self).guild_roles,
            final(self).messages == old(self).messages,
            final(self).roles == old(self).roles,
            final(self).unavailable_guilds == old(self).unavailable_guilds,
            final(self).users == old(self).users,
            final(self).metrics.messages == old(self).metrics.messages,
    {
        let ghost ms = members@;
        let ghost orig = *self;
        for member in it: members.into_iter()
            invariant
                it.seq() == ms,
                self.members@ == defrost_fold(
                    orig.members@,
                    ms.take(it.index() as int),
                    |m: CachedMember| member_key(m.guild_id, m.user_id),
                    |m: CachedMember| m,
                ),
                forall|k: u128|
                    self.members@.contains_key(k) ==> member_key(
                        (#[trigger] self.members@[k]).guild_id,
                        self.members@[k].user_id,
                    ) == k,
                forall|g: u64, x: u64|
                    set_of(orig.guild_members@, g).contains(x) ==> set_of(
                        self.guild_members@,
                        g,
                    ).contains(x),
                forall|g: u64, x: u64|
                    set_of(self.guild_members@, g).contains(x) ==> set_of(
                        orig.guild_members@,
                        g,
                    ).contains(x) || exists|j: int|
                        0 <= j < it.index() && (#[trigger] ms[j]).guild_id == g && ms[j].user_id
                            == x,
                forall|j: int|
                    0 <= j < it.index() ==> set_of(
                        self.guild_members@,
                        (#[trigger] ms[j]).guild_id,
                    ).contains(ms[j].user_id),
                self.channels_guild == orig.channels_guild,
                self.channels_private == orig.channels_private,
                self.config == orig.config,
                self.current_user == orig.current_user,
                self.emojis == orig.emojis,
                self.groups == orig.groups,
                self.guilds == orig.guilds,
                self.guild_channels == orig.guild_channels,
                self.guild_emojis == orig.guild_emojis,
                self.guild_roles == orig.guild_roles,
                self.messages == orig.messages,
                self.roles == orig.roles,
                self.unavailable_guilds == orig.unavailable_guilds,
                self.users == orig.users,
                self.metrics == orig.metrics,
        {
            proof {
                let i0 = it.index() as int;
                assert(member == ms[i0]);
                assert(ms.take(i0 + 1) =~= ms.take(i0).push(member));
                lemma_defrost_fold_snoc(
                    orig.members@,
                    ms.take(i0),
                    |m: CachedMember| member_key(m.guild_id, m.user_id),
                    |m: CachedMember| m,
                    member,
                );
            }
            let g = member.guild_id;
            let u = member.user_id;
            let key = member_key_exec(g, u);
            index_insert(&mut self.guild_members, g, u);
            self.members.insert(key, member);
        }
        proof {
            assert(ms.take(ms.len() as int) =~= ms);
        }
        let n = self.members.len();
        self.metrics.members = n;
    }

    /// Stores a restored chunk of text channels, each under its id with its
    /// guild back-reference and indexed in its guild's channel set, then
    /// recomputes the channel counter. An entry that names no guild is
    /// malformed and rejects the whole chunk before anything is applied.
    pub fn defrost_channels(&mut self, channels: Vec<ColdStorageTextChannel>) -> (r:
        RedisCacheResult<()>)
        requires
            old(self).wf(),
        ensures
            final(self).wf(),
            match r {
                Ok(_) => {
                    &&& final(self).channels_guild@ == defrost_fold(
                        old(self).channels_guild@,
                        channels@,
                        |c: ColdStorageTextChannel| c.id,
                        |c: ColdStorageTextChannel|
                            crate::model::channel::channel_item_of_cold(c),
                    )
                    &&& forall|i: int|
                        0 <= i < channels@.len() ==> (#[trigger] channels@[i]).guild_id is Some
                },
                Err(e) => {
                    &&& e is Serde
                    &&& *final(self) == *old(self)
                    &&& exists|i: int|
                        0 <= i < channels@.len() && (#[trigger] channels@[i]).guild_id is None
                },
            },
            final(self).channels_private == old(self).channels_private,
            final(self).config == old(self).config,
            final(self).current_user == old(self).current_user,
            final(self).emojis == old(self).emojis,
            final(self).groups == old(self).groups,
            final(self).guilds == old(self).guilds,
            final(self).guild_emojis == old(self).guild_emojis,
            final(self).guild_members == old(self).guild_members,
            final(self).guild_roles == old(self).guild_roles,
            final(self).members == old(self).members,
            final(self).messages == old(self).messages,
            final(self).roles == old(self).roles,
            final(self).unavailable_guilds == old(self).unavailable_guilds,
            final(self).users == old(self).users,
            final(self).metrics.messages == old(self).metrics.messages,
    {
        let mut i: usize = 0;
        let n = channels.len();
        while i < n
            invariant
                i <= n,
                n == channels@.len(),
                *self == *old(self),
                old(self).wf(),
                forall|j: int| 0 <= j < i ==> (#[trigger] channels@[j]).guild_id is Some,
            decreases n - i,
        {
            if channels[i].guild_id.is_none() {
                return Err(
                    RedisCacheError::Serde("channel entry with no guild".to_owned()),
                );
            }
            i = i + 1;
        }
        let ghost cs = channels@;
        let ghost orig = *self;
        for channel in it: channels.into_iter()
            invariant
                it.seq() == cs,
                forall|j: int| 0 <= j < cs.len() ==> (#[trigger] cs[j]).guild_id is Some,
                self.channels_guild@ == defrost_fold(
                    orig.channels_guild@,
                    cs.take(it.index() as int),
                    |c: ColdStorageTextChannel| c.id,
                    |c: ColdStorageTextChannel| crate::model::channel::channel_item_of_cold(c),
                ),
                forall|c: u64|
                    self.channels_guild@.contains_key(c) ==> {
                        let item = #[trigger] self.channels_guild@[c];
                        item.data.id == c && item.data.guild_id == Some(item.guild_id)
                    },
                self.channels_private == orig.channels_private,
                self.config == orig.config,
                self.current_user == orig.current_user,
                self.emojis == orig.emojis,
                self.groups == orig.groups,
                self.guilds == orig.guilds,
                self.guild_emojis == orig.guild_emojis,
                self.guild_members == orig.guild_members,
                self.guild_roles == orig.guild_roles,
                self.members == orig.members,
                self.messages == orig.messages,
                self.roles == orig.roles,
                self.unavailable_guilds == orig.unavailable_guilds,
                self.users == orig.users,
                self.metrics == orig.metrics,
        {
            proof {
                let i0 = it.index() as int;
                assert(channel == cs[i0]);
                assert(cs.take(i0 + 1) =~= cs.take(i0).push(channel));
                lemma_defrost_fold_snoc(
                    orig.channels_guild@,
                    cs.take(i0),
                    |c: ColdStorageTextChannel| c.id,
                    |c: ColdStorageTextChannel| crate::model::channel::channel_item_of_cold(c),
                    channel,
                );
            }
            match channel.guild_id {
                Some(g) => {
                    index_insert(&mut self.guild_channels, g, channel.id);
                    let cid = channel.id;
                    let item_data = channel.into_channel();
                    self.channels_guild.insert(
                        cid,
                        crate::cache::GuildItem { data: item_data, guild_id: g },
                    );
                },
                None => {},
            }
        }
        proof {
            assert(cs.take(cs.len() as int) =~= cs);
        }
        let n2 = self.channels_guild.len();
        self.metrics.channels_guild = n2;
        Ok(())
    }

    /// Stores a restored chunk of roles, each under its id and indexed in
    /// its guild's role set, then recomputes the role counter.
    pub fn defrost_roles(&mut self, roles: Vec<ColdStorageRole>)
        requires
            old(self).wf(),
        ensures
            final(self).wf(),
            final(self).roles@ == defrost_fold(
                old(self).roles@,
                roles@,
                |c: ColdStorageRole| c.id,
                |c: ColdStorageRole| crate::model::role::role_item_of_cold(c),
            ),
            final(self).channels_guild == old(self).channels_guild,
            final(self).channels_private == old(self).channels_private,
            final(self).config == old(self).config,
            final(self).current_user == old(self).current_user,
            final(self).emojis == old(self).emojis,
            final(self).groups == old(self).groups,
            final(self).guilds == old(self).guilds,
            final(self).guild_channels == old(self).guild_channels,
            final(self).guild_emojis == old(self).guild_emojis,
            final(self).guild_members == old(self).guild_members,
            final(self).members == old(self).members,
            final(self).messages == old(self).messages,
            final(self).unavailable_guilds == old(self).unavailable_guilds,
            final(self).users == old(self).users,
            final(self).metrics.messages == old(self).metrics.messages,
    {
        let ghost rs = roles@;
        let ghost orig = *self;
        for role in it: roles.into_iter()
            invariant
                it.seq() == rs,
                self.roles@ == defrost_fold(
                    orig.roles@,
                    rs.take(it.index() as int),
                    |c: ColdStorageRole| c.id,
                    |c: ColdStorageRole| crate::model::role::role_item_of_cold(c),
                ),
                forall|r: u64|
                    self.roles@.contains_key(r) ==> (#[trigger] self.roles@[r]).data.id == r,
                self.channels_guild == orig.channels_guild,
                self.channels_private == orig.channels_private,
                self.config == orig.config,
                self.current_user == orig.current_user,
                self.emojis == orig.emojis,
                self.groups == orig.groups,
                self.guilds == orig.guilds,
                self.guild_channels == orig.guild_channels,
                self.guild_emojis == orig.guild_emojis,
                self.guild_members == orig.guild_members,
                self.members == orig.members,
                self.messages == orig.messages,
                self.unavailable_guilds == orig.unavailable_guilds,
                self.users == orig.users,
                self.metrics == orig.metrics,
        {
            proof {
                let i0 = it.index() as int;
                assert(role == rs[i0]);
                assert(rs.take(i0 + 1) =~= rs.take(i0).push(role));
                lemma_defrost_fold_snoc(
                    orig.roles@,
                    rs.take(i0),
                    |c: ColdStorageRole| c.id,
                    |c: ColdStorageRole| crate::model::role::role_item_of_cold(c),
                    role,
                );
            }
            let (stored, g) = role.into_parts();
            let rid = stored.id;
            index_insert(&mut self.guild_roles, g, rid);
            self.roles.insert(rid, crate::cache::GuildItem { data: stored, guild_id: g });
        }
        proof {
            assert(rs.take(rs.len() as int) =~= rs);
        }
        let n = self.roles.len();
        self.metrics.roles = n;
    }

    /// Stores the restored current user.
    pub fn defrost_current_user(&mut self, user: CurrentUser)
        requires
            old(self).wf(),
        ensures
            final(self).wf(),
            final(self).current_user == Some(user),
            final(self).channels_guild == old(self).channels_guild,
            final(self).channels_private == old(self).channels_private,
            final(self).config == old(self).config,
            final(self).emojis == old(self).emojis,
            final(self).groups == old(self).groups,
            final(self).guilds == old(self).guilds,
            final(self).guild_channels == old(self).guild_channels,
            final(self).guild_emojis == old(self).guild_emojis,
            final(self).guild_members == old(self).guild_members,
            final(self).guild_roles == old(self).guild_roles,
            final(self).members == old(self).members,
            final(self).messages == old(self).messages,
            final(self).metrics == old(self).metrics,
            final(self).roles == old(self).roles,
            final(self).unavailable_guilds == old(self).unavailable_guilds,
            final(self).users == old(self).users,
    {
        self.current_user = Some(user);
    }

    /// Drains the whole store into a snapshot payload: the current user and
    /// every guild, user, member, text channel and role, partitioned into
    /// bounded chunks. A cache with no current user cannot be frozen and is
    /// left untouched.
    pub fn prepare_cold_resume(&mut self) -> (r: RedisCacheResult<ColdResumePayload>)
        requires
            old(self).wf(),
        ensures
            final(self).wf(),
            match r {
                Ok(p) => {
                    &&& old(self).current_user is Some
                    &&& current_user_eq(p.current_user, old(self).current_user.unwrap())
                    &&& p.guilds@.len() == spec_chunk_count(
                        old(self).guilds@.len(),
                        GUILD_CHUNK_SIZE as nat,
                    )
                    &&& drained_to(
                        flat_chunks(p.guilds@),
                        old(self).guilds@,
                        |g: CachedGuild| g,
                        |g: CachedGuild| g.id,
                    )
                    &&& p.users@.len() == spec_chunk_count(
                        old(self).users@.len(),
                        COLD_CHUNK_SIZE as nat,
                    )
                    &&& drained_to(
                        flat_chunks(p.users@),
                        old(self).users@,
                        |q: (User, BTreeSet<u64>)| cold_of_user(q.0, q.1),
                        |c: ColdStorageUser| c.id,
                    )
                    &&& p.members@.len() == spec_chunk_count(
                        old(self).members@.len(),
                        COLD_CHUNK_SIZE as nat,
                    )
                    &&& drained_to(
                        flat_chunks(p.members@),
                        old(self).members@,
                        |m: CachedMember| m,
                        |m: CachedMember| member_key(m.guild_id, m.user_id),
                    )
                    &&& p.roles@.len() == spec_chunk_count(
                        old(self).roles@.len(),
                        COLD_CHUNK_SIZE as nat,
                    )
                    &&& drained_to(
                        flat_chunks(p.roles@),
                        old(self).roles@,
                        |item: crate::cache::GuildItem<Role>|
                            crate::model::role::cold_of_role(item.data, item.guild_id),
                        |c: ColdStorageRole| c.id,
                    )
                    &&& p.channels@.len() == spec_chunk_count(
                        flat_chunks(p.channels@).len(),
                        COLD_CHUNK_SIZE as nat,
                    )
                    &&& ({
                        let all = flat_chunks(p.channels@);
                        let m = old(self).channels_guild@;
                        &&& forall|i: int|
                            0 <= i < all.len() ==> m.contains_key((#[trigger] all[i]).id)
                                && m[all[i].id].data.kind == ChannelKind::Text && all[i]
                                == crate::model::channel::cold_of_channel(
                                m[all[i].id].data,
                                m[all[i].id].guild_id,
                            )
                        &&& forall|k: u64|
                            m.contains_key(k) && (#[trigger] m[k]).data.kind == ChannelKind::Text
                                ==> exists|i: int|
                                0 <= i < all.len() && (#[trigger] all[i]).id == k
                        &&& forall|i: int, j: int|
                            0 <= i < j < all.len() ==> all[i].id != all[j].id
                    })
                    &&& final(self).guilds@ == Map::<u64, CachedGuild>::empty()
                    &&& final(self).users@ == Map::<u64, (User, BTreeSet<u64>)>::empty()
                    &&& final(self).members@ == Map::<u128, CachedMember>::empty()
                    &&& final(self).roles@ == Map::<u64, crate::cache::GuildItem<Role>>::empty()
                    &&& forall|k: u64|
                        final(self).channels_guild@.contains_key(k) <==> (
                        old(self).channels_guild@.contains_key(k) && (#[trigger] old(
                            self,
                        ).channels_guild@[k]).data.kind != ChannelKind::Text)
                    &&& forall|k: u64|
                        final(self).channels_guild@.contains_key(k)
                            ==> final(self).channels_guild@[k] == old(self).channels_guild@[k]
                },
                Err(e) => {
                    &&& e is MissingCurrentUser
                    &&& old(self).current_user is None
                    &&& *final(self) == *old(self)
                },
            },
    {
        let current_user = match self.prepare_cold_resume_current_user() {
            Ok(u) => u,
            Err(e) => {
                return Err(e);
            },
        };
        let guilds = self.prepare_cold_resume_guilds();
        let users = self.prepare_cold_resume_users();
        let members = self.prepare_cold_resume_members();
        let channels = self.prepare_cold_resume_channels();
        let roles = self.prepare_cold_resume_roles();
        Ok(ColdResumePayload { guilds, users, members, channels, roles, current_user })
    }
}

} // verus!
