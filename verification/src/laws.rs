//! Properties of the upsert and delete engine that hold across whole call
//! sequences, stated over the same transition functions the engine's
//! contracts use.
use vstd::prelude::*;

use crate::cache::{tracked_of, GuildItem, InMemoryCache};
use crate::model::channel::{channel_eq, GuildChannel};
use crate::model::emoji::{emoji_matches, CachedEmoji, Emoji};
use crate::model::member::{member_key, member_matches, CachedMember, Member};
use crate::model::message::CachedMessage;
use crate::model::role::{role_eq, Role};
use crate::model::user::{user_eq, User};
use crate::update::{
    channel_upsert, emoji_upsert, member_upsert, ring_push, role_upsert, roles_fold,
    users_upserted,
};
use std::collections::BTreeSet;

verus! {

/// One operation of a guild's role history: an upsert of a payload, or a
/// deletion by id.
pub enum RoleOp {
    Cache(Role),
    Delete(u64),
}

/// The role map and the guild's role set after one operation, as the
/// engine's contracts describe them: an upsert always adds the id to the
/// set; a delete drops the entry and, when the deleted role was owned by
/// this guild, its id from the set.
pub open spec fn role_op_apply(
    st: (Map<u64, GuildItem<Role>>, Set<u64>),
    guild_id: u64,
    op: RoleOp,
) -> (Map<u64, GuildItem<Role>>, Set<u64>) {
    match op {
        RoleOp::Cache(role) => (role_upsert(st.0, guild_id, role), st.1.insert(role.id)),
        RoleOp::Delete(rid) => {
            if st.0.contains_key(rid) {
                (
                    st.0.remove(rid),
                    if st.0[rid].guild_id == guild_id {
                        st.1.remove(rid)
                    } else {
                        st.1
                    },
                )
            } else {
                st
            }
        },
    }
}

/// The state after a whole operation history.
pub open spec fn role_ops_fold(
    st: (Map<u64, GuildItem<Role>>, Set<u64>),
    guild_id: u64,
    ops: Seq<RoleOp>,
) -> (Map<u64, GuildItem<Role>>, Set<u64>)
    decreases ops.len(),
{
    if ops.len() == 0 {
        st
    } else {
        role_ops_fold(role_op_apply(st, guild_id, ops[0]), guild_id, ops.skip(1))
    }
}

/// The ids inserted by a history and not deleted afterwards.
pub open spec fn live_role_ids(ids: Set<u64>, ops: Seq<RoleOp>) -> Set<u64>
    decreases ops.len(),
{
    if ops.len() == 0 {
        ids
    } else {
        live_role_ids(
            match ops[0] {
                RoleOp::Cache(role) => ids.insert(role.id),
                RoleOp::Delete(rid) => ids.remove(rid),
            },
            ops.skip(1),
        )
    }
}

/// Along any single-guild history starting from a state whose role set
/// mirrors its role map and whose roles are all owned by that guild, the
/// guild's role set stays exactly the set of ids inserted and not yet
/// deleted, and keeps mirroring the role map.
pub proof fn lemma_role_history_exact(
    st: (Map<u64, GuildItem<Role>>, Set<u64>),
    guild_id: u64,
    ops: Seq<RoleOp>,
)
    requires
        st.1 == st.0.dom(),
        forall|rid: u64|
            st.0.contains_key(rid) ==> (#[trigger] st.0[rid]).guild_id == guild_id
                && st.0[rid].data.id == rid,
    ensures
        role_ops_fold(st, guild_id, ops).1 == live_role_ids(st.1, ops),
        role_ops_fold(st, guild_id, ops).1 == role_ops_fold(st, guild_id, ops).0.dom(),
        forall|rid: u64|
            role_ops_fold(st, guild_id, ops).0.contains_key(rid) ==> (#[trigger] role_ops_fold(
                st,
                guild_id,
                ops,
            ).0[rid]).guild_id == guild_id && role_ops_fold(st, guild_id, ops).0[rid].data.id
                == rid,
    decreases ops.len(),
{
    if ops.len() > 0 {
        let st1 = role_op_apply(st, guild_id, ops[0]);
        match ops[0] {
            RoleOp::Cache(role) => {
                assert(st1.1 =~= st1.0.dom());
            },
            RoleOp::Delete(rid) => {
                if st.0.contains_key(rid) {
                    assert(st1.1 =~= st1.0.dom());
                } else {
                    assert(st.1.remove(rid) =~= st.1);
                }
            },
        }
        lemma_role_history_exact(st1, guild_id, ops.skip(1));
    }
}

/// Starting from an empty role store, a guild's role set is exactly the set
/// of role ids cached and not deleted afterwards, whatever the payloads
/// were.
pub proof fn lemma_role_history_from_empty(guild_id: u64, ops: Seq<RoleOp>)
    ensures
        role_ops_fold(
            (Map::<u64, GuildItem<Role>>::empty(), Set::<u64>::empty()),
            guild_id,
            ops,
        ).1 == live_role_ids(Set::<u64>::empty(), ops),
{
    let st = (Map::<u64, GuildItem<Role>>::empty(), Set::<u64>::empty());
    assert(st.1 =~= st.0.dom());
    lemma_role_history_exact(st, guild_id, ops);
}

/// Over any sequence of upserts of payloads that all carry one role id, the
/// stored role ends up equal to the last payload applied.
pub proof fn lemma_role_last_write_wins(
    m: Map<u64, GuildItem<Role>>,
    guild_id: u64,
    rid: u64,
    rs: Seq<Role>,
)
    requires
        rs.len() > 0,
        forall|i: int| 0 <= i < rs.len() ==> (#[trigger] rs[i]).id == rid,
    ensures
        roles_fold(m, guild_id, rs).contains_key(rid),
        role_eq(roles_fold(m, guild_id, rs)[rid].data, rs.last()),
    decreases rs.len(),
{
    let m1 = role_upsert(m, guild_id, rs[0]);
    assert(roles_fold(m, guild_id, rs) == roles_fold(m1, guild_id, rs.skip(1)));
    if rs.len() == 1 {
        assert(rs.skip(1) =~= Seq::<Role>::empty());
        assert(roles_fold(m1, guild_id, rs.skip(1)) == m1);
    } else {
        assert(rs.skip(1).last() == rs.last());
        lemma_role_last_write_wins(m1, guild_id, rid, rs.skip(1));
    }
}

/// Idempotence for roles: a payload equal to what the previous upsert left
/// behind changes neither the role map nor the guild's role set, and with
/// them the live counter.
pub proof fn lemma_role_upsert_idempotent(
    m: Map<u64, GuildItem<Role>>,
    s: Set<u64>,
    guild_id: u64,
    role: Role,
)
    ensures
        role_upsert(role_upsert(m, guild_id, role), guild_id, role) == role_upsert(
            m,
            guild_id,
            role,
        ),
        s.insert(role.id).insert(role.id) == s.insert(role.id),
        role_upsert(role_upsert(m, guild_id, role), guild_id, role).len() == role_upsert(
            m,
            guild_id,
            role,
        ).len(),
{
    let m1 = role_upsert(m, guild_id, role);
    assert(m1.contains_key(role.id));
    assert(role_eq(m1[role.id].data, role));
    assert(s.insert(role.id).insert(role.id) =~= s.insert(role.id));
}

/// Idempotence for guild channels: a second application of the same
/// (back-filled) payload is a no-op.
pub proof fn lemma_channel_upsert_idempotent(
    m: Map<u64, GuildItem<GuildChannel>>,
    s: Set<u64>,
    guild_id: u64,
    channel: GuildChannel,
)
    ensures
        channel_upsert(channel_upsert(m, guild_id, channel), guild_id, channel) == channel_upsert(
            m,
            guild_id,
            channel,
        ),
        s.insert(channel.id).insert(channel.id) == s.insert(channel.id),
{
    let m1 = channel_upsert(m, guild_id, channel);
    assert(m1.contains_key(channel.id));
    assert(channel_eq(m1[channel.id].data, channel));
    assert(s.insert(channel.id).insert(channel.id) =~= s.insert(channel.id));
}

/// Idempotence for emojis: once a payload is cached, applying it again
/// changes neither the emoji map nor the guild's emoji set.
pub proof fn lemma_emoji_upsert_idempotent(
    m: Map<u64, GuildItem<CachedEmoji>>,
    s: Set<u64>,
    guild_id: u64,
    e: Emoji,
)
    ensures
        emoji_upsert(
            emoji_upsert(m, s, guild_id, e).0,
            emoji_upsert(m, s, guild_id, e).1,
            guild_id,
            e,
        ) == emoji_upsert(m, s, guild_id, e),
{
    let (m1, s1) = emoji_upsert(m, s, guild_id, e);
    assert(m1.contains_key(e.id));
    assert(emoji_matches(m1[e.id].data, e));
}

/// Idempotence for members: once a payload is cached, applying it again
/// changes neither the member map nor the guild's member set.
pub proof fn lemma_member_upsert_idempotent(
    ms: Map<u128, CachedMember>,
    s: Set<u64>,
    guild_id: u64,
    m: Member,
)
    ensures
        member_upsert(
            member_upsert(ms, s, guild_id, m).0,
            member_upsert(ms, s, guild_id, m).1,
            guild_id,
            m,
        ) == member_upsert(ms, s, guild_id, m),
{
    let (m1, s1) = member_upsert(ms, s, guild_id, m);
    let k = member_key(guild_id, m.user.id);
    assert(m1.contains_key(k));
    assert(member_matches(m1[k], m));
}

/// Idempotence for users: a second upsert of the same payload for the same
/// guild leaves the user index observably unchanged: the same users are
/// cached, with the same account data and the same tracked guilds.
pub proof fn lemma_user_upsert_idempotent(
    m0: Map<u64, (User, BTreeSet<u64>)>,
    m1: Map<u64, (User, BTreeSet<u64>)>,
    m2: Map<u64, (User, BTreeSet<u64>)>,
    user: User,
    guild_id: u64,
)
    requires
        users_upserted(m0, m1, user, Some(guild_id)),
        users_upserted(m1, m2, user, Some(guild_id)),
    ensures
        m2.dom() == m1.dom(),
        forall|k: u64| #[trigger] m1.contains_key(k) ==> m2[k].0 == m1[k].0,
        forall|k: u64| tracked_of(m2, k) == tracked_of(m1, k),
{
    assert(m2.dom() =~= m1.dom());
    assert forall|k: u64| tracked_of(m2, k) == tracked_of(m1, k) by {
        if k == user.id {
            assert(tracked_of(m2, k) =~= tracked_of(m1, k));
        }
    }
    assert forall|k: u64| #[trigger] m1.contains_key(k) implies m2[k].0 == m1[k].0 by {
        if k == user.id {
            if m1.contains_key(user.id) && user_eq(m1[user.id].0, user) {
            } else {
            }
        }
    }
}

/// Reference counting: tracking a user in two distinct guilds and then
/// untracking them one at a time first leaves the user cached with exactly
/// the other guild, then removes the user entirely.
pub proof fn lemma_user_reference_counting(
    m0: Map<u64, (User, BTreeSet<u64>)>,
    m1: Map<u64, (User, BTreeSet<u64>)>,
    m2: Map<u64, (User, BTreeSet<u64>)>,
    user: User,
    guild_a: u64,
    guild_b: u64,
)
    requires
        !m0.contains_key(user.id),
        guild_a != guild_b,
        users_upserted(m0, m1, user, Some(guild_a)),
        users_upserted(m1, m2, user, Some(guild_b)),
    ensures
        tracked_of(m2, user.id) == Set::<u64>::empty().insert(guild_a).insert(guild_b),
        tracked_of(m2, user.id).remove(guild_a) == Set::<u64>::empty().insert(guild_b),
        !tracked_of(m2, user.id).remove(guild_a).is_empty(),
        tracked_of(m2, user.id).remove(guild_a).remove(guild_b) == Set::<u64>::empty(),
{
    assert(tracked_of(m0, user.id) =~= Set::<u64>::empty());
    assert(tracked_of(m2, user.id) =~= Set::<u64>::empty().insert(guild_a).insert(guild_b));
    assert(tracked_of(m2, user.id).remove(guild_a) =~= Set::<u64>::empty().insert(guild_b));
    assert(Set::<u64>::empty().insert(guild_b).contains(guild_b));
    assert(tracked_of(m2, user.id).remove(guild_a).remove(guild_b) =~= Set::<u64>::empty());
}

/// The message ring after pushing a whole sequence into it.
pub open spec fn ring_fold(ring: Seq<CachedMessage>, msgs: Seq<CachedMessage>, cap: nat) -> Seq<
    CachedMessage,
>
    decreases msgs.len(),
{
    if msgs.len() == 0 {
        ring
    } else {
        ring_fold(ring_push(ring, msgs[0], cap), msgs.skip(1), cap)
    }
}

/// Pushing any sequence of messages into an empty ring of capacity `cap`
/// keeps exactly the most recent `cap` of them, newest first: the front of
/// the ring is the message pushed last and the back is the oldest survivor.
/// In particular, pushing `cap + 1` messages keeps all but the first.
pub proof fn lemma_ring_keeps_most_recent(msgs: Seq<CachedMessage>, cap: nat)
    ensures
        ring_fold(Seq::empty(), msgs, cap).len() == (if msgs.len() <= cap {
            msgs.len()
        } else {
            cap
        }),
        forall|j: int|
            0 <= j < ring_fold(Seq::empty(), msgs, cap).len() ==> ring_fold(
                Seq::empty(),
                msgs,
                cap,
            )[j] == msgs[msgs.len() - 1 - j],
{
    lemma_ring_fold_shape(Seq::empty(), msgs, cap);
}

/// The shape of a ring after a fold of pushes: the newest messages in
/// reverse push order, then what survives of the original ring.
proof fn lemma_ring_fold_shape(ring: Seq<CachedMessage>, msgs: Seq<CachedMessage>, cap: nat)
    requires
        ring.len() <= cap,
    ensures
        ring_fold(ring, msgs, cap).len() == (if msgs.len() + ring.len() <= cap {
            msgs.len() + ring.len()
        } else {
            cap
        }),
        forall|j: int|
            0 <= j < ring_fold(ring, msgs, cap).len() && j < msgs.len() ==> ring_fold(
                ring,
                msgs,
                cap,
            )[j] == msgs[msgs.len() - 1 - j],
        forall|j: int|
            msgs.len() <= j < ring_fold(ring, msgs, cap).len() ==> ring_fold(ring, msgs, cap)[j]
                == ring[j - msgs.len()],
    decreases msgs.len(),
{
    if msgs.len() > 0 {
        let r1 = ring_push(ring, msgs[0], cap);
        assert(r1.len() <= cap);
        if r1.len() > 0 {
            assert(r1[0] == msgs[0]);
            assert(forall|j: int| 1 <= j < r1.len() ==> r1[j] == ring[j - 1]);
        }
        lemma_ring_fold_shape(r1, msgs.skip(1), cap);
        assert(ring_fold(ring, msgs, cap) == ring_fold(r1, msgs.skip(1), cap));
        assert forall|j: int|
            0 <= j < ring_fold(ring, msgs, cap).len() && j < msgs.len() implies ring_fold(
            ring,
            msgs,
            cap,
        )[j] == msgs[msgs.len() - 1 - j] by {
            if j < msgs.skip(1).len() {
                assert(ring_fold(r1, msgs.skip(1), cap)[j] == msgs.skip(1)[msgs.skip(1).len() - 1
                    - j]);
                assert(msgs.skip(1)[msgs.skip(1).len() - 1 - j] == msgs[msgs.len() - 1 - j]);
            } else {
                assert(j == msgs.len() - 1);
                assert(ring_fold(r1, msgs.skip(1), cap)[j] == r1[j - msgs.skip(1).len()]);
                assert(r1[0] == msgs[0]);
            }
        }
    }
}

/// A well-formed cache never stores a user with an empty tracked-guild set:
/// a user whose last membership is removed is gone entirely.
pub proof fn lemma_tracked_users_nonempty(cache: &InMemoryCache, user_id: u64)
    requires
        cache.wf(),
        cache.users@.contains_key(user_id),
    ensures
        !tracked_of(cache.users@, user_id).is_empty(),
{
}

} // verus!
