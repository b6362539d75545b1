//! Guild members: the relationship between a user and one guild.
use vstd::prelude::*;

use super::user::User;
use super::{copy_ids, ids_eq, opt_str_clone, opt_str_eq, opt_str_view};

verus! {

/// A member payload as delivered by the gateway: membership attributes plus
/// the full user record.
#[derive(Debug)]
pub struct Member {
    pub deaf: bool,
    pub guild_id: u64,
    pub joined_at: Option<String>,
    pub mute: bool,
    pub nick: Option<String>,
    pub pending: bool,
    pub premium_since: Option<String>,
    pub roles: Vec<u64>,
    pub user: User,
}

/// A partial member payload: membership attributes without a user record,
/// as carried inside message payloads.
#[derive(Clone, Debug)]
pub struct PartialMember {
    pub deaf: bool,
    pub joined_at: Option<String>,
    pub mute: bool,
    pub nick: Option<String>,
    pub premium_since: Option<String>,
    pub roles: Vec<u64>,
}

/// Semantic equality of member payloads.
pub open spec fn member_payload_eq(a: Member, b: Member) -> bool {
    &&& a.deaf == b.deaf
    &&& a.guild_id == b.guild_id
    &&& opt_str_view(a.joined_at) == opt_str_view(b.joined_at)
    &&& a.mute == b.mute
    &&& opt_str_view(a.nick) == opt_str_view(b.nick)
    &&& a.pending == b.pending
    &&& opt_str_view(a.premium_since) == opt_str_view(b.premium_since)
    &&& a.roles@ == b.roles@
    &&& crate::model::user::user_eq(a.user, b.user)
}

impl Clone for Member {
    fn clone(&self) -> (r: Member)
        ensures
            member_payload_eq(r, *self),
    {
        Member {
            deaf: self.deaf,
            guild_id: self.guild_id,
            joined_at: opt_str_clone(&self.joined_at),
            mute: self.mute,
            nick: opt_str_clone(&self.nick),
            pending: self.pending,
            premium_since: opt_str_clone(&self.premium_since),
            roles: copy_ids(&self.roles),
            user: self.user.clone(),
        }
    }
}

/// An owned copy of a member list, entry by entry.
pub(crate) fn copy_members(v: &Vec<Member>) -> (r: Vec<Member>)
    ensures
        r@.len() == v@.len(),
        forall|i: int| 0 <= i < v@.len() ==> member_payload_eq(#[trigger] r@[i], v@[i]),
{
    let mut r: Vec<Member> = Vec::new();
    let mut i: usize = 0;
    while i < v.len()
        invariant
            i <= v.len(),
            r@.len() == i,
            forall|j: int| 0 <= j < i ==> member_payload_eq(#[trigger] r@[j], v@[j]),
        decreases v.len() - i,
    {
        r.push(v[i].clone());
        i = i + 1;
    }
    r
}

/// A member as the cache stores it, keyed by guild and user.
#[derive(Debug)]
pub struct CachedMember {
    pub deaf: Option<bool>,
    pub guild_id: u64,
    pub joined_at: Option<String>,
    pub mute: Option<bool>,
    pub nick: Option<String>,
    pub pending: bool,
    pub premium_since: Option<String>,
    pub roles: Vec<u64>,
    pub user_id: u64,
}

/// Semantic equality of stored members.
pub open spec fn cached_member_eq(a: CachedMember, b: CachedMember) -> bool {
    &&& a.deaf == b.deaf
    &&& a.guild_id == b.guild_id
    &&& opt_str_view(a.joined_at) == opt_str_view(b.joined_at)
    &&& a.mute == b.mute
    &&& opt_str_view(a.nick) == opt_str_view(b.nick)
    &&& a.pending == b.pending
    &&& opt_str_view(a.premium_since) == opt_str_view(b.premium_since)
    &&& a.roles@ == b.roles@
    &&& a.user_id == b.user_id
}

/// A stored member matches an incoming member payload when every membership
/// field agrees and the payload concerns the same user. The owning guild is
/// not part of the comparison.
pub open spec fn member_matches(a: CachedMember, b: Member) -> bool {
    &&& a.deaf == Some(b.deaf)
    &&& opt_str_view(a.joined_at) == opt_str_view(b.joined_at)
    &&& a.mute == Some(b.mute)
    &&& opt_str_view(a.nick) == opt_str_view(b.nick)
    &&& a.pending == b.pending
    &&& opt_str_view(a.premium_since) == opt_str_view(b.premium_since)
    &&& a.roles@ == b.roles@
    &&& a.user_id == b.user.id
}

/// A stored member matches a partial member payload when every field the
/// payload carries agrees; the user and the pending flag are not carried.
pub open spec fn partial_member_matches(a: CachedMember, b: PartialMember) -> bool {
    &&& a.deaf == Some(b.deaf)
    &&& opt_str_view(a.joined_at) == opt_str_view(b.joined_at)
    &&& a.mute == Some(b.mute)
    &&& opt_str_view(a.nick) == opt_str_view(b.nick)
    &&& opt_str_view(a.premium_since) == opt_str_view(b.premium_since)
    &&& a.roles@ == b.roles@
}

/// The stored form of a member payload for the given guild.
pub open spec fn cached_of_member(guild_id: u64, m: Member) -> CachedMember {
    CachedMember {
        deaf: Some(m.deaf),
        guild_id,
        joined_at: m.joined_at,
        mute: Some(m.mute),
        nick: m.nick,
        pending: m.pending,
        premium_since: m.premium_since,
        roles: m.roles,
        user_id: m.user.id,
    }
}

impl PartialEq<Member> for CachedMember {
    fn eq(&self, other: &Member) -> bool {
        opt_bool_is(&self.deaf, other.deaf) && opt_str_eq(&self.joined_at, &other.joined_at)
            && opt_bool_is(&self.mute, other.mute) && opt_str_eq(&self.nick, &other.nick)
            && self.pending == other.pending
            && opt_str_eq(&self.premium_since, &other.premium_since)
            && ids_eq(&self.roles, &other.roles) && self.user_id == other.user.id
    }
}

impl vstd::std_specs::cmp::PartialEqSpecImpl<Member> for CachedMember {
    open spec fn obeys_eq_spec() -> bool {
        true
    }

    open spec fn eq_spec(&self, other: &Member) -> bool {
        member_matches(*self, *other)
    }
}

impl PartialEq<&PartialMember> for CachedMember {
    fn eq(&self, other: &&PartialMember) -> bool {
        opt_bool_is(&self.deaf, other.deaf) && opt_str_eq(&self.joined_at, &other.joined_at)
            && opt_bool_is(&self.mute, other.mute) && opt_str_eq(&self.nick, &other.nick)
            && opt_str_eq(&self.premium_since, &other.premium_since)
            && ids_eq(&self.roles, &other.roles)
    }
}

impl vstd::std_specs::cmp::PartialEqSpecImpl<&PartialMember> for CachedMember {
    open spec fn obeys_eq_spec() -> bool {
        true
    }

    open spec fn eq_spec(&self, other: &&PartialMember) -> bool {
        partial_member_matches(*self, **other)
    }
}

/// Whether an optional flag holds exactly the given value.
fn opt_bool_is(a: &Option<bool>, b: bool) -> (r: bool)
    ensures
        r == (*a == Some(b)),
{
    match a {
        Some(x) => *x == b,
        None => false,
    }
}

impl Clone for CachedMember {
    fn clone(&self) -> (r: CachedMember)
        ensures
            cached_member_eq(r, *self),
    {
        CachedMember {
            deaf: self.deaf,
            guild_id: self.guild_id,
            joined_at: opt_str_clone(&self.joined_at),
            mute: self.mute,
            nick: opt_str_clone(&self.nick),
            pending: self.pending,
            premium_since: opt_str_clone(&self.premium_since),
            roles: copy_ids(&self.roles),
            user_id: self.user_id,
        }
    }
}

/// The member-store key for a user inside a guild: the guild identifier in
/// the upper half, the user identifier in the lower half.
pub open spec fn member_key(guild_id: u64, user_id: u64) -> u128 {
    ((guild_id as int) * 0x1_0000_0000_0000_0000 + (user_id as int)) as u128
}

/// Distinct guild/user pairs give distinct member keys.
pub proof fn lemma_member_key_injective(g1: u64, u1: u64, g2: u64, u2: u64)
    ensures
        member_key(g1, u1) == member_key(g2, u2) ==> g1 == g2 && u1 == u2,
{
    let b: int = 0x1_0000_0000_0000_0000;
    assert((g1 as int) * b + (u1 as int) < b * b && (g2 as int) * b + (u2 as int) < b * b)
        by (nonlinear_arith)
        requires
            g1 <= 0xffff_ffff_ffff_ffff,
            g2 <= 0xffff_ffff_ffff_ffff,
            u1 <= 0xffff_ffff_ffff_ffff,
            u2 <= 0xffff_ffff_ffff_ffff,
            b == 0x1_0000_0000_0000_0000,
    ;
    if member_key(g1, u1) == member_key(g2, u2) {
        assert((g1 as int) * b + (u1 as int) == (g2 as int) * b + (u2 as int));
        assert(g1 == g2 && u1 == u2) by (nonlinear_arith)
            requires
                (g1 as int) * b + (u1 as int) == (g2 as int) * b + (u2 as int),
                0 <= (u1 as int) < b,
                0 <= (u2 as int) < b,
                b == 0x1_0000_0000_0000_0000,
        ;
    }
}

/// Computes the member-store key.
pub fn member_key_exec(guild_id: u64, user_id: u64) -> (k: u128)
    ensures
        k == member_key(guild_id, user_id),
{
    proof {
        assert((guild_id as int) * 0x1_0000_0000_0000_0000 + (user_id as int)
            < 0x1_0000_0000_0000_0000_0000_0000_0000_0000) by (nonlinear_arith)
            requires
                guild_id <= 0xffff_ffff_ffff_ffff,
                user_id <= 0xffff_ffff_ffff_ffff,
        ;
    }
    (guild_id as u128) * 0x1_0000_0000_0000_0000u128 + (user_id as u128)
}

} // verus!
