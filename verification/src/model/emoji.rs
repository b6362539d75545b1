//! Guild emojis.
use vstd::prelude::*;

use super::{copy_ids, ids_eq};
use super::user::User;

verus! {

/// An emoji payload as delivered by the gateway. The optional `user` is the
/// account that created the emoji; caching the emoji also caches it.
#[derive(Debug)]
pub struct Emoji {
    pub animated: bool,
    pub available: bool,
    pub id: u64,
    pub managed: bool,
    pub name: String,
    pub require_colons: bool,
    pub roles: Vec<u64>,
    pub user: Option<User>,
}

/// Semantic equality of emoji payloads, the optional creator included.
pub open spec fn emoji_payload_eq(a: Emoji, b: Emoji) -> bool {
    &&& a.animated == b.animated
    &&& a.available == b.available
    &&& a.id == b.id
    &&& a.managed == b.managed
    &&& a.name@ == b.name@
    &&& a.require_colons == b.require_colons
    &&& a.roles@ == b.roles@
    &&& match (a.user, b.user) {
        (None, None) => true,
        (Some(x), Some(y)) => crate::model::user::user_eq(x, y),
        _ => false,
    }
}

impl Clone for Emoji {
    fn clone(&self) -> (r: Emoji)
        ensures
            emoji_payload_eq(r, *self),
    {
        Emoji {
            animated: self.animated,
            available: self.available,
            id: self.id,
            managed: self.managed,
            name: self.name.clone(),
            require_colons: self.require_colons,
            roles: copy_ids(&self.roles),
            user: match &self.user {
                Some(u) => Some(u.clone()),
                None => None,
            },
        }
    }
}

/// An owned copy of an emoji list, entry by entry.
pub(crate) fn copy_emojis(v: &Vec<Emoji>) -> (r: Vec<Emoji>)
    ensures
        r@.len() == v@.len(),
        forall|i: int| 0 <= i < v@.len() ==> emoji_payload_eq(#[trigger] r@[i], v@[i]),
{
    let mut r: Vec<Emoji> = Vec::new();
    let mut i: usize = 0;
    while i < v.len()
        invariant
            i <= v.len(),
            r@.len() == i,
            forall|j: int| 0 <= j < i ==> emoji_payload_eq(#[trigger] r@[j], v@[j]),
        decreases v.len() - i,
    {
        r.push(v[i].clone());
        i = i + 1;
    }
    r
}

/// An emoji as the cache stores it: the payload without its creator, who is
/// kept in the user index instead.
#[derive(Debug)]
pub struct CachedEmoji {
    pub id: u64,
    pub animated: bool,
    pub name: String,
    pub require_colons: bool,
    pub roles: Vec<u64>,
    pub available: bool,
}

/// Semantic equality of stored emojis.
pub open spec fn cached_emoji_eq(a: CachedEmoji, b: CachedEmoji) -> bool {
    &&& a.id == b.id
    &&& a.animated == b.animated
    &&& a.name@ == b.name@
    &&& a.require_colons == b.require_colons
    &&& a.roles@ == b.roles@
    &&& a.available == b.available
}

/// A stored emoji matches an incoming payload when every cached field agrees;
/// the payload's creator is not part of the comparison.
pub open spec fn emoji_matches(a: CachedEmoji, b: Emoji) -> bool {
    &&& a.id == b.id
    &&& a.animated == b.animated
    &&& a.name@ == b.name@
    &&& a.require_colons == b.require_colons
    &&& a.roles@ == b.roles@
    &&& a.available == b.available
}

/// The stored form of an emoji payload.
pub open spec fn cached_of_emoji(e: Emoji) -> CachedEmoji {
    CachedEmoji {
        id: e.id,
        animated: e.animated,
        name: e.name,
        require_colons: e.require_colons,
        roles: e.roles,
        available: e.available,
    }
}

impl PartialEq for CachedEmoji {
    fn eq(&self, other: &CachedEmoji) -> bool {
        self.id == other.id && self.animated == other.animated && self.name == other.name
            && self.require_colons == other.require_colons && ids_eq(&self.roles, &other.roles)
            && self.available == other.available
    }
}

impl vstd::std_specs::cmp::PartialEqSpecImpl for CachedEmoji {
    open spec fn obeys_eq_spec() -> bool {
        true
    }

    open spec fn eq_spec(&self, other: &CachedEmoji) -> bool {
        cached_emoji_eq(*self, *other)
    }
}

impl PartialEq<Emoji> for CachedEmoji {
    fn eq(&self, other: &Emoji) -> bool {
        self.id == other.id && self.animated == other.animated && self.name == other.name
            && self.require_colons == other.require_colons && ids_eq(&self.roles, &other.roles)
            && self.available == other.available
    }
}

impl vstd::std_specs::cmp::PartialEqSpecImpl<Emoji> for CachedEmoji {
    open spec fn obeys_eq_spec() -> bool {
        true
    }

    open spec fn eq_spec(&self, other: &Emoji) -> bool {
        emoji_matches(*self, *other)
    }
}

impl Clone for CachedEmoji {
    fn clone(&self) -> (r: CachedEmoji)
        ensures
            cached_emoji_eq(r, *self),
    {
        CachedEmoji {
            id: self.id,
            animated: self.animated,
            name: self.name.clone(),
            require_colons: self.require_colons,
            roles: copy_ids(&self.roles),
            available: self.available,
        }
    }
}

} // verus!
