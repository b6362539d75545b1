//! Guild roles.
use vstd::prelude::*;

use super::copy_ids;

verus! {

/// A role owned by exactly one guild: permission bitset, display attributes
/// and sort position.
#[derive(Debug)]
pub struct Role {
    pub color: u32,
    pub hoist: bool,
    pub id: u64,
    pub managed: bool,
    pub mentionable: bool,
    pub name: String,
    pub permissions: u64,
    pub position: i64,
}

/// Semantic equality of roles: every field, the name by content.
pub open spec fn role_eq(a: Role, b: Role) -> bool {
    &&& a.color == b.color
    &&& a.hoist == b.hoist
    &&& a.id == b.id
    &&& a.managed == b.managed
    &&& a.mentionable == b.mentionable
    &&& a.name@ == b.name@
    &&& a.permissions == b.permissions
    &&& a.position == b.position
}

impl PartialEq for Role {
    fn eq(&self, other: &Role) -> bool {
        self.color == other.color && self.hoist == other.hoist && self.id == other.id
            && self.managed == other.managed && self.mentionable == other.mentionable
            && self.name == other.name && self.permissions == other.permissions
            && self.position == other.position
    }
}

impl vstd::std_specs::cmp::PartialEqSpecImpl for Role {
    open spec fn obeys_eq_spec() -> bool {
        true
    }

    open spec fn eq_spec(&self, other: &Role) -> bool {
        role_eq(*self, *other)
    }
}

impl Clone for Role {
    fn clone(&self) -> (r: Role)
        ensures
            role_eq(r, *self),
    {
        Role {
            color: self.color,
            hoist: self.hoist,
            id: self.id,
            managed: self.managed,
            mentionable: self.mentionable,
            name: self.name.clone(),
            permissions: self.permissions,
            position: self.position,
        }
    }
}

/// An owned copy of a role list, entry by entry.
pub(crate) fn copy_roles(v: &Vec<Role>) -> (r: Vec<Role>)
    ensures
        r@.len() == v@.len(),
        forall|i: int| 0 <= i < v@.len() ==> role_eq(#[trigger] r@[i], v@[i]),
{
    let mut r: Vec<Role> = Vec::new();
    let mut i: usize = 0;
    while i < v.len()
        invariant
            i <= v.len(),
            r@.len() == i,
            forall|j: int| 0 <= j < i ==> role_eq(#[trigger] r@[j], v@[j]),
        decreases v.len() - i,
    {
        r.push(v[i].clone());
        i = i + 1;
    }
    r
}

/// A role as it is exported to cold storage: the role data together with the
/// identifier of the guild that owns it.
#[derive(Debug)]
pub struct ColdStorageRole {
    pub color: u32,
    pub hoist: bool,
    pub id: u64,
    pub managed: bool,
    pub mentionable: bool,
    pub name: String,
    pub permissions: u64,
    pub position: i64,
    pub guild_id: u64,
}

impl ColdStorageRole {
    /// Splits the stored form back into the role data and its owning guild.
    pub fn into_parts(self) -> (r: (Role, u64))
        ensures
            r.0 == (Role {
                color: self.color,
                hoist: self.hoist,
                id: self.id,
                managed: self.managed,
                mentionable: self.mentionable,
                name: self.name,
                permissions: self.permissions,
                position: self.position,
            }),
            r.1 == self.guild_id,
    {
        let ColdStorageRole {
            color,
            hoist,
            id,
            managed,
            mentionable,
            name,
            permissions,
            position,
            guild_id,
        } = self;
        (Role { color, hoist, id, managed, mentionable, name, permissions, position }, guild_id)
    }
}

/// The stored item a cold-storage role restores to.
pub open spec fn role_item_of_cold(c: ColdStorageRole) -> crate::cache::GuildItem<Role> {
    crate::cache::GuildItem {
        data: Role {
            color: c.color,
            hoist: c.hoist,
            id: c.id,
            managed: c.managed,
            mentionable: c.mentionable,
            name: c.name,
            permissions: c.permissions,
            position: c.position,
        },
        guild_id: c.guild_id,
    }
}

/// The stored form of a role, built when the store is drained for a snapshot.
pub open spec fn cold_of_role(r: Role, guild_id: u64) -> ColdStorageRole {
    ColdStorageRole {
        color: r.color,
        hoist: r.hoist,
        id: r.id,
        managed: r.managed,
        mentionable: r.mentionable,
        name: r.name,
        permissions: r.permissions,
        position: r.position,
        guild_id,
    }
}

} // verus!
