//! Users and the bot's own account.
use vstd::prelude::*;

use super::{opt_str_clone, opt_str_eq, opt_str_view};
use std::collections::BTreeSet;

verus! {

/// A globally identified account, independent of any guild.
#[derive(Debug)]
pub struct User {
    pub avatar: Option<String>,
    pub bot: bool,
    pub discriminator: String,
    pub id: u64,
    pub name: String,
}

/// Semantic equality of users: every field, strings by content.
pub open spec fn user_eq(a: User, b: User) -> bool {
    &&& opt_str_view(a.avatar) == opt_str_view(b.avatar)
    &&& a.bot == b.bot
    &&& a.discriminator@ == b.discriminator@
    &&& a.id == b.id
    &&& a.name@ == b.name@
}

impl PartialEq for User {
    fn eq(&self, other: &User) -> bool {
        opt_str_eq(&self.avatar, &other.avatar) && self.bot == other.bot
            && self.discriminator == other.discriminator && self.id == other.id
            && self.name == other.name
    }
}

impl vstd::std_specs::cmp::PartialEqSpecImpl for User {
    open spec fn obeys_eq_spec() -> bool {
        true
    }

    open spec fn eq_spec(&self, other: &User) -> bool {
        user_eq(*self, *other)
    }
}

impl Clone for User {
    fn clone(&self) -> (r: User)
        ensures
            user_eq(r, *self),
    {
        User {
            avatar: opt_str_clone(&self.avatar),
            bot: self.bot,
            discriminator: self.discriminator.clone(),
            id: self.id,
            name: self.name.clone(),
        }
    }
}

/// The bot's own account: the one singleton entry of the store.
#[derive(Debug)]
pub struct CurrentUser {
    pub avatar: Option<String>,
    pub bot: bool,
    pub discriminator: String,
    pub id: u64,
    pub mfa_enabled: bool,
    pub name: String,
    pub verified: Option<bool>,
}

/// Semantic equality of the bot account.
pub open spec fn current_user_eq(a: CurrentUser, b: CurrentUser) -> bool {
    &&& opt_str_view(a.avatar) == opt_str_view(b.avatar)
    &&& a.bot == b.bot
    &&& a.discriminator@ == b.discriminator@
    &&& a.id == b.id
    &&& a.mfa_enabled == b.mfa_enabled
    &&& a.name@ == b.name@
    &&& a.verified == b.verified
}

impl Clone for CurrentUser {
    fn clone(&self) -> (r: CurrentUser)
        ensures
            current_user_eq(r, *self),
    {
        CurrentUser {
            avatar: opt_str_clone(&self.avatar),
            bot: self.bot,
            discriminator: self.discriminator.clone(),
            id: self.id,
            mfa_enabled: self.mfa_enabled,
            name: self.name.clone(),
            verified: self.verified,
        }
    }
}

/// A user as it is exported to cold storage: the account data together with
/// the set of guilds the user is tracked in.
#[derive(Debug)]
pub struct ColdStorageUser {
    pub avatar: Option<String>,
    pub bot: bool,
    pub discriminator: String,
    pub id: u64,
    pub name: String,
    pub guilds: BTreeSet<u64>,
}

impl ColdStorageUser {
    /// Splits the stored form back into the account data and its guild set.
    pub fn into_parts(self) -> (r: (User, BTreeSet<u64>))
        ensures
            r.0 == (User {
                avatar: self.avatar,
                bot: self.bot,
                discriminator: self.discriminator,
                id: self.id,
                name: self.name,
            }),
            r.1 == self.guilds,
    {
        let ColdStorageUser { avatar, bot, discriminator, id, name, guilds } = self;
        (User { avatar, bot, discriminator, id, name }, guilds)
    }
}

/// The pair a cold-storage user restores to.
pub open spec fn user_of_cold(c: ColdStorageUser) -> (User, BTreeSet<u64>) {
    (
        User {
            avatar: c.avatar,
            bot: c.bot,
            discriminator: c.discriminator,
            id: c.id,
            name: c.name,
        },
        c.guilds,
    )
}

/// The stored form of a user, built when the store is drained for a snapshot.
pub open spec fn cold_of_user(u: User, guilds: BTreeSet<u64>) -> ColdStorageUser {
    ColdStorageUser {
        avatar: u.avatar,
        bot: u.bot,
        discriminator: u.discriminator,
        id: u.id,
        name: u.name,
        guilds,
    }
}

} // verus!
