//! Messages, kept per channel in a bounded most-recent-first ring.
use vstd::prelude::*;

use super::user::{user_eq, User};
use super::{copy_ids, copy_strings, opt_str_clone, str_seq_eq};

verus! {

/// A message payload as delivered by the gateway, with the full author
/// record.
#[derive(Debug)]
pub struct Message {
    pub id: u64,
    pub attachments: Vec<String>,
    pub author: User,
    pub channel_id: u64,
    pub content: String,
    pub guild_id: Option<u64>,
    pub mention_everyone: bool,
    pub mention_roles: Vec<u64>,
    pub mentions: Vec<u64>,
    pub pinned: bool,
    pub timestamp: String,
    pub tts: bool,
}

/// Semantic equality of message payloads.
pub open spec fn message_payload_eq(a: Message, b: Message) -> bool {
    &&& a.id == b.id
    &&& str_seq_eq(a.attachments@, b.attachments@)
    &&& user_eq(a.author, b.author)
    &&& a.channel_id == b.channel_id
    &&& a.content@ == b.content@
    &&& a.guild_id == b.guild_id
    &&& a.mention_everyone == b.mention_everyone
    &&& a.mention_roles@ == b.mention_roles@
    &&& a.mentions@ == b.mentions@
    &&& a.pinned == b.pinned
    &&& a.timestamp@ == b.timestamp@
    &&& a.tts == b.tts
}

impl Clone for Message {
    fn clone(&self) -> (r: Message)
        ensures
            message_payload_eq(r, *self),
    {
        Message {
            id: self.id,
            attachments: copy_strings(&self.attachments),
            author: self.author.clone(),
            channel_id: self.channel_id,
            content: self.content.clone(),
            guild_id: self.guild_id,
            mention_everyone: self.mention_everyone,
            mention_roles: copy_ids(&self.mention_roles),
            mentions: copy_ids(&self.mentions),
            pinned: self.pinned,
            timestamp: self.timestamp.clone(),
            tts: self.tts,
        }
    }
}

/// A message as the cache stores it: the author reduced to an identifier.
#[derive(Debug)]
pub struct CachedMessage {
    pub id: u64,
    pub attachments: Vec<String>,
    pub author: u64,
    pub channel_id: u64,
    pub content: String,
    pub guild_id: Option<u64>,
    pub mention_everyone: bool,
    pub mention_roles: Vec<u64>,
    pub mentions: Vec<u64>,
    pub pinned: bool,
    pub timestamp: String,
    pub tts: bool,
}

/// The stored form of a message payload.
pub open spec fn cached_of_message(m: Message) -> CachedMessage {
    CachedMessage {
        id: m.id,
        attachments: m.attachments,
        author: m.author.id,
        channel_id: m.channel_id,
        content: m.content,
        guild_id: m.guild_id,
        mention_everyone: m.mention_everyone,
        mention_roles: m.mention_roles,
        mentions: m.mentions,
        pinned: m.pinned,
        timestamp: m.timestamp,
        tts: m.tts,
    }
}

impl CachedMessage {
    /// Reduces a message payload to its stored form.
    pub fn from_message(m: Message) -> (r: CachedMessage)
        ensures
            r == cached_of_message(m),
    {
        let Message {
            id,
            attachments,
            author,
            channel_id,
            content,
            guild_id,
            mention_everyone,
            mention_roles,
            mentions,
            pinned,
            timestamp,
            tts,
        } = m;
        CachedMessage {
            id,
            attachments,
            author: author.id,
            channel_id,
            content,
            guild_id,
            mention_everyone,
            mention_roles,
            mentions,
            pinned,
            timestamp,
            tts,
        }
    }
}

} // verus!
