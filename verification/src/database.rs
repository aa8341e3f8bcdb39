//! What the storage of messages and webhooks computes: the order of its
//! start-up, the rows it writes, and what it makes of the rows it reads.
//!
//! The stores themselves are reached by the caller. Identifiers are 64 bits
//! without a sign here and 64 bits with a sign in the tables, so each is
//! written as the signed number with the same bits.

use crate::config::BotConfig;
use crate::events::Message;
use crate::wire::{copy_bytes, text_from_utf8};
use vstd::prelude::*;
use vstd::utf8::{decode_utf8, valid_utf8};

verus! {

/// The signed number with the bits of `id`.
pub open spec fn signed_id(id: u64) -> i64 {
    id as i64
}

/// The identifier with the bits of `stored`.
pub open spec fn unsigned_id(stored: i64) -> u64 {
    stored as u64
}

/// An identifier that was written is read back as it was.
pub proof fn lemma_id_round_trip(id: u64)
    ensures
        unsigned_id(signed_id(id)) == id,
{
    assert((id as i64) as u64 == id) by (bit_vector);
}

/// The signed number with the bits of `id`.
pub fn to_stored_id(id: u64) -> (stored: i64)
    ensures
        stored == signed_id(id),
{
    #[verifier::truncate]
    (id as i64)
}

/// The identifier with the bits of `stored`.
pub fn from_stored_id(stored: i64) -> (id: u64)
    ensures
        id == unsigned_id(stored),
{
    #[verifier::truncate]
    (stored as u64)
}

/// The steps of the storage's start-up, in their order.
#[derive(Clone, Copy, Debug, PartialEq, Eq, Structural)]
pub enum StartupStep {
    ConnectPostgres,
    RunMigrations,
    ConnectRedis,
}

/// Why the storage did not start.
#[derive(Clone, Copy, Debug, PartialEq, Eq, Structural)]
pub enum StartupError {
    /// The relational store could not be reached, or its migrations failed.
    Sqlx,
    /// The cache store could not be reached.
    DarkRedis,
}

/// What the start-up is to do next.
#[derive(Debug, PartialEq, Eq)]
pub enum StartupProgress {
    /// Carry out this step and report how it ended.
    Next(StartupStep),
    /// Every step succeeded.
    Started(DataStorage),
}

/// A file that was attached to a message.
#[derive(Debug, PartialEq, Eq)]
pub struct Attachment {
    pub id: u64,
    pub filename: String,
    pub width: Option<u64>,
}

/// The row of a message.
#[derive(Debug, PartialEq, Eq)]
pub struct MessageRow {
    pub id: i64,
    pub encrypted_content: Vec<u8>,
    pub author_id: i64,
    pub channel_id: i64,
    pub guild_id: i64,
    pub kind: i16,
    pub pinned: bool,
}

/// The row of an attachment. `image` says whether the file has a width.
#[derive(Debug, PartialEq, Eq)]
pub struct AttachmentRow {
    pub id: i64,
    pub name: String,
    pub image: bool,
    pub message_id: i64,
}

/// The row of a webhook.
#[derive(Debug, PartialEq, Eq)]
pub struct WebhookRow {
    pub channel_id: i64,
    pub id: i64,
    pub token: String,
}

/// A message as it is stored.
#[derive(Debug, PartialEq, Eq)]
pub struct StoredUserMessage {
    pub id: i64,
    pub encrypted_content: Vec<u8>,
    pub author_id: i64,
    pub channel_id: i64,
    pub guild_id: i64,
    pub kind: i16,
    pub pinned: bool,
}

/// A message as it is handed out.
#[derive(Debug, PartialEq, Eq)]
pub struct UserMessage {
    pub content: String,
    pub author: u64,
    pub channel: u64,
    pub guild: u64,
    pub kind: i16,
    pub pinned: bool,
}

/// What the storage keeps for itself: the key under which the keys of the
/// guilds are encrypted.
#[derive(Debug, PartialEq, Eq)]
pub struct DataStorage {
    primary_encryption_key: Vec<u8>,
}

/// What the start-up does after `finished` ended as `succeeded` says; `None`
/// stands for the beginning, where nothing has been done yet.
pub open spec fn startup_after(finished: Option<StartupStep>, succeeded: bool) -> Result<
    Option<StartupStep>,
    StartupError,
> {
    match finished {
        None => Ok(Some(StartupStep::ConnectPostgres)),
        Some(StartupStep::ConnectPostgres) => if succeeded {
            Ok(Some(StartupStep::RunMigrations))
        } else {
            Err(StartupError::Sqlx)
        },
        Some(StartupStep::RunMigrations) => if succeeded {
            Ok(Some(StartupStep::ConnectRedis))
        } else {
            Err(StartupError::Sqlx)
        },
        Some(StartupStep::ConnectRedis) => if succeeded {
            Ok(None)
        } else {
            Err(StartupError::DarkRedis)
        },
    }
}

impl DataStorage {
    /// The key under which the keys of the guilds are encrypted.
    pub closed spec fn key(&self) -> Seq<u8> {
        self.primary_encryption_key@
    }

    /// The key under which the keys of the guilds are encrypted.
    pub fn primary_key(&self) -> (key: &Vec<u8>)
        ensures
            key@ == self.key(),
    {
        &self.primary_encryption_key
    }

    /// One step of the storage's start-up.
    ///
    /// The relational store is reached first, then its migrations are run,
    /// then the cache store is reached. A step that fails ends the start-up
    /// with its error. After the last step the storage holds the main
    /// encryption key of the configuration.
    pub fn initalize(config: &BotConfig, finished: Option<StartupStep>, succeeded: bool) -> (progress:
        Result<StartupProgress, StartupError>)
        requires
            config.__main_encryption_key is Some,
        ensures
            match progress {
                Ok(StartupProgress::Next(step)) => startup_after(finished, succeeded) == Ok::<
                    Option<StartupStep>,
                    StartupError,
                >(Some(step)),
                Ok(StartupProgress::Started(storage)) => startup_after(finished, succeeded) == Ok::<
                    Option<StartupStep>,
                    StartupError,
                >(None) && storage.key() == config.__main_encryption_key.unwrap()@,
                Err(error) => startup_after(finished, succeeded) == Err::<
                    Option<StartupStep>,
                    StartupError,
                >(error),
            },
    {
        match finished {
            None => Ok(StartupProgress::Next(StartupStep::ConnectPostgres)),
            Some(StartupStep::ConnectPostgres) => if succeeded {
                Ok(StartupProgress::Next(StartupStep::RunMigrations))
            } else {
                Err(StartupError::Sqlx)
            },
            Some(StartupStep::RunMigrations) => if succeeded {
                Ok(StartupProgress::Next(StartupStep::ConnectRedis))
            } else {
                Err(StartupError::Sqlx)
            },
            Some(StartupStep::ConnectRedis) => if succeeded {
                let key = match &config.__main_encryption_key {
                    Some(key) => copy_bytes(key.as_slice()),
                    None => Vec::new(),
                };
                Ok(StartupProgress::Started(DataStorage { primary_encryption_key: key }))
            } else {
                Err(StartupError::DarkRedis)
            },
        }
    }

    /// The row of `message`, whose content was encrypted as `ciphertext`.
    pub fn insert_message(message: &Message, ciphertext: Vec<u8>) -> (row: MessageRow)
        requires
            message.guild_id is Some,
        ensures
            row.id == signed_id(message.id),
            row.encrypted_content == ciphertext,
            row.author_id == signed_id(message.author.id),
            row.channel_id == signed_id(message.channel_id),
            row.guild_id == signed_id(message.guild_id.unwrap()),
            row.kind == message.kind,
            row.pinned == message.pinned,
    {
        let guild_id = match message.guild_id {
            Some(guild_id) => guild_id,
            None => 0,
        };
        MessageRow {
            id: to_stored_id(message.id),
            encrypted_content: ciphertext,
            author_id: to_stored_id(message.author.id),
            channel_id: to_stored_id(message.channel_id),
            guild_id: to_stored_id(guild_id),
            kind: message.kind as i16,
            pinned: message.pinned,
        }
    }

    /// The row of `attachment` of message `message_id`.
    pub fn insert_attachment(message_id: u64, attachment: &Attachment) -> (row: AttachmentRow)
        ensures
            row.id == signed_id(attachment.id),
            row.name@ == attachment.filename@,
            row.image == attachment.width is Some,
            row.message_id == signed_id(message_id),
    {
        AttachmentRow {
            id: to_stored_id(attachment.id),
            name: attachment.filename.clone(),
            image: attachment.width.is_some(),
            message_id: to_stored_id(message_id),
        }
    }

    /// The message that was stored as `stored`, whose content was decrypted
    /// as `content`; `None` where no message was found, or where the content
    /// is not text in UTF-8.
    pub fn get_full_message(stored: Option<StoredUserMessage>, content: Vec<u8>) -> (message: Option<
        UserMessage,
    >)
        ensures
            match message {
                Some(message) => {
                    &&& stored is Some
                    &&& valid_utf8(content@)
                    &&& message.content@ == decode_utf8(content@)
                    &&& message.author == unsigned_id(stored.unwrap().author_id)
                    &&& message.channel == unsigned_id(stored.unwrap().channel_id)
                    &&& message.guild == unsigned_id(stored.unwrap().guild_id)
                    &&& message.kind == stored.unwrap().kind
                    &&& message.pinned == stored.unwrap().pinned
                },
                None => stored is None || !valid_utf8(content@),
            },
    {
        let stored = match stored {
            Some(stored) => stored,
            None => {
                return None;
            },
        };
        match text_from_utf8(content) {
            Some(content) => Some(
                UserMessage {
                    content,
                    author: from_stored_id(stored.author_id),
                    channel: from_stored_id(stored.channel_id),
                    guild: from_stored_id(stored.guild_id),
                    kind: stored.kind,
                    pinned: stored.pinned,
                },
            ),
            None => None,
        }
    }

    /// The identifier and the token of the webhook that was stored as `stored`.
    pub fn get_webhook_parts(stored: Option<WebhookRow>) -> (parts: Option<(u64, String)>)
        ensures
            match parts {
                Some((id, token)) => stored is Some && id == unsigned_id(stored.unwrap().id)
                    && token == stored.unwrap().token,
                None => stored is None,
            },
    {
        match stored {
            Some(stored) => Some((from_stored_id(stored.id), stored.token)),
            None => None,
        }
    }

    /// The row of the webhook `id` of channel `channel_id`.
    pub fn insert_webhook(channel_id: u64, id: u64, token: String) -> (row: WebhookRow)
        ensures
            row.channel_id == signed_id(channel_id),
            row.id == signed_id(id),
            row.token == token,
    {
        WebhookRow { channel_id: to_stored_id(channel_id), id: to_stored_id(id), token }
    }

    /// The stored identifier of the channel whose webhook is to be removed.
    pub fn remove_webhook(channel_id: u64) -> (stored: i64)
        ensures
            stored == signed_id(channel_id),
    {
        to_stored_id(channel_id)
    }
}

} // verus!
