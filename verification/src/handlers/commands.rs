//! The way into the command pipeline: which messages are commands to parse,
//! and after which prefix.
//!
//! A message of a guild is let through only where the cache holds the guild
//! and its initial snapshot has fully arrived: a command must not be run
//! against a guild whose roles or members are only partly known.

use crate::cache::guild_complete_in;
use crate::context::BotContext;
use crate::entity::EntityView;
use crate::events::{CurrentUser, Event, Message};
use crate::text::{decimal, push_decimal, starts_with};
use vstd::prelude::*;
use vstd::string::StringExecFns;

verus! {

/// What is to be done with an event on its way to the command pipeline.
#[derive(Debug, PartialEq, Eq)]
pub enum CommandStep {
    /// Nothing: the event is no message for the pipeline, or it was dropped.
    Ignore,
    /// The message is let through. The prefix that its guild has configured is
    /// needed next, then `select_prefix`.
    NeedsPrefix { guild_id: u64 },
    /// The message is a command: parse what follows `prefix`.
    Dispatch { prefix: String },
}

/// What a step is, with its prefix as a sequence of characters.
pub enum CommandStepView {
    Ignore,
    NeedsPrefix { guild_id: u64 },
    Dispatch { prefix: Seq<char> },
}

impl View for CommandStep {
    type V = CommandStepView;

    open spec fn view(&self) -> CommandStepView {
        match self {
            CommandStep::Ignore => CommandStepView::Ignore,
            CommandStep::NeedsPrefix { guild_id } => CommandStepView::NeedsPrefix {
                guild_id: *guild_id,
            },
            CommandStep::Dispatch { prefix } => CommandStepView::Dispatch { prefix: prefix@ },
        }
    }
}

/// The mention of user `id`: `<@`, the identifier in decimal, `>`.
pub open spec fn mention(id: u64) -> Seq<char> {
    seq!['<', '@'] + decimal(id as nat) + seq!['>']
}

/// The mention of user `id` by nickname: `<@!`, the identifier in decimal, `>`.
pub open spec fn nickname_mention(id: u64) -> Seq<char> {
    seq!['<', '@', '!'] + decimal(id as nat) + seq!['>']
}

/// The prefix that makes `content` a command: the configured one if the
/// content begins with it, else a mention of the bot that it begins with, the
/// plain form before the nickname form.
pub open spec fn selected_prefix(content: Seq<char>, configured: Seq<char>, bot_id: u64) -> Option<
    Seq<char>,
> {
    if configured.is_prefix_of(content) {
        Some(configured)
    } else if mention(bot_id).is_prefix_of(content) {
        Some(mention(bot_id))
    } else if nickname_mention(bot_id).is_prefix_of(content) {
        Some(nickname_mention(bot_id))
    } else {
        None
    }
}

/// The prefix of messages outside any guild.
pub open spec fn default_prefix() -> Seq<char> {
    seq!['!']
}

/// What is to be done with `event` while events are taken in, where the cache
/// holds `cache` and the bot is user `bot_id`.
pub open spec fn step_for(cache: Map<(u8, u64), EntityView>, bot_id: u64, event: Event) -> CommandStepView {
    match event {
        Event::MessageCreate(message) => if message.author.id == bot_id {
            CommandStepView::Ignore
        } else {
            match message.guild_id {
                Some(guild_id) => if guild_complete_in(cache, guild_id) {
                    CommandStepView::NeedsPrefix { guild_id }
                } else {
                    CommandStepView::Ignore
                },
                None => match selected_prefix(message.content@, default_prefix(), bot_id) {
                    Some(prefix) => CommandStepView::Dispatch { prefix },
                    None => CommandStepView::Ignore,
                },
            }
        },
        _ => CommandStepView::Ignore,
    }
}

/// Finds the prefix that makes `message` a command, where `configured` is the
/// prefix of its guild; `None` where the message is no command.
pub fn select_prefix(message: &Message, configured: String, bot_user: &CurrentUser) -> (prefix: Option<
    String,
>)
    ensures
        match prefix {
            Some(prefix) => selected_prefix(message.content@, configured@, bot_user.id) == Some(
                prefix@,
            ),
            None => selected_prefix(message.content@, configured@, bot_user.id) is None,
        },
{
    if starts_with(message.content.as_str(), configured.as_str()) {
        return Some(configured);
    }
    proof {
        reveal_strlit("<@");
        reveal_strlit("<@!");
        reveal_strlit(">");
    }
    let mut plain = String::from_str("<@");
    push_decimal(&mut plain, bot_user.id);
    plain.append(">");
    assert(plain@ =~= mention(bot_user.id));
    if starts_with(message.content.as_str(), plain.as_str()) {
        return Some(plain);
    }
    let mut nickname = String::from_str("<@!");
    push_decimal(&mut nickname, bot_user.id);
    nickname.append(">");
    assert(nickname@ =~= nickname_mention(bot_user.id));
    if starts_with(message.content.as_str(), nickname.as_str()) {
        return Some(nickname);
    }
    None
}

/// Decides what is to be done with an event on its way to the command
/// pipeline.
///
/// Once the process prepares to stop, every event is dropped. Until then,
/// only a message that the bot did not write itself is considered. A message
/// of a guild is dropped unless the cache holds the guild and the guild is
/// complete; if it is, the guild's prefix is asked for. A message outside any
/// guild is a command if it begins with `!` or with a mention of the bot.
pub fn handle_event(shard_id: u64, event: &Event, ctx: &BotContext) -> (step: CommandStep)
    ensures
        ctx.accepting_events ==> step@ == step_for(ctx.cache@, ctx.bot_user.id, *event),
        !ctx.accepting_events ==> step@ == CommandStepView::Ignore,
{
    if !ctx.accepting_events {
        return CommandStep::Ignore;
    }
    match event {
        Event::MessageCreate(message) => {
            if ctx.is_own(message) {
                return CommandStep::Ignore;
            }
            match message.guild_id {
                Some(guild_id) => {
                    if ctx.cache.is_guild_complete(guild_id) {
                        CommandStep::NeedsPrefix { guild_id }
                    } else {
                        CommandStep::Ignore
                    }
                },
                None => {
                    proof {
                        reveal_strlit("!");
                        assert("!"@ =~= default_prefix());
                    }
                    match select_prefix(message, String::from_str("!"), &ctx.bot_user) {
                        Some(prefix) => CommandStep::Dispatch { prefix },
                        None => CommandStep::Ignore,
                    }
                },
            }
        },
        _ => CommandStep::Ignore,
    }
}

/// A message of a guild that the cache does not hold, or whose initial
/// snapshot has not fully arrived, is dropped.
pub proof fn lemma_incomplete_guild_is_dropped(
    cache: Map<(u8, u64), EntityView>,
    bot_id: u64,
    message: Message,
    guild_id: u64,
)
    requires
        message.guild_id == Some(guild_id),
        !guild_complete_in(cache, guild_id),
    ensures
        step_for(cache, bot_id, Event::MessageCreate(message)) == CommandStepView::Ignore,
{
}

} // verus!
