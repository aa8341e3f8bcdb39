//! Counters of what the process has seen since it started.

use crate::events::{CurrentUser, Message};
use vstd::prelude::*;

verus! {

/// `chrono::Utc::now`, as milliseconds since the Unix epoch. The result is the
/// clock's and nothing is stated of it.
#[verifier::external_body]
pub(crate) fn now_millis() -> i64 {
    chrono::Utc::now().timestamp_millis()
}

/// The counters. They wrap round at `usize::MAX`, as the atomic counters of a
/// shared instance would.
#[derive(Debug, PartialEq, Eq)]
pub struct BotStats {
    /// When the counters were started, in milliseconds since the Unix epoch.
    pub start_time: i64,
    pub user_messages: usize,
    pub bot_messages: usize,
    pub my_messages: usize,
    pub error_count: usize,
    pub commands_ran: usize,
    pub custom_commands_ran: usize,
    pub guilds: usize,
    pub version: String,
}

/// The counters alone, without the start time and the version.
pub struct Counters {
    pub user_messages: usize,
    pub bot_messages: usize,
    pub my_messages: usize,
    pub error_count: usize,
    pub commands_ran: usize,
    pub custom_commands_ran: usize,
    pub guilds: usize,
}

impl BotStats {
    /// The counters as they stand.
    pub open spec fn counters(&self) -> Counters {
        Counters {
            user_messages: self.user_messages,
            bot_messages: self.bot_messages,
            my_messages: self.my_messages,
            error_count: self.error_count,
            commands_ran: self.commands_ran,
            custom_commands_ran: self.custom_commands_ran,
            guilds: self.guilds,
        }
    }

    /// Whether `message` was written by `bot_user`.
    pub open spec fn spec_is_own(bot_user: &CurrentUser, message: &Message) -> bool {
        bot_user.id == message.author.id
    }

    /// Counters at zero, started at `start_time`, for the build `version`.
    pub fn new(start_time: i64, version: String) -> (stats: Self)
        ensures
            stats.start_time == start_time,
            stats.version@ == version@,
            stats.counters() == (Counters {
                user_messages: 0,
                bot_messages: 0,
                my_messages: 0,
                error_count: 0,
                commands_ran: 0,
                custom_commands_ran: 0,
                guilds: 0,
            }),
    {
        BotStats {
            start_time,
            user_messages: 0,
            bot_messages: 0,
            my_messages: 0,
            error_count: 0,
            commands_ran: 0,
            custom_commands_ran: 0,
            guilds: 0,
            version,
        }
    }

    /// Counts one message: a user's, or a bot's, and among the bots' also the
    /// ones that `bot_user` wrote itself.
    pub fn new_message(&mut self, bot_user: &CurrentUser, message: &Message)
        ensures
            final(self).start_time == old(self).start_time,
            final(self).version == old(self).version,
            final(self).counters() == (Counters {
                user_messages: if message.author.bot {
                    old(self).user_messages
                } else {
                    old(self).user_messages.wrapping_add(1)
                },
                bot_messages: if message.author.bot {
                    old(self).bot_messages.wrapping_add(1)
                } else {
                    old(self).bot_messages
                },
                my_messages: if message.author.bot && BotStats::spec_is_own(bot_user, message) {
                    old(self).my_messages.wrapping_add(1)
                } else {
                    old(self).my_messages
                },
                ..old(self).counters()
            }),
    {
        if message.author.bot {
            if bot_user.id == message.author.id {
                self.my_messages = self.my_messages.wrapping_add(1);
            }
            self.bot_messages = self.bot_messages.wrapping_add(1);
        } else {
            self.user_messages = self.user_messages.wrapping_add(1);
        }
    }

    /// Counts one error.
    pub fn had_error(&mut self)
        ensures
            final(self).start_time == old(self).start_time,
            final(self).version == old(self).version,
            final(self).counters() == (Counters {
                error_count: old(self).error_count.wrapping_add(1),
                ..old(self).counters()
            }),
    {
        self.error_count = self.error_count.wrapping_add(1);
    }

    /// Counts one guild more.
    pub fn new_guild(&mut self)
        ensures
            final(self).start_time == old(self).start_time,
            final(self).version == old(self).version,
            final(self).counters() == (Counters {
                guilds: old(self).guilds.wrapping_add(1),
                ..old(self).counters()
            }),
    {
        self.guilds = self.guilds.wrapping_add(1);
    }

    /// Counts one guild less.
    pub fn left_guild(&mut self)
        ensures
            final(self).start_time == old(self).start_time,
            final(self).version == old(self).version,
            final(self).counters() == (Counters {
                guilds: old(self).guilds.wrapping_sub(1),
                ..old(self).counters()
            }),
    {
        self.guilds = self.guilds.wrapping_sub(1);
    }

    /// Counts one command: a custom one, or one of the built-in ones.
    pub fn command_used(&mut self, is_custom: bool)
        ensures
            final(self).start_time == old(self).start_time,
            final(self).version == old(self).version,
            final(self).counters() == (Counters {
                commands_ran: if is_custom {
                    old(self).commands_ran
                } else {
                    old(self).commands_ran.wrapping_add(1)
                },
                custom_commands_ran: if is_custom {
                    old(self).custom_commands_ran.wrapping_add(1)
                } else {
                    old(self).custom_commands_ran
                },
                ..old(self).counters()
            }),
    {
        if !is_custom {
            self.commands_ran = self.commands_ran.wrapping_add(1);
        } else {
            self.custom_commands_ran = self.custom_commands_ran.wrapping_add(1);
        }
    }
}

impl Default for BotStats {
    /// Counters at zero, started now, with no version named.
    fn default() -> (stats: BotStats)
        ensures
            stats.version@ == Seq::<char>::empty(),
            stats.counters() == (Counters {
                user_messages: 0,
                bot_messages: 0,
                my_messages: 0,
                error_count: 0,
                commands_ran: 0,
                custom_commands_ran: 0,
                guilds: 0,
            }),
    {
        BotStats::new(now_millis(), String::new())
    }
}

} // verus!
