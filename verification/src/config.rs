//! The configuration of the bot, and the emoji overrides that it names.

use crate::text::{parse_number, parsed_number};
use vstd::prelude::*;
use vstd::string::StrSliceExecFns;

verus! {

/// The tokens that the bot signs in with.
#[derive(Debug, PartialEq, Eq)]
pub struct Tokens {
    pub discord: String,
}

/// Where the bot's own log messages are sent.
#[derive(Debug, PartialEq, Eq)]
pub struct Logging {
    pub important_logs: String,
    pub info_logs: String,
}

/// Where the bot's stores are reached.
#[derive(Debug, PartialEq, Eq)]
pub struct Database {
    pub postgres: String,
    pub redis: String,
}

/// The configuration as the configuration file gives it. `emoji` names an
/// emoji in chat form for each emoji that the bot is to show differently.
#[derive(Debug, PartialEq, Eq)]
pub struct BotConfig {
    pub __main_encryption_key: Option<Vec<u8>>,
    pub tokens: Tokens,
    pub logging: Logging,
    pub database: Database,
    pub emoji: Vec<(String, String)>,
    pub global_admins: Vec<u64>,
}

/// An emoji that is shown in place of a built-in one.
#[derive(Debug, PartialEq, Eq)]
pub struct EmojiOverride {
    pub id: u64,
    pub for_chat: String,
}

/// Why a configuration is refused.
#[derive(Debug, PartialEq, Eq)]
pub enum ConfigError {
    /// The entry of `emoji` at this place does not name one emoji in chat form.
    InvalidEmoji { index: usize },
}

/// Where the name of an emoji in chat form begins: after `<:`, or after `<a:`
/// for an animated one. `None` where `text` begins with neither.
pub open spec fn name_start(text: Seq<char>) -> Option<int> {
    if text.len() >= 2 && text[0] == '<' && text[1] == ':' {
        Some(2)
    } else if text.len() >= 3 && text[0] == '<' && text[1] == 'a' && text[2] == ':' {
        Some(3)
    } else {
        None
    }
}

/// Whether the name of an emoji ends before `at`: `at` is the first place from
/// `from` on that holds a colon.
pub open spec fn name_ends_at(text: Seq<char>, from: int, at: int) -> bool {
    &&& from <= at < text.len()
    &&& text[at] == ':'
    &&& forall|i: int| from <= i < at ==> #[trigger] text[i] != ':'
}

/// The identifier of the emoji that `text` is in chat form: `<:name:id>` or
/// `<a:name:id>`, with a name of at least one character and without a colon,
/// and an identifier in decimal that fits in 64 bits. `None` for any other text.
pub open spec fn emoji_id(text: Seq<char>) -> Option<u64> {
    match name_start(text) {
        Some(from) => {
            if exists|at: int| name_ends_at(text, from, at) {
                let at = choose|at: int| name_ends_at(text, from, at);
                if at > from && text.len() > at + 1 && text.last() == '>' {
                    parsed_number(text.subrange(at + 1, text.len() - 1))
                } else {
                    None
                }
            } else {
                None
            }
        },
        None => None,
    }
}

/// The identifier of the emoji that `text` is in chat form; `None` where it
/// is not one emoji in chat form.
pub fn get_emoji_id(text: &str) -> (id: Option<u64>)
    ensures
        id == emoji_id(text@),
{
    let len = text.unicode_len();
    if len < 2 || text.get_char(0) != '<' {
        return None;
    }
    let from: usize = if text.get_char(1) == ':' {
        2
    } else if len >= 3 && text.get_char(1) == 'a' && text.get_char(2) == ':' {
        3
    } else {
        return None;
    };
    assert(name_start(text@) == Some(from as int));
    let mut at: usize = from;
    while at < len && text.get_char(at) != ':'
        invariant
            from <= at <= len,
            len == text@.len(),
            forall|i: int| from <= i < at ==> #[trigger] text@[i] != ':',
        decreases len - at,
    {
        at = at + 1;
    }
    if at == len {
        assert(forall|end: int| !name_ends_at(text@, from as int, end));
        return None;
    }
    proof {
        assert(name_ends_at(text@, from as int, at as int));
        let chosen = choose|end: int| name_ends_at(text@, from as int, end);
        assert(chosen == at) by {
            if chosen < at {
                assert(text@[chosen] != ':');
            }
            if at < chosen {
                assert(text@[at as int] != ':');
            }
        }
    }
    if at == from || len <= at + 1 || text.get_char(len - 1) != '>' {
        return None;
    }
    parse_number(text, at + 1, len - 1)
}

/// The override that entry `index` of `emoji` asks for, where the entry names
/// one emoji in chat form.
pub open spec fn override_at(emoji: Seq<(String, String)>, index: int) -> Option<(Seq<char>, u64, Seq<char>)> {
    match emoji_id(emoji[index].1@) {
        Some(id) => Some((emoji[index].0@, id, emoji[index].1@)),
        None => None,
    }
}

/// The first entry of `emoji` among the first `upto` that does not name one
/// emoji in chat form.
pub open spec fn first_invalid(emoji: Seq<(String, String)>, upto: int) -> Option<int>
    decreases upto,
{
    if upto <= 0 {
        None
    } else {
        match first_invalid(emoji, upto - 1) {
            Some(index) => Some(index),
            None => if emoji_id(emoji[upto - 1].1@) is None {
                Some(upto - 1)
            } else {
                None
            },
        }
    }
}

impl BotConfig {
    /// Checks a configuration that was read, and lists the emoji overrides it
    /// asks for, in the order of its entries.
    ///
    /// Every entry of `emoji` must name one emoji in chat form. The first one
    /// that does not is the error.
    pub fn new(config: BotConfig) -> (checked: Result<(BotConfig, Vec<(String, EmojiOverride)>), ConfigError>)
        ensures
            match checked {
                Ok((accepted, overrides)) => {
                    &&& first_invalid(config.emoji@, config.emoji@.len() as int) is None
                    &&& accepted == config
                    &&& overrides@.len() == config.emoji@.len()
                    &&& forall|i: int|
                        0 <= i < overrides@.len() ==> override_at(config.emoji@, i) == Some(
                            (
                                (#[trigger] overrides@[i]).0@,
                                overrides@[i].1.id,
                                overrides@[i].1.for_chat@,
                            ),
                        )
                },
                Err(ConfigError::InvalidEmoji { index }) => first_invalid(
                    config.emoji@,
                    config.emoji@.len() as int,
                ) == Some(index as int),
            },
    {
        let mut overrides: Vec<(String, EmojiOverride)> = Vec::new();
        let mut i: usize = 0;
        while i < config.emoji.len()
            invariant
                i <= config.emoji.len(),
                first_invalid(config.emoji@, i as int) is None,
                overrides@.len() == i,
                forall|j: int|
                    0 <= j < i ==> override_at(config.emoji@, j) == Some(
                        (
                            (#[trigger] overrides@[j]).0@,
                            overrides@[j].1.id,
                            overrides@[j].1.for_chat@,
                        ),
                    ),
            decreases config.emoji.len() - i,
        {
            let entry = &config.emoji[i];
            match get_emoji_id(entry.1.as_str()) {
                Some(id) => {
                    overrides.push((entry.0.clone(), EmojiOverride { id, for_chat: entry.1.clone() }));
                },
                None => {
                    proof {
                        lemma_first_invalid_stays(config.emoji@, i as int + 1, config.emoji@.len() as int);
                    }
                    return Err(ConfigError::InvalidEmoji { index: i });
                },
            }
            i = i + 1;
        }
        Ok((config, overrides))
    }
}

/// The first invalid entry among some entries is also the first among more.
pub proof fn lemma_first_invalid_stays(emoji: Seq<(String, String)>, found: int, upto: int)
    requires
        0 <= found <= upto,
        first_invalid(emoji, found) is Some,
    ensures
        first_invalid(emoji, upto) == first_invalid(emoji, found),
    decreases upto - found,
{
    if found < upto {
        lemma_first_invalid_stays(emoji, found, upto - 1);
    }
}

} // verus!
