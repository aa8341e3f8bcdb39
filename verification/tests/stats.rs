use gearbot::events::{Author, CurrentUser, Message};
use gearbot::stats::BotStats;

fn bot() -> CurrentUser {
    CurrentUser { id: 99, name: String::from("gearbot"), discriminator: String::from("0001") }
}

fn message(author: u64, is_bot: bool) -> Message {
    Message {
        id: 1,
        channel_id: 2,
        guild_id: Some(3),
        author: Author { id: author, name: String::from("x"), bot: is_bot },
        content: String::from("hi"),
        kind: 0,
        pinned: false,
    }
}

fn zero() -> BotStats {
    BotStats::new(17, String::from("v2"))
}

#[test]
fn new_counters_are_at_zero() {
    assert_eq!(
        zero(),
        BotStats {
            start_time: 17,
            user_messages: 0,
            bot_messages: 0,
            my_messages: 0,
            error_count: 0,
            commands_ran: 0,
            custom_commands_ran: 0,
            guilds: 0,
            version: String::from("v2"),
        }
    );
}

#[test]
fn default_counters_are_at_zero_and_name_no_version() {
    let stats = BotStats::default();
    assert_eq!(stats, BotStats { start_time: stats.start_time, ..BotStats::new(0, String::new()) });
    assert!(stats.start_time > 1_500_000_000_000);
}

#[test]
fn a_users_message_is_counted_as_such() {
    let mut stats = zero();
    stats.new_message(&bot(), &message(5, false));
    stats.new_message(&bot(), &message(99, false));
    assert_eq!(stats, BotStats { user_messages: 2, ..zero() });
}

#[test]
fn a_bots_message_is_counted_and_the_own_ones_twice() {
    let mut stats = zero();
    stats.new_message(&bot(), &message(5, true));
    assert_eq!(stats, BotStats { bot_messages: 1, ..zero() });
    stats.new_message(&bot(), &message(99, true));
    assert_eq!(stats, BotStats { bot_messages: 2, my_messages: 1, ..zero() });
}

#[test]
fn errors_and_guilds_are_counted() {
    let mut stats = zero();
    stats.had_error();
    stats.had_error();
    stats.new_guild();
    stats.new_guild();
    stats.new_guild();
    stats.left_guild();
    assert_eq!(stats, BotStats { error_count: 2, guilds: 2, ..zero() });
}

#[test]
fn commands_are_counted_by_their_kind() {
    let mut stats = zero();
    stats.command_used(false);
    stats.command_used(true);
    stats.command_used(true);
    assert_eq!(stats, BotStats { commands_ran: 1, custom_commands_ran: 2, ..zero() });
}

#[test]
fn the_counters_wrap_round() {
    let mut stats = BotStats { error_count: usize::MAX, ..zero() };
    stats.had_error();
    assert_eq!(stats.error_count, 0);
    stats.left_guild();
    assert_eq!(stats.guilds, usize::MAX);
    stats.new_guild();
    assert_eq!(stats.guilds, 0);
}
