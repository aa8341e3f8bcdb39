use gearbot::config::{get_emoji_id, BotConfig, ConfigError, Database, EmojiOverride, Logging, Tokens};

fn config(emoji: Vec<(&str, &str)>) -> BotConfig {
    BotConfig {
        __main_encryption_key: Some(vec![7; 32]),
        tokens: Tokens { discord: String::from("SECRET-REDACTED") },
        logging: Logging {
            important_logs: String::from("https://hooks.example/important"),
            info_logs: String::from("https://hooks.example/info"),
        },
        database: Database {
            postgres: String::from("postgres://localhost/gearbot"),
            redis: String::from("redis://localhost"),
        },
        emoji: emoji.into_iter().map(|(name, value)| (String::from(name), String::from(value))).collect(),
        global_admins: vec![1, 2, 3],
    }
}

#[test]
fn an_emoji_in_chat_form_names_its_identifier() {
    assert_eq!(get_emoji_id("<:yes:672162723578118144>"), Some(672162723578118144));
    assert_eq!(get_emoji_id("<a:loading:7>"), Some(7));
    assert_eq!(get_emoji_id("<:a:5>"), Some(5));
    assert_eq!(get_emoji_id("<:é_1:18446744073709551615>"), Some(u64::MAX));
}

#[test]
fn any_other_text_names_no_emoji() {
    for text in [
        "",
        "<",
        "<:",
        "<::5>",
        "<:yes:>",
        "<:yes:5",
        "<:yes5>",
        "yes:5>",
        "<b:yes:5>",
        "<:yes:5> ",
        " <:yes:5>",
        "<:yes:5x>",
        "<:yes:no:5>",
        "<:yes:18446744073709551616>",
        "<a:5>",
        "<a::5>",
        "<:yes:-5>",
    ] {
        assert_eq!(get_emoji_id(text), None, "{:?}", text);
    }
}

#[test]
fn a_configuration_with_valid_overrides_is_accepted() {
    let checked = BotConfig::new(config(vec![("yes", "<:yes:11>"), ("no", "<a:no:12>")]));
    assert_eq!(
        checked,
        Ok((
            config(vec![("yes", "<:yes:11>"), ("no", "<a:no:12>")]),
            vec![
                (String::from("yes"), EmojiOverride { id: 11, for_chat: String::from("<:yes:11>") }),
                (String::from("no"), EmojiOverride { id: 12, for_chat: String::from("<a:no:12>") }),
            ]
        ))
    );
}

#[test]
fn a_configuration_without_overrides_is_accepted() {
    assert_eq!(BotConfig::new(config(vec![])), Ok((config(vec![]), vec![])));
}

#[test]
fn the_first_invalid_override_is_the_error() {
    let checked =
        BotConfig::new(config(vec![("yes", "<:yes:11>"), ("no", "no"), ("maybe", "<:maybe>")]));
    assert_eq!(checked, Err(ConfigError::InvalidEmoji { index: 1 }));
    let checked = BotConfig::new(config(vec![("yes", "<:yes:11> <:no:12>")]));
    assert_eq!(checked, Err(ConfigError::InvalidEmoji { index: 0 }));
}
