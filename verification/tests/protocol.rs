use irc_client::config::registration_commands;
use irc_client::config::IrcConfig;
use irc_client::dispatch::classify_numeric;
use irc_client::dispatch::dispatch;
use irc_client::dispatch::handle_stream_closed;
use irc_client::dispatch::Notification;
use irc_client::dispatch::SessionState;
use irc_client::message::IrcMessage;
use irc_client::text::nick_of;
use irc_client::text::tokenize;

fn owned(params: &[&str]) -> Vec<String> {
    params.iter().map(|p| p.to_string()).collect()
}

#[test]
fn ping_is_answered_with_pong() {
    let m = IrcMessage::parse("PING :irc.example.com").unwrap();
    let config = IrcConfig::default();
    let (out, state) = dispatch(&m, &config, SessionState::Registered);
    assert_eq!(out.command, Some("PONG irc.example.com".to_string()));
    assert!(out.notifications.is_empty());
    assert_eq!(state, SessionState::Registered);
}

#[test]
fn ping_without_parameter_is_ignored() {
    let m = IrcMessage::parse("PING").unwrap();
    let config = IrcConfig::default();
    let (out, state) = dispatch(&m, &config, SessionState::Connecting);
    assert!(out.command.is_none());
    assert!(out.notifications.is_empty());
    assert_eq!(state, SessionState::Connecting);
}

#[test]
fn privmsg_yields_chat_notification() {
    let m = IrcMessage::parse(":nick!user@host PRIVMSG #general :hello there").unwrap();
    let config = IrcConfig::default();
    let (out, state) = dispatch(&m, &config, SessionState::Registered);
    assert!(out.command.is_none());
    assert_eq!(out.notifications.len(), 1);
    match &out.notifications[0] {
        Notification::Chat { target, nick, text } => {
            assert_eq!(target, "#general");
            assert_eq!(nick, "nick");
            assert_eq!(text, "hello there");
        }
        other => panic!("unexpected notification: {:?}", other),
    }
    assert_eq!(state, SessionState::Registered);
}

#[test]
fn privmsg_without_origin_yields_nothing() {
    let m = IrcMessage::parse("PRIVMSG #general :hello").unwrap();
    let config = IrcConfig::default();
    let (out, _) = dispatch(&m, &config, SessionState::Registered);
    assert!(out.command.is_none());
    assert!(out.notifications.is_empty());
}

#[test]
fn welcome_registers_and_joins_first_channel() {
    let m = IrcMessage::parse(":server 001 mynick :Welcome").unwrap();
    let config = IrcConfig::default();
    assert_eq!(config.channels, vec!["#general".to_string()]);
    let (out, state) = dispatch(&m, &config, SessionState::Connecting);
    assert_eq!(out.command, Some("JOIN #general".to_string()));
    assert!(out.notifications.is_empty());
    assert_eq!(state, SessionState::Registered);
}

#[test]
fn welcome_without_channels_joins_nothing() {
    let m = IrcMessage::parse("001 mynick :Welcome").unwrap();
    let mut config = IrcConfig::default();
    config.channels = Vec::new();
    let (out, state) = dispatch(&m, &config, SessionState::Connecting);
    assert!(out.command.is_none());
    assert_eq!(state, SessionState::Registered);
}

#[test]
fn join_with_origin_notifies() {
    let m = IrcMessage::parse(":a!b@c JOIN #x").unwrap();
    let config = IrcConfig::default();
    let (out, _) = dispatch(&m, &config, SessionState::Registered);
    assert!(out.command.is_none());
    assert_eq!(out.notifications.len(), 1);
    match &out.notifications[0] {
        Notification::Joined { nick, channel } => {
            assert_eq!(nick, "a");
            assert_eq!(channel, "#x");
        }
        other => panic!("unexpected notification: {:?}", other),
    }
}

#[test]
fn join_without_origin_is_silent() {
    let m = IrcMessage::parse("JOIN #x").unwrap();
    let config = IrcConfig::default();
    let (out, _) = dispatch(&m, &config, SessionState::Registered);
    assert!(out.command.is_none());
    assert!(out.notifications.is_empty());
}

#[test]
fn part_with_origin_notifies() {
    let m = IrcMessage::parse(":a!b@c PART #x").unwrap();
    let config = IrcConfig::default();
    let (out, _) = dispatch(&m, &config, SessionState::Registered);
    assert!(out.command.is_none());
    assert_eq!(out.notifications.len(), 1);
    match &out.notifications[0] {
        Notification::Left { nick, channel } => {
            assert_eq!(nick, "a");
            assert_eq!(channel, "#x");
        }
        other => panic!("unexpected notification: {:?}", other),
    }
}

#[test]
fn names_list_with_enough_params() {
    let r = classify_numeric("353", &owned(&["me", "=", "#chan", "one two three"]));
    match r {
        Some(Notification::NamesList { channel, users }) => {
            assert_eq!(channel, "#chan");
            assert_eq!(users, "one two three");
        }
        other => panic!("unexpected: {:?}", other),
    }
}

#[test]
fn short_names_list_falls_through_to_suppression() {
    let r = classify_numeric("353", &owned(&["me", "hello"]));
    match r {
        Some(Notification::ServerNotice { text }) => assert_eq!(text, "hello"),
        other => panic!("unexpected: {:?}", other),
    }
    let r = classify_numeric("353", &owned(&["x"]));
    assert!(r.is_none());
    let r = classify_numeric("353", &owned(&[]));
    assert!(r.is_none());
}

#[test]
fn end_of_names() {
    let r = classify_numeric("366", &owned(&["me", "#chan", "End of /NAMES list"]));
    match r {
        Some(Notification::EndOfNames { channel }) => assert_eq!(channel, "#chan"),
        other => panic!("unexpected: {:?}", other),
    }
}

#[test]
fn short_end_of_names_is_silent() {
    assert!(classify_numeric("366", &owned(&["hello"])).is_none());
    assert!(classify_numeric("366", &owned(&["me"])).is_none());
    assert!(classify_numeric("366", &owned(&[])).is_none());
}

#[test]
fn motd_line_and_markers() {
    let r = classify_numeric("372", &owned(&["me", "- the message"]));
    match r {
        Some(Notification::MotdLine { text }) => assert_eq!(text, "- the message"),
        other => panic!("unexpected: {:?}", other),
    }
    assert!(classify_numeric("372", &owned(&[])).is_none());
    assert!(matches!(
        classify_numeric("375", &owned(&[])),
        Some(Notification::MotdStart)
    ));
    assert!(matches!(
        classify_numeric("376", &owned(&[])),
        Some(Notification::MotdEnd)
    ));
}

#[test]
fn other_numeric_shows_long_trailing_only() {
    let r = classify_numeric("401", &owned(&["me", "No such nick"]));
    match r {
        Some(Notification::ServerNotice { text }) => assert_eq!(text, "No such nick"),
        other => panic!("unexpected: {:?}", other),
    }
    assert!(classify_numeric("401", &owned(&["me", "x"])).is_none());
    assert!(classify_numeric("401", &owned(&[])).is_none());
}

#[test]
fn numeric_reply_dispatches_to_classification() {
    let m = IrcMessage::parse(":irc.net 372 me :- enjoy your stay").unwrap();
    let config = IrcConfig::default();
    let (out, state) = dispatch(&m, &config, SessionState::Registered);
    assert!(out.command.is_none());
    assert_eq!(out.notifications.len(), 1);
    match &out.notifications[0] {
        Notification::MotdLine { text } => assert_eq!(text, "- enjoy your stay"),
        other => panic!("unexpected notification: {:?}", other),
    }
    assert_eq!(state, SessionState::Registered);
}

#[test]
fn unknown_verb_is_reported_unhandled() {
    let m = IrcMessage::parse("WALLOPS :everyone").unwrap();
    let config = IrcConfig::default();
    let (out, _) = dispatch(&m, &config, SessionState::Registered);
    assert!(out.command.is_none());
    assert_eq!(out.notifications.len(), 1);
    match &out.notifications[0] {
        Notification::Unhandled { command } => assert_eq!(command, "WALLOPS"),
        other => panic!("unexpected notification: {:?}", other),
    }
}

#[test]
fn non_three_digit_number_is_not_numeric() {
    let m = IrcMessage::parse("12 :x").unwrap();
    let config = IrcConfig::default();
    let (out, _) = dispatch(&m, &config, SessionState::Registered);
    match &out.notifications[0] {
        Notification::Unhandled { command } => assert_eq!(command, "12"),
        other => panic!("unexpected notification: {:?}", other),
    }
}

#[test]
fn stream_closed_is_terminal_and_silent() {
    let (out, state) = handle_stream_closed(SessionState::Registered);
    assert!(out.command.is_none());
    assert!(out.notifications.is_empty());
    assert_eq!(state, SessionState::Closed);
}

#[test]
fn registration_lines_from_config() {
    let config = IrcConfig::default();
    let (nick_line, user_line) = registration_commands(&config);
    assert_eq!(nick_line, "NICK user");
    assert_eq!(user_line, "USER user 0 * :user");
}

#[test]
fn nick_extraction() {
    assert_eq!(nick_of("nick!user@host"), "nick");
    assert_eq!(nick_of("server.example.org"), "server.example.org");
    assert_eq!(nick_of("!user@host"), "");
}

#[test]
fn tokenize_splits_on_whitespace_runs() {
    let toks = tokenize("  a\tbb   ccc ");
    assert_eq!(toks, vec!["a".to_string(), "bb".to_string(), "ccc".to_string()]);
}
