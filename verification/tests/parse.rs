use irc_client::message::IrcMessage;
use irc_client::message::ParseFailure;

#[test]
fn ping_with_trailing() {
    let m = IrcMessage::parse("PING :irc.example.com").unwrap();
    assert!(m.prefix.is_none());
    assert_eq!(m.command, "PING");
    assert_eq!(m.params, vec!["irc.example.com".to_string()]);
}

#[test]
fn privmsg_with_origin_and_trailing() {
    let m = IrcMessage::parse(":nick!user@host PRIVMSG #general :hello there").unwrap();
    assert_eq!(m.prefix, Some("nick!user@host".to_string()));
    assert_eq!(m.command, "PRIVMSG");
    assert_eq!(m.params, vec!["#general".to_string(), "hello there".to_string()]);
}

#[test]
fn welcome_numeric() {
    let m = IrcMessage::parse(":server 001 mynick :Welcome").unwrap();
    assert_eq!(m.prefix, Some("server".to_string()));
    assert_eq!(m.command, "001");
    assert_eq!(m.params, vec!["mynick".to_string(), "Welcome".to_string()]);
}

#[test]
fn join_with_origin() {
    let m = IrcMessage::parse(":a!b@c JOIN #x").unwrap();
    assert_eq!(m.prefix, Some("a!b@c".to_string()));
    assert_eq!(m.command, "JOIN");
    assert_eq!(m.params, vec!["#x".to_string()]);
}

#[test]
fn join_without_origin() {
    let m = IrcMessage::parse("JOIN #x").unwrap();
    assert!(m.prefix.is_none());
    assert_eq!(m.command, "JOIN");
    assert_eq!(m.params, vec!["#x".to_string()]);
}

#[test]
fn empty_line_fails_empty() {
    assert_eq!(IrcMessage::parse("").unwrap_err(), ParseFailure::Empty);
}

#[test]
fn whitespace_only_line_fails_empty() {
    assert_eq!(IrcMessage::parse("   \t  ").unwrap_err(), ParseFailure::Empty);
}

#[test]
fn lone_prefix_fails_missing_command() {
    assert_eq!(
        IrcMessage::parse(":onlyprefix").unwrap_err(),
        ParseFailure::MissingCommand
    );
}

#[test]
fn command_alone_has_no_params() {
    let m = IrcMessage::parse("LIST").unwrap();
    assert!(m.prefix.is_none());
    assert_eq!(m.command, "LIST");
    assert!(m.params.is_empty());
}

#[test]
fn empty_trailing_is_one_empty_param() {
    let m = IrcMessage::parse("AWAY :").unwrap();
    assert_eq!(m.command, "AWAY");
    assert_eq!(m.params, vec![String::new()]);
}

#[test]
fn only_first_boundary_counts() {
    let m = IrcMessage::parse("NOTICE target :first :second").unwrap();
    assert_eq!(m.command, "NOTICE");
    assert_eq!(
        m.params,
        vec!["target".to_string(), "first :second".to_string()]
    );
}

#[test]
fn trailing_keeps_embedded_colons_and_spaces() {
    let m = IrcMessage::parse("PRIVMSG #c :a:b  c").unwrap();
    assert_eq!(m.params, vec!["#c".to_string(), "a:b  c".to_string()]);
}

#[test]
fn origin_nick_only() {
    let m = IrcMessage::parse(":soloNick PART #room").unwrap();
    assert_eq!(m.prefix, Some("soloNick".to_string()));
    assert_eq!(m.command, "PART");
    assert_eq!(m.params, vec!["#room".to_string()]);
}

#[test]
fn rejoin_reconstructs_normalized_line() {
    let m = IrcMessage::parse("  FOO   a   b  ").unwrap();
    assert!(m.prefix.is_none());
    let mut rejoined = m.command.clone();
    for p in &m.params {
        rejoined.push(' ');
        rejoined.push_str(p);
    }
    assert_eq!(rejoined, "FOO a b");
    let again = IrcMessage::parse(&rejoined).unwrap();
    assert_eq!(again.command, m.command);
    assert_eq!(again.params, m.params);
}

#[test]
fn middle_params_before_boundary() {
    let m = IrcMessage::parse(":irc.net 353 me = #chan :one two three").unwrap();
    assert_eq!(m.prefix, Some("irc.net".to_string()));
    assert_eq!(m.command, "353");
    assert_eq!(
        m.params,
        vec![
            "me".to_string(),
            "=".to_string(),
            "#chan".to_string(),
            "one two three".to_string()
        ]
    );
}
