//! Immutable per-connection session configuration.

use vstd::prelude::*;

verus! {

/// The parameters of one session: where to connect, the chosen identity,
/// and the channels to join once registration succeeds (the first entry
/// is used for the automatic join).
#[derive(Debug)]
pub struct IrcConfig {
    pub server: String,
    pub port: u16,
    pub nick: String,
    pub username: String,
    pub realname: String,
    pub channels: Vec<String>,
}

/// The mathematical shape of a session configuration.
#[verifier::ext_equal]
pub struct ConfigModel {
    pub server: Seq<char>,
    pub port: u16,
    pub nick: Seq<char>,
    pub username: Seq<char>,
    pub realname: Seq<char>,
    pub channels: Seq<Seq<char>>,
}

impl View for IrcConfig {
    type V = ConfigModel;

    open spec fn view(&self) -> ConfigModel {
        ConfigModel {
            server: self.server@,
            port: self.port,
            nick: self.nick@,
            username: self.username@,
            realname: self.realname@,
            channels: self.channels.deep_view(),
        }
    }
}

impl Default for IrcConfig {
    /// The default session: local server, the standard plain-text port,
    /// a placeholder identity, and one channel joined on registration.
    fn default() -> (r: Self)
        ensures
            r@.server == "localhost"@,
            r@.port == 6667,
            r@.nick == "user"@,
            r@.username == "user"@,
            r@.realname == "user"@,
            r@.channels =~= seq!["#general"@],
    {
        let mut channels: Vec<String> = Vec::new();
        channels.push(String::from_str("#general"));
        proof {
            assert(channels.deep_view() =~= seq!["#general"@]);
        }
        IrcConfig {
            server: String::from_str("localhost"),
            port: 6667,
            nick: String::from_str("user"),
            username: String::from_str("user"),
            realname: String::from_str("user"),
            channels,
        }
    }
}

/// The two fixed registration lines the shell must send before reading
/// any input: nickname registration, then user registration built from
/// the username and the real name.
pub fn registration_commands(config: &IrcConfig) -> (r: (String, String))
    ensures
        r.0@ == "NICK "@ + config@.nick,
        r.1@ == "USER "@ + config@.username + " 0 * :"@ + config@.realname,
{
    let nick_cmd = String::from_str("NICK ").concat(config.nick.as_str());
    let user_cmd = String::from_str("USER ").concat(config.username.as_str()).concat(
        " 0 * :",
    ).concat(config.realname.as_str());
    proof {
        assert(user_cmd@ =~= "USER "@ + config@.username + " 0 * :"@ + config@.realname);
    }
    (nick_cmd, user_cmd)
}

} // verus!
