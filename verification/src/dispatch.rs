//! The protocol dispatcher: decides, for one parsed message, what must
//! be sent back, what should be shown, and how the session state moves.

use vstd::prelude::*;

use crate::config::ConfigModel;
use crate::config::IrcConfig;
use crate::message::IrcMessage;
use crate::message::MessageModel;
use crate::text::nick_of;
use crate::text::spec_nick_of;
use crate::text::str_eq;

verus! {

/// The registration state of one session. Registration is entered on the
/// welcome numeric reply and never left; the closed state is terminal and
/// entered when the line source reports end-of-stream.
#[derive(Debug, Clone, Copy, PartialEq, Eq, Structural)]
pub enum SessionState {
    Connecting,
    Registered,
    Closed,
}

/// An observable event produced by dispatch, meant for display or
/// logging by the surrounding shell.
#[derive(Debug)]
pub enum Notification {
    /// A chat message: where it was said, who said it, and the text.
    Chat { target: String, nick: String, text: String },
    /// A user joined a channel.
    Joined { nick: String, channel: String },
    /// A user left a channel.
    Left { nick: String, channel: String },
    /// A membership listing: the channel and its raw space-separated
    /// user list.
    NamesList { channel: String, users: String },
    /// The end of a membership listing.
    EndOfNames { channel: String },
    /// One line of the message of the day.
    MotdLine { text: String },
    /// The message of the day begins.
    MotdStart,
    /// The message of the day ends.
    MotdEnd,
    /// A generic server notice: the trailing text of an unrecognized
    /// numeric reply.
    ServerNotice { text: String },
    /// A verb this client does not handle, carried verbatim.
    Unhandled { command: String },
}

/// The mathematical shape of a notification.
#[verifier::ext_equal]
pub enum NotificationModel {
    Chat { target: Seq<char>, nick: Seq<char>, text: Seq<char> },
    Joined { nick: Seq<char>, channel: Seq<char> },
    Left { nick: Seq<char>, channel: Seq<char> },
    NamesList { channel: Seq<char>, users: Seq<char> },
    EndOfNames { channel: Seq<char> },
    MotdLine { text: Seq<char> },
    MotdStart,
    MotdEnd,
    ServerNotice { text: Seq<char> },
    Unhandled { command: Seq<char> },
}

impl View for Notification {
    type V = NotificationModel;

    open spec fn view(&self) -> NotificationModel {
        match self {
            Notification::Chat { target, nick, text } => NotificationModel::Chat {
                target: target@,
                nick: nick@,
                text: text@,
            },
            Notification::Joined { nick, channel } => NotificationModel::Joined {
                nick: nick@,
                channel: channel@,
            },
            Notification::Left { nick, channel } => NotificationModel::Left {
                nick: nick@,
                channel: channel@,
            },
            Notification::NamesList { channel, users } => NotificationModel::NamesList {
                channel: channel@,
                users: users@,
            },
            Notification::EndOfNames { channel } => NotificationModel::EndOfNames {
                channel: channel@,
            },
            Notification::MotdLine { text } => NotificationModel::MotdLine { text: text@ },
            Notification::MotdStart => NotificationModel::MotdStart,
            Notification::MotdEnd => NotificationModel::MotdEnd,
            Notification::ServerNotice { text } => NotificationModel::ServerNotice { text: text@ },
            Notification::Unhandled { command } => NotificationModel::Unhandled {
                command: command@,
            },
        }
    }
}

impl DeepView for Notification {
    type V = NotificationModel;

    open spec fn deep_view(&self) -> NotificationModel {
        self.view()
    }
}

/// What one dispatched message produces: at most one line to send back,
/// and the notifications to show.
#[derive(Debug)]
pub struct DispatchOutcome {
    pub command: Option<String>,
    pub notifications: Vec<Notification>,
}

/// The mathematical shape of a dispatch outcome.
#[verifier::ext_equal]
pub struct DispatchOutcomeModel {
    pub command: Option<Seq<char>>,
    pub notifications: Seq<NotificationModel>,
}

impl View for DispatchOutcome {
    type V = DispatchOutcomeModel;

    open spec fn view(&self) -> DispatchOutcomeModel {
        DispatchOutcomeModel {
            command: match self.command {
                Some(c) => Some(c@),
                None => None,
            },
            notifications: self.notifications.deep_view(),
        }
    }
}

/// The message types the dispatcher distinguishes, as a tagged union so
/// that dispatch matches exhaustively instead of comparing strings in
/// every arm.
#[derive(Debug, Clone, Copy, PartialEq, Eq, Structural)]
pub enum CommandKind {
    Ping,
    Welcome,
    ChatMessage,
    Join,
    Part,
    Numeric,
    Other,
}

/// Whether `c` is an ASCII digit.
pub open spec fn spec_is_digit(c: char) -> bool {
    '0' <= c && c <= '9'
}

/// Whether `s` is a numeric reply code: exactly three ASCII digits.
pub open spec fn spec_is_numeric_code(s: Seq<char>) -> bool {
    s.len() == 3 && forall|j: int| 0 <= j < 3 ==> spec_is_digit(s[j])
}

/// The kind of a command token: the handled verbs and the welcome
/// numeric by exact match, then any other three-digit code, then
/// everything else.
pub open spec fn spec_classify_command(s: Seq<char>) -> CommandKind {
    if s == "PING"@ {
        CommandKind::Ping
    } else if s == "001"@ {
        CommandKind::Welcome
    } else if s == "PRIVMSG"@ {
        CommandKind::ChatMessage
    } else if s == "JOIN"@ {
        CommandKind::Join
    } else if s == "PART"@ {
        CommandKind::Part
    } else if spec_is_numeric_code(s) {
        CommandKind::Numeric
    } else {
        CommandKind::Other
    }
}

/// Classifies a command token.
pub fn classify_command(cmd: &str) -> (r: CommandKind)
    ensures
        r == spec_classify_command(cmd@),
{
    if str_eq(cmd, "PING") {
        CommandKind::Ping
    } else if str_eq(cmd, "001") {
        CommandKind::Welcome
    } else if str_eq(cmd, "PRIVMSG") {
        CommandKind::ChatMessage
    } else if str_eq(cmd, "JOIN") {
        CommandKind::Join
    } else if str_eq(cmd, "PART") {
        CommandKind::Part
    } else {
        let n = cmd.unicode_len();
        if n == 3 && is_digit(cmd.get_char(0)) && is_digit(cmd.get_char(1)) && is_digit(
            cmd.get_char(2),
        ) {
            proof {
                assert(forall|j: int| 0 <= j < 3 ==> spec_is_digit(cmd@[j]));
            }
            CommandKind::Numeric
        } else {
            CommandKind::Other
        }
    }
}

/// Executable ASCII-digit test.
pub fn is_digit(c: char) -> (r: bool)
    ensures
        r == spec_is_digit(c),
{
    '0' <= c && c <= '9'
}

/// The suppression rule for numeric replies with no specific handling:
/// the trailing text is shown as a server notice only when it is longer
/// than one character; shorter or absent payloads are dropped.
pub open spec fn spec_generic_notice(params: Seq<Seq<char>>) -> Option<NotificationModel> {
    if params.len() >= 1 && params.last().len() > 1 {
        Some(NotificationModel::ServerNotice { text: params.last() })
    } else {
        None
    }
}

/// What a numeric reply means: a membership listing, the end of one, a
/// line of the message of the day, its start and end markers, and the
/// generic suppression rule for everything else. A membership listing
/// that arrives with too few parameters falls through to the generic
/// rule; a short end-of-names reply yields nothing at all.
pub open spec fn spec_classify_numeric(code: Seq<char>, params: Seq<Seq<char>>) -> Option<
    NotificationModel,
> {
    if code == "353"@ && params.len() >= 4 {
        Some(NotificationModel::NamesList { channel: params[2], users: params[3] })
    } else if code == "366"@ {
        if params.len() >= 2 {
            Some(NotificationModel::EndOfNames { channel: params[1] })
        } else {
            None
        }
    } else if code == "372"@ {
        if params.len() >= 1 {
            Some(NotificationModel::MotdLine { text: params.last() })
        } else {
            None
        }
    } else if code == "375"@ {
        Some(NotificationModel::MotdStart)
    } else if code == "376"@ {
        Some(NotificationModel::MotdEnd)
    } else {
        spec_generic_notice(params)
    }
}

/// Classifies a numeric reply into at most one notification.
pub fn classify_numeric(code: &str, params: &Vec<String>) -> (r: Option<Notification>)
    ensures
        ({
            let sp = spec_classify_numeric(code@, params.deep_view());
            match r {
                Some(nt) => sp == Some(nt@),
                None => sp is None,
            }
        }),
{
    let len = params.len();
    proof {
        assert(params.deep_view().len() == params@.len());
    }
    if str_eq(code, "353") && len >= 4 {
        Some(
            Notification::NamesList { channel: params[2].clone(), users: params[3].clone() },
        )
    } else if str_eq(code, "366") {
        if len >= 2 {
            Some(Notification::EndOfNames { channel: params[1].clone() })
        } else {
            None
        }
    } else if str_eq(code, "372") {
        if len >= 1 {
            Some(Notification::MotdLine { text: params[len - 1].clone() })
        } else {
            None
        }
    } else if str_eq(code, "375") {
        Some(Notification::MotdStart)
    } else if str_eq(code, "376") {
        Some(Notification::MotdEnd)
    } else {
        if len >= 1 && params[len - 1].as_str().unicode_len() > 1 {
            Some(Notification::ServerNotice { text: params[len - 1].clone() })
        } else {
            None
        }
    }
}

/// An outcome that sends nothing and shows nothing.
pub open spec fn spec_empty_outcome() -> DispatchOutcomeModel {
    DispatchOutcomeModel { command: None, notifications: Seq::empty() }
}

/// What dispatching one message does, defined over the models: the line
/// to send back (echo for keepalive, the automatic join on welcome), the
/// notifications to show, and the next session state.
pub open spec fn spec_dispatch(m: MessageModel, cfg: ConfigModel, st: SessionState) -> (
    DispatchOutcomeModel,
    SessionState,
) {
    match spec_classify_command(m.command) {
        CommandKind::Ping => {
            if m.params.len() >= 1 {
                (
                    DispatchOutcomeModel {
                        command: Some("PONG "@ + m.params[0]),
                        notifications: Seq::empty(),
                    },
                    st,
                )
            } else {
                (spec_empty_outcome(), st)
            }
        },
        CommandKind::Welcome => {
            let cmd = if cfg.channels.len() >= 1 {
                Some("JOIN "@ + cfg.channels[0])
            } else {
                None
            };
            (
                DispatchOutcomeModel { command: cmd, notifications: Seq::empty() },
                SessionState::Registered,
            )
        },
        CommandKind::ChatMessage => {
            let notes = match m.prefix {
                Some(origin) => if m.params.len() >= 2 {
                    seq![
                        NotificationModel::Chat {
                            target: m.params[0],
                            nick: spec_nick_of(origin),
                            text: m.params[1],
                        },
                    ]
                } else {
                    Seq::empty()
                },
                None => Seq::empty(),
            };
            (DispatchOutcomeModel { command: None, notifications: notes }, st)
        },
        CommandKind::Join => {
            let notes = match m.prefix {
                Some(origin) => if m.params.len() >= 1 {
                    seq![
                        NotificationModel::Joined {
                            nick: spec_nick_of(origin),
                            channel: m.params[0],
                        },
                    ]
                } else {
                    Seq::empty()
                },
                None => Seq::empty(),
            };
            (DispatchOutcomeModel { command: None, notifications: notes }, st)
        },
        CommandKind::Part => {
            let notes = match m.prefix {
                Some(origin) => if m.params.len() >= 1 {
                    seq![
                        NotificationModel::Left { nick: spec_nick_of(origin), channel: m.params[0] },
                    ]
                } else {
                    Seq::empty()
                },
                None => Seq::empty(),
            };
            (DispatchOutcomeModel { command: None, notifications: notes }, st)
        },
        CommandKind::Numeric => {
            let notes = match spec_classify_numeric(m.command, m.params) {
                Some(n) => seq![n],
                None => Seq::empty(),
            };
            (DispatchOutcomeModel { command: None, notifications: notes }, st)
        },
        CommandKind::Other => {
            (
                DispatchOutcomeModel {
                    command: None,
                    notifications: seq![NotificationModel::Unhandled { command: m.command }],
                },
                st,
            )
        },
    }
}

/// Dispatches one parsed message: decides the reply, the notifications,
/// and the next session state.
pub fn dispatch(message: &IrcMessage, config: &IrcConfig, state: SessionState) -> (r: (
    DispatchOutcome,
    SessionState,
))
    ensures
        r.0@ == spec_dispatch(message@, config@, state).0,
        r.1 == spec_dispatch(message@, config@, state).1,
{
    let ghost sp = spec_dispatch(message@, config@, state);
    match classify_command(message.command.as_str()) {
        CommandKind::Ping => {
            if message.params.len() >= 1 {
                let reply = String::from_str("PONG ").concat(message.params[0].as_str());
                let out = DispatchOutcome { command: Some(reply), notifications: Vec::new() };
                proof {
                    assert(out@ =~~= sp.0);
                }
                (out, state)
            } else {
                let out = DispatchOutcome { command: None, notifications: Vec::new() };
                proof {
                    assert(out@ =~~= sp.0);
                }
                (out, state)
            }
        },
        CommandKind::Welcome => {
            let cmd: Option<String> = if config.channels.len() >= 1 {
                Some(String::from_str("JOIN ").concat(config.channels[0].as_str()))
            } else {
                None
            };
            let out = DispatchOutcome { command: cmd, notifications: Vec::new() };
            proof {
                assert(out@ =~~= sp.0);
            }
            (out, SessionState::Registered)
        },
        CommandKind::ChatMessage => {
            let mut notes: Vec<Notification> = Vec::new();
            if message.params.len() >= 2 {
                if let Some(origin) = &message.prefix {
                    notes.push(
                        Notification::Chat {
                            target: message.params[0].clone(),
                            nick: nick_of(origin.as_str()),
                            text: message.params[1].clone(),
                        },
                    );
                }
            }
            let out = DispatchOutcome { command: None, notifications: notes };
            proof {
                assert(out@ =~~= sp.0);
            }
            (out, state)
        },
        CommandKind::Join => {
            let mut notes: Vec<Notification> = Vec::new();
            if message.params.len() >= 1 {
                if let Some(origin) = &message.prefix {
                    notes.push(
                        Notification::Joined {
                            nick: nick_of(origin.as_str()),
                            channel: message.params[0].clone(),
                        },
                    );
                }
            }
            let out = DispatchOutcome { command: None, notifications: notes };
            proof {
                assert(out@ =~~= sp.0);
            }
            (out, state)
        },
        CommandKind::Part => {
            let mut notes: Vec<Notification> = Vec::new();
            if message.params.len() >= 1 {
                if let Some(origin) = &message.prefix {
                    notes.push(
                        Notification::Left {
                            nick: nick_of(origin.as_str()),
                            channel: message.params[0].clone(),
                        },
                    );
                }
            }
            let out = DispatchOutcome { command: None, notifications: notes };
            proof {
                assert(out@ =~~= sp.0);
            }
            (out, state)
        },
        CommandKind::Numeric => {
            let mut notes: Vec<Notification> = Vec::new();
            if let Some(n) = classify_numeric(message.command.as_str(), &message.params) {
                notes.push(n);
            }
            let out = DispatchOutcome { command: None, notifications: notes };
            proof {
                assert(out@ =~~= sp.0);
            }
            (out, state)
        },
        CommandKind::Other => {
            let mut notes: Vec<Notification> = Vec::new();
            notes.push(Notification::Unhandled { command: message.command.clone() });
            let out = DispatchOutcome { command: None, notifications: notes };
            proof {
                assert(out@ =~~= sp.0);
            }
            (out, state)
        },
    }
}

/// The session state only moves forward: dispatching a message either
/// keeps the state or enters the registered state on the welcome reply.
/// No message ever returns a session to the connecting state.
pub proof fn lemma_no_transition_back(m: MessageModel, cfg: ConfigModel, st: SessionState)
    ensures
        spec_dispatch(m, cfg, st).1 == st || spec_dispatch(m, cfg, st).1
            == SessionState::Registered,
{
}

/// A names-list reply that arrives with fewer than four parameters
/// yields no names-list notification: it falls through to the generic
/// suppression rule, which never indexes beyond the parameters it has.
pub proof fn lemma_short_names_list_suppressed(code: Seq<char>, params: Seq<Seq<char>>)
    requires
        code == "353"@,
        params.len() < 4,
    ensures
        spec_classify_numeric(code, params) == spec_generic_notice(params),
        !(spec_classify_numeric(code, params) matches Some(NotificationModel::NamesList {
            channel: _,
            users: _,
        })),
{
    reveal_strlit("353");
    reveal_strlit("366");
    reveal_strlit("372");
    reveal_strlit("375");
    reveal_strlit("376");
    assert("353"@[1] == '5' && "366"@[1] == '6' && "372"@[1] == '7' && "375"@[1] == '7'
        && "376"@[1] == '7');
    assert("353"@[2] == '3' && "372"@[2] == '2' && "375"@[2] == '5' && "376"@[2] == '6');
    assert(code != "366"@);
    assert(code != "372"@);
    assert(code != "375"@);
    assert(code != "376"@);
}

/// Tells the session that the line source reached end-of-stream: the
/// session becomes closed; nothing is sent and nothing is shown.
pub fn handle_stream_closed(state: SessionState) -> (r: (DispatchOutcome, SessionState))
    ensures
        r.0@ == spec_empty_outcome(),
        r.1 == SessionState::Closed,
{
    let out = DispatchOutcome { command: None, notifications: Vec::new() };
    proof {
        assert(out@ =~~= spec_empty_outcome());
    }
    (out, SessionState::Closed)
}

} // verus!
