//! Client data, connection state and capability logic.

use std::sync::Arc;

use tokio::sync::mpsc::UnboundedSender;
use vstd::prelude::*;
use vstd::string::StringExecFns;
use vstd::utf8::encode_utf8;

pub mod cap;

use crate::message::Command;
use crate::modes::UserModeChange;
use crate::text::{chars_of, split_whitespace, str_eq, vec_eq, words};

verus! {

/// A message on its way to a client.  The text is shared: a message that
/// goes to many clients is built once.
#[derive(Debug)]
pub struct MessageQueueItem(Arc<str>);

impl Clone for MessageQueueItem {
    /// Another handle to the same text.
    fn clone(&self) -> (item: MessageQueueItem)
        ensures
            item@ == self@,
    {
        MessageQueueItem(self.0.clone())
    }
}

impl View for MessageQueueItem {
    type V = Seq<char>;

    /// The text of the message.
    closed spec fn view(&self) -> Seq<char> {
        (*self.0)@
    }
}

/// std's conversion of a `String` into an `Arc<str>`, which copies the text
/// into a shared allocation: the shared text holds the characters of the
/// string.
#[verifier::external_body]
fn shared_text(text: String) -> (shared: Arc<str>)
    ensures
        (*shared)@ == text@,
{
    Arc::from(text)
}

impl From<String> for MessageQueueItem {
    /// The message with the text `text`.
    fn from(text: String) -> (item: MessageQueueItem)
        ensures
            item@ == text@,
    {
        MessageQueueItem(shared_text(text))
    }
}

/// Two messages with the same text are not the same value, so no spec
/// function gives the message of a text: what `from` returns is stated by
/// its own `ensures`.
impl vstd::std_specs::convert::FromSpecImpl<String> for MessageQueueItem {
    open spec fn obeys_from_spec() -> bool {
        false
    }

    open spec fn from_spec(text: String) -> MessageQueueItem {
        arbitrary()
    }
}

impl AsRef<str> for MessageQueueItem {
    /// The text of the message.
    fn as_ref(&self) -> (text: &str)
        ensures
            str::view(text) == self@,
    {
        self.as_str()
    }
}

impl AsRef<[u8]> for MessageQueueItem {
    /// The text of the message as the bytes of its UTF-8 encoding.
    fn as_ref(&self) -> (bytes: &[u8])
        ensures
            <[u8]>::view(bytes) == encode_utf8(self@),
    {
        self.as_str().as_bytes()
    }
}

impl MessageQueueItem {
    /// The text of the message.
    pub fn as_str(&self) -> (text: &str)
        ensures
            text@ == self@,
    {
        &*self.0
    }
}

/// tokio's sending half of an unbounded channel.
#[verifier::external_type_specification]
#[verifier::external_body]
#[verifier::reject_recursive_types(T)]
pub struct ExUnboundedSender<T>(UnboundedSender<T>);

/// The queue of the messages that are to be sent to a client.
pub type MessageQueue = UnboundedSender<MessageQueueItem>;

/// tokio's `UnboundedSender::send`, with its result dropped: the message is
/// queued unless the receiving half is gone, and the call returns at once
/// either way.
#[verifier::external_body]
fn enqueue(queue: &MessageQueue, item: MessageQueueItem) {
    let _ = queue.send(item);
}

/// A state machine that represents the connection with a client.  It keeps
/// track of what message the client can send.
///
/// For example, a client that has only sent a "NICK" message cannot send a
/// "JOIN" message.
#[derive(Clone, Copy, Debug, PartialEq, Eq, Structural)]
pub enum ConnectionState {
    ConnectionEstablished,
    NickGiven,
    UserGiven,
    CapGiven,
    CapNickGiven,
    CapUserGiven,
    CapNegotiation,
    Registered,
    Quit,
}

impl Default for ConnectionState {
    fn default() -> (state: ConnectionState)
        ensures
            state == ConnectionState::ConnectionEstablished,
    {
        ConnectionState::ConnectionEstablished
    }
}

/// How far a registration has come: whether NICK and USER have been
/// received, and whether a capability negotiation is open.
pub struct Progress {
    pub nick: bool,
    pub user: bool,
    pub cap: bool,
}

impl Progress {
    /// The state that stands for this progress.  With NICK and USER
    /// received and no negotiation open, the client is registered.
    pub open spec fn state(self) -> ConnectionState {
        if self.cap {
            if self.nick && self.user {
                ConnectionState::CapNegotiation
            } else if self.nick {
                ConnectionState::CapNickGiven
            } else if self.user {
                ConnectionState::CapUserGiven
            } else {
                ConnectionState::CapGiven
            }
        } else {
            if self.nick && self.user {
                ConnectionState::Registered
            } else if self.nick {
                ConnectionState::NickGiven
            } else if self.user {
                ConnectionState::UserGiven
            } else {
                ConnectionState::ConnectionEstablished
            }
        }
    }
}

impl ConnectionState {
    /// The progress of a registration that is under way in this state.
    pub open spec fn progress(self) -> Progress {
        match self {
            ConnectionState::ConnectionEstablished => Progress { nick: false, user: false, cap: false },
            ConnectionState::NickGiven => Progress { nick: true, user: false, cap: false },
            ConnectionState::UserGiven => Progress { nick: false, user: true, cap: false },
            ConnectionState::CapGiven => Progress { nick: false, user: false, cap: true },
            ConnectionState::CapNickGiven => Progress { nick: true, user: false, cap: true },
            ConnectionState::CapUserGiven => Progress { nick: false, user: true, cap: true },
            ConnectionState::CapNegotiation => Progress { nick: true, user: true, cap: true },
            ConnectionState::Registered => Progress { nick: true, user: true, cap: false },
            ConnectionState::Quit => Progress { nick: false, user: false, cap: false },
        }
    }

    /// The state that follows this one when the client sends `command`, or
    /// an error where the client may not send it.  `sub` is the first
    /// parameter of the message, which matters for CAP alone.
    ///
    /// A client that has quit may send nothing more, and QUIT is accepted
    /// everywhere else.  A registered client may send anything but PASS and
    /// USER.  Before that, only the commands of the registration are
    /// accepted: NICK and USER record that they were received (USER only
    /// once), `CAP LS` and `CAP REQ` open a negotiation, `CAP END` closes
    /// it, and PASS and any other CAP change nothing.
    pub open spec fn next(self, command: Command, sub: Seq<char>) -> Result<ConnectionState, ()> {
        let progress = self.progress();
        if self == ConnectionState::Quit {
            Err(())
        } else if command == Command::Quit {
            Ok(ConnectionState::Quit)
        } else if self == ConnectionState::Registered {
            if command == Command::Pass || command == Command::User {
                Err(())
            } else {
                Ok(self)
            }
        } else {
            match command {
                Command::Cap => if sub == "END"@ {
                    Ok(Progress { cap: false, ..progress }.state())
                } else if sub == "LS"@ || sub == "REQ"@ {
                    Ok(Progress { cap: true, ..progress }.state())
                } else {
                    Ok(self)
                },
                Command::Pass => Ok(self),
                Command::Nick => Ok(Progress { nick: true, ..progress }.state()),
                Command::User => if progress.user {
                    Err(())
                } else {
                    Ok(Progress { user: true, ..progress }.state())
                },
                _ => Err(()),
            }
        }
    }

    /// The state that follows this one when the client sends `command`
    /// with the first parameter `sub_command`, or an error where the client
    /// may not send it.
    pub fn apply(self, command: Command, sub_command: &str) -> (result: Result<ConnectionState, ()>)
        ensures
            result == self.next(command, sub_command@),
    {
        let end = str_eq(sub_command, "END");
        let open = str_eq(sub_command, "LS") || str_eq(sub_command, "REQ");
        proof {
            reveal_strlit("END");
            reveal_strlit("LS");
            reveal_strlit("REQ");
        }
        match self {
            ConnectionState::ConnectionEstablished => match command {
                Command::Cap => if end {
                    Ok(self)
                } else if open {
                    Ok(ConnectionState::CapGiven)
                } else {
                    Ok(self)
                },
                Command::Pass => Ok(self),
                Command::Nick => Ok(ConnectionState::NickGiven),
                Command::User => Ok(ConnectionState::UserGiven),
                Command::Quit => Ok(ConnectionState::Quit),
                _ => Err(()),
            },
            ConnectionState::NickGiven => match command {
                Command::Cap => if end {
                    Ok(self)
                } else if open {
                    Ok(ConnectionState::CapNickGiven)
                } else {
                    Ok(self)
                },
                Command::Nick | Command::Pass => Ok(self),
                Command::User => Ok(ConnectionState::Registered),
                Command::Quit => Ok(ConnectionState::Quit),
                _ => Err(()),
            },
            ConnectionState::UserGiven => match command {
                Command::Cap => if end {
                    Ok(self)
                } else if open {
                    Ok(ConnectionState::CapUserGiven)
                } else {
                    Ok(self)
                },
                Command::Pass => Ok(self),
                Command::Nick => Ok(ConnectionState::Registered),
                Command::Quit => Ok(ConnectionState::Quit),
                _ => Err(()),
            },
            ConnectionState::CapGiven => match command {
                Command::Cap => if end {
                    Ok(ConnectionState::ConnectionEstablished)
                } else {
                    Ok(self)
                },
                Command::Pass => Ok(self),
                Command::Nick => Ok(ConnectionState::CapNickGiven),
                Command::User => Ok(ConnectionState::CapUserGiven),
                Command::Quit => Ok(ConnectionState::Quit),
                _ => Err(()),
            },
            ConnectionState::CapNickGiven => match command {
                Command::Cap => if end {
                    Ok(ConnectionState::NickGiven)
                } else {
                    Ok(self)
                },
                Command::Pass | Command::Nick => Ok(self),
                Command::User => Ok(ConnectionState::CapNegotiation),
                Command::Quit => Ok(ConnectionState::Quit),
                _ => Err(()),
            },
            ConnectionState::CapUserGiven => match command {
                Command::Cap => if end {
                    Ok(ConnectionState::UserGiven)
                } else {
                    Ok(self)
                },
                Command::Pass => Ok(self),
                Command::Nick => Ok(ConnectionState::CapNegotiation),
                Command::Quit => Ok(ConnectionState::Quit),
                _ => Err(()),
            },
            ConnectionState::CapNegotiation => match command {
                Command::Cap => if end {
                    Ok(ConnectionState::Registered)
                } else {
                    Ok(self)
                },
                Command::Pass | Command::Nick => Ok(self),
                Command::Quit => Ok(ConnectionState::Quit),
                _ => Err(()),
            },
            ConnectionState::Registered => match command {
                Command::Pass | Command::User => Err(()),
                Command::Quit => Ok(ConnectionState::Quit),
                _ => Ok(self),
            },
            ConnectionState::Quit => Err(()),
        }
    }

    /// Whether the client has completed its registration.
    pub fn is_registered(self) -> (registered: bool)
        ensures
            registered == (self == ConnectionState::Registered),
    {
        self == ConnectionState::Registered
    }
}

/// What a word of a capability list asks for: the name of a capability,
/// and whether to enable it or, where a `-` stands before the name, to
/// disable it.
pub open spec fn cap_token(word: Seq<char>) -> (Seq<char>, bool) {
    if word.len() > 0 && word[0] == '-' {
        (word.drop_first(), false)
    } else {
        (word, true)
    }
}

/// What a capability list asks for, word by word.
pub open spec fn cap_tokens(list: Seq<char>) -> Seq<(Seq<char>, bool)> {
    Seq::new(words(list).len(), |i: int| cap_token(words(list)[i]))
}

/// Reads a capability list: the name of each capability in it, and
/// whether the list enables or disables it.
pub fn cap_query(buf: &str) -> (tokens: Vec<(Vec<char>, bool)>)
    ensures
        tokens.len() == cap_tokens(buf@).len(),
        forall|i: int|
            0 <= i < tokens.len() ==> (#[trigger] tokens[i]).0@ == cap_tokens(buf@)[i].0
                && tokens[i].1 == cap_tokens(buf@)[i].1,
{
    let list = split_whitespace(buf);
    let mut tokens: Vec<(Vec<char>, bool)> = Vec::new();
    let mut i: usize = 0;
    while i < list.len()
        invariant
            i <= list.len(),
            crate::text::word_views(list@) == words(buf@),
            tokens.len() == i,
            forall|j: int|
                0 <= j < i ==> (#[trigger] tokens[j]).0@ == cap_tokens(buf@)[j].0 && tokens[j].1
                    == cap_tokens(buf@)[j].1,
        decreases list.len() - i,
    {
        let word = &list[i];
        assert(crate::text::word_views(list@)[i as int] == word@);
        let enable = !(word.len() > 0 && word[0] == '-');
        let mut name: Vec<char> = Vec::new();
        let mut k: usize = if enable {
            0
        } else {
            1
        };
        let start = k;
        while k < word.len()
            invariant
                start <= k <= word.len(),
                name@ == word@.subrange(start as int, k as int),
            decreases word.len() - k,
        {
            name.push(word[k]);
            assert(word@.subrange(start as int, k + 1) =~= word@.subrange(start as int, k as int).push(
                word@[k as int],
            ));
            k += 1;
        }
        assert(name@ =~= cap_token(word@).0);
        tokens.push((name, enable));
        i += 1;
    }
    tokens
}

/// A client can issue a command exactly where applying the command to the
/// state of its connection gives no error, and issuing it then brings the
/// connection to the state that applying gives, and changes nothing else
/// of the client.
pub proof fn lemma_can_issue_agrees_with_apply(
    client: ClientView,
    command: Command,
    sub: Seq<char>,
)
    ensures
        client.can_issue(command, sub) <==> !(client.state.next(command, sub) is Err),
        client.can_issue(command, sub) ==> client.state.next(command, sub) == Ok::<
            ConnectionState,
            (),
        >(client.issued(command, sub).state),
        client.can_issue(command, sub) ==> client.issued(command, sub) == (ClientView {
            state: client.issued(command, sub).state,
            ..client
        }),
        client.state == ConnectionState::Quit ==> !client.can_issue(command, sub),
{
}

/// A capability negotiation that is opened and then closed, with neither
/// NICK nor USER in between, leaves a registration where it was.
pub proof fn lemma_negotiation_opened_and_closed(state: ConnectionState, request: Seq<char>)
    requires
        state == ConnectionState::ConnectionEstablished || state == ConnectionState::NickGiven
            || state == ConnectionState::UserGiven,
        request == "LS"@ || request == "REQ"@,
    ensures
        match state.next(Command::Cap, request) {
            Ok(open) => open.progress().cap && open.next(Command::Cap, "END"@) == Ok::<
                ConnectionState,
                (),
            >(state),
            Err(_) => false,
        },
{
    reveal_strlit("LS");
    reveal_strlit("REQ");
    reveal_strlit("END");
    assert("LS"@.len() == 2 && "END"@.len() == 3);
    assert("REQ"@[0] == 'R' && "END"@[0] == 'E');
}

/// The capabilities that a client has negotiated.
#[derive(Clone, Copy, Debug, PartialEq, Eq)]
pub struct Capabilities {
    pub v302: bool,
    pub cap_notify: bool,
    pub echo_message: bool,
    pub message_tags: bool,
}

impl Default for Capabilities {
    fn default() -> (capabilities: Capabilities)
        ensures
            capabilities == Capabilities::none(),
    {
        Capabilities { v302: false, cap_notify: false, echo_message: false, message_tags: false }
    }
}

/// The words `words` with a space between each two of them.
pub open spec fn join_words(words: Seq<Seq<char>>) -> Seq<char>
    decreases words.len(),
{
    if words.len() == 0 {
        Seq::empty()
    } else if words.len() == 1 {
        words[0]
    } else {
        join_words(words.drop_last()) + seq![' '] + words.last()
    }
}

impl Capabilities {
    /// No capability at all.
    pub open spec fn none() -> Capabilities {
        Capabilities { v302: false, cap_notify: false, echo_message: false, message_tags: false }
    }

    /// The capabilities after the one called `name` has been enabled or
    /// disabled.  A name that is not known changes nothing.
    pub open spec fn with(self, name: Seq<char>, enable: bool) -> Capabilities {
        if name == cap::CAP_NOTIFY@ {
            Capabilities { cap_notify: enable, ..self }
        } else if name == cap::ECHO_MESSAGE@ {
            Capabilities { echo_message: enable, ..self }
        } else if name == cap::MESSAGE_TAGS@ {
            Capabilities { message_tags: enable, ..self }
        } else {
            self
        }
    }

    /// The capabilities after each of `tokens`, in order, has enabled or
    /// disabled the capability it names.
    pub open spec fn with_all(self, tokens: Seq<(Seq<char>, bool)>) -> Capabilities
        decreases tokens.len(),
    {
        if tokens.len() == 0 {
            self
        } else {
            self.with_all(tokens.drop_last()).with(tokens.last().0, tokens.last().1)
        }
    }

    /// The names of the capabilities that are enabled, in the order in
    /// which the server lists what it offers.
    pub open spec fn enabled(self) -> Seq<Seq<char>> {
        (if self.cap_notify {
            seq![cap::CAP_NOTIFY@]
        } else {
            Seq::empty()
        }) + (if self.echo_message {
            seq![cap::ECHO_MESSAGE@]
        } else {
            Seq::empty()
        }) + (if self.message_tags {
            seq![cap::MESSAGE_TAGS@]
        } else {
            Seq::empty()
        })
    }
}

/// Client data.
pub struct Client {
    /// The queue of messages to be sent to the client.  Sending to it does
    /// not block.
    queue: MessageQueue,
    pub capabilities: Capabilities,
    state: ConnectionState,
    nick: String,
    user: String,
    real: String,
    host: String,
    /// The nick!user@host
    full_name: String,
    /// The time when the user has signed in
    signon_time: u64,
    /// The time of the last action
    last_action_time: u64,
    /// Whether the client has issued a PASS command with the right password.
    pub has_given_password: bool,
    pub away: bool,
    pub invisible: bool,
    pub registered: bool,
    pub operator: bool,
}

/// What a client holds, with each string as its characters.
pub struct ClientView {
    pub queue: MessageQueue,
    pub capabilities: Capabilities,
    pub state: ConnectionState,
    pub nick: Seq<char>,
    pub user: Seq<char>,
    pub real: Seq<char>,
    pub host: Seq<char>,
    pub full_name: Seq<char>,
    pub signon_time: u64,
    pub last_action_time: u64,
    pub has_given_password: bool,
    pub away: bool,
    pub invisible: bool,
    pub registered: bool,
    pub operator: bool,
}

impl ClientView {
    /// The name by which others see a client: `nick!user@host`.
    pub open spec fn name_of(nick: Seq<char>, user: Seq<char>, host: Seq<char>) -> Seq<char> {
        nick + seq!['!'] + user + seq!['@'] + host
    }

    /// Whether the client may send `command` with the first parameter
    /// `sub`: the state of its connection has a state that follows.
    pub open spec fn can_issue(self, command: Command, sub: Seq<char>) -> bool {
        self.state.next(command, sub) is Ok
    }

    /// The client after it has sent `command` with the first parameter
    /// `sub`, which it may send.
    pub open spec fn issued(self, command: Command, sub: Seq<char>) -> ClientView
        recommends
            self.can_issue(command, sub),
    {
        ClientView { state: self.state.next(command, sub)->Ok_0, ..self }
    }

    /// The summary of the user modes: `+`, then `a` if the client is away,
    /// `i` if it is invisible and `o` if it is an operator.
    pub open spec fn mode_summary(self) -> Seq<char> {
        seq!['+'] + (if self.away {
            seq!['a']
        } else {
            Seq::empty()
        }) + (if self.invisible {
            seq!['i']
        } else {
            Seq::empty()
        }) + (if self.operator {
            seq!['o']
        } else {
            Seq::empty()
        })
    }
}

impl View for Client {
    type V = ClientView;

    closed spec fn view(&self) -> ClientView {
        ClientView {
            queue: self.queue,
            capabilities: self.capabilities,
            state: self.state,
            nick: self.nick@,
            user: self.user@,
            real: self.real@,
            host: self.host@,
            full_name: self.full_name@,
            signon_time: self.signon_time,
            last_action_time: self.last_action_time,
            has_given_password: self.has_given_password,
            away: self.away,
            invisible: self.invisible,
            registered: self.registered,
            operator: self.operator,
        }
    }
}

impl Client {
    /// Initializes the data of a client that has connected from `host` at
    /// the time `now`, given its message queue.
    ///
    /// The nickname is set to "*".  The username and the realname are
    /// empty.
    pub fn new(queue: MessageQueue, host: String, now: u64) -> (client: Client)
        ensures
            client@ == (ClientView {
                queue,
                capabilities: Capabilities::none(),
                state: ConnectionState::ConnectionEstablished,
                nick: seq!['*'],
                user: Seq::empty(),
                real: Seq::empty(),
                host: host@,
                full_name: ClientView::name_of(seq!['*'], Seq::empty(), host@),
                signon_time: now,
                last_action_time: now,
                has_given_password: false,
                away: false,
                invisible: false,
                registered: false,
                operator: false,
            }),
    {
        proof {
            reveal_strlit("*");
            reveal_strlit("*!@");
        }
        let mut full_name = String::from_str("*!@");
        full_name.append(host.as_str());
        let nick = String::from_str("*");
        assert(nick@ =~= seq!['*']);
        assert(full_name@ =~= ClientView::name_of(seq!['*'], Seq::empty(), host@));
        Client {
            queue,
            nick,
            host,
            full_name,
            capabilities: Capabilities::default(),
            state: ConnectionState::default(),
            user: String::new(),
            real: String::new(),
            signon_time: now,
            last_action_time: now,
            has_given_password: false,
            away: false,
            invisible: false,
            registered: false,
            operator: false,
        }
    }

    /// The state of the connection.
    pub fn state(&self) -> (state: ConnectionState)
        ensures
            state == self@.state,
    {
        self.state
    }

    /// Enables and disables the capabilities that the list `capabilities`
    /// names, one after the other.  Names that are not known are passed
    /// over.
    pub fn update_capabilities(&mut self, capabilities: &str)
        ensures
            final(self)@ == (ClientView {
                capabilities: old(self)@.capabilities.with_all(cap_tokens(capabilities@)),
                ..old(self)@
            }),
    {
        let tokens = cap_query(capabilities);
        let cap_notify = chars_of(cap::CAP_NOTIFY);
        let echo_message = chars_of(cap::ECHO_MESSAGE);
        let message_tags = chars_of(cap::MESSAGE_TAGS);
        let ghost all = cap_tokens(capabilities@);
        let mut i: usize = 0;
        assert(all.take(0) =~= Seq::empty());
        while i < tokens.len()
            invariant
                i <= tokens.len(),
                tokens.len() == all.len(),
                forall|j: int|
                    0 <= j < tokens.len() ==> (#[trigger] tokens[j]).0@ == all[j].0 && tokens[j].1
                        == all[j].1,
                cap_notify@ == cap::CAP_NOTIFY@,
                echo_message@ == cap::ECHO_MESSAGE@,
                message_tags@ == cap::MESSAGE_TAGS@,
                self@ == (ClientView {
                    capabilities: old(self)@.capabilities.with_all(all.take(i as int)),
                    ..old(self)@
                }),
            decreases tokens.len() - i,
        {
            let name = &tokens[i].0;
            let enable = tokens[i].1;
            proof {
                assert(all.take(i + 1).drop_last() =~= all.take(i as int));
                assert(all.take(i + 1).last() == all[i as int]);
            }
            if vec_eq(name, &cap_notify) {
                self.capabilities.cap_notify = enable;
            } else if vec_eq(name, &echo_message) {
                self.capabilities.echo_message = enable;
            } else if vec_eq(name, &message_tags) {
                self.capabilities.message_tags = enable;
            }
            i += 1;
        }
        assert(all.take(all.len() as int) =~= all);
    }

    /// Records the version of the capability negotiation that the client
    /// asks for.  Version 302 brings `cap-notify` with it; any other
    /// version changes nothing.
    pub fn set_cap_version(&mut self, version: &str)
        ensures
            final(self)@ == if version@ == "302"@ {
                ClientView {
                    capabilities: Capabilities {
                        v302: true,
                        cap_notify: true,
                        ..old(self)@.capabilities
                    },
                    ..old(self)@
                }
            } else {
                old(self)@
            },
    {
        if str_eq(version, "302") {
            self.capabilities.v302 = true;
            self.capabilities.cap_notify = true;
        }
    }

    /// Appends to `trailing` the names of the capabilities that are
    /// enabled, with a space between each two of them.  This is the last
    /// parameter of a `CAP LIST` reply.
    pub fn write_enabled_capabilities(&self, trailing: &mut String)
        ensures
            final(trailing)@ == old(trailing)@ + join_words(self@.capabilities.enabled()),
    {
        let ghost start = trailing@;
        let ghost mut names: Seq<Seq<char>> = Seq::empty();
        let mut first = true;
        proof {
            reveal_strlit(" ");
            reveal_with_fuel(join_words, 4);
            assert(start + join_words(names) =~= start);
        }
        if self.capabilities.cap_notify {
            trailing.append(cap::CAP_NOTIFY);
            first = false;
            proof {
                names = names.push(cap::CAP_NOTIFY@);
            }
        }
        assert(trailing@ =~= start + join_words(names));
        if self.capabilities.echo_message {
            if !first {
                trailing.append(" ");
            }
            trailing.append(cap::ECHO_MESSAGE);
            first = false;
            proof {
                let before = names;
                names = names.push(cap::ECHO_MESSAGE@);
                assert(names.drop_last() =~= before);
                assert(" "@ =~= seq![' ']);
            }
        }
        assert(trailing@ =~= start + join_words(names));
        if self.capabilities.message_tags {
            if !first {
                trailing.append(" ");
            }
            trailing.append(cap::MESSAGE_TAGS);
            proof {
                let before = names;
                names = names.push(cap::MESSAGE_TAGS@);
                assert(names.drop_last() =~= before);
                assert(" "@ =~= seq![' ']);
            }
        }
        assert(trailing@ =~= start + join_words(names));
        assert(names =~= self@.capabilities.enabled());
    }

    /// Appends to `trailing` the capabilities that the server offers.  This
    /// is the last parameter of a `CAP LS` reply.
    pub fn write_capabilities(&self, trailing: &mut String)
        ensures
            final(trailing)@ == old(trailing)@ + cap::LS@,
    {
        trailing.append(cap::LS);
    }

    /// Changes the connection state of the client given the command it
    /// just sent, and returns the new state.
    ///
    /// The client must be allowed to send the command:
    /// `Client::can_issue_command` tells.
    pub fn apply_command(&mut self, command: Command, sub_command: &str) -> (state: ConnectionState)
        requires
            old(self)@.can_issue(command, sub_command@),
        ensures
            final(self)@ == old(self)@.issued(command, sub_command@),
            state == final(self)@.state,
    {
        self.state = self.state.apply(command, sub_command).unwrap();
        self.state
    }

    /// Whether or not the client can issue the given command.
    ///
    /// This function does not change the connection state.
    pub fn can_issue_command(&self, command: Command, sub_command: &str) -> (allowed: bool)
        ensures
            allowed == self@.can_issue(command, sub_command@),
    {
        self.state.apply(command, sub_command).is_ok()
    }

    /// Whether the client has completed its registration.
    pub fn is_registered(&self) -> (registered: bool)
        ensures
            registered == (self@.state == ConnectionState::Registered),
    {
        self.state == ConnectionState::Registered
    }

    /// Adds a message to the client's message queue.  The call does not
    /// block, and a message for a client that is gone is dropped.
    pub fn send<M>(&self, msg: M) where M: Into<MessageQueueItem> {
        enqueue(&self.queue, msg.into());
    }

    /// The name by which others see the client: `nick!user@host`.
    pub fn full_name(&self) -> (name: &str)
        ensures
            name@ == self@.full_name,
    {
        self.full_name.as_str()
    }

    fn update_full_name(&mut self)
        ensures
            final(self)@ == (ClientView {
                full_name: ClientView::name_of(old(self)@.nick, old(self)@.user, old(self)@.host),
                ..old(self)@
            }),
    {
        proof {
            reveal_strlit("!");
            reveal_strlit("@");
        }
        let mut name = String::new();
        name.append(self.nick.as_str());
        name.append("!");
        name.append(self.user.as_str());
        name.append("@");
        name.append(self.host.as_str());
        assert(name@ =~= ClientView::name_of(self@.nick, self@.user, self@.host));
        self.full_name = name;
    }

    /// The nickname of the client
    pub fn nick(&self) -> (nick: &str)
        ensures
            nick@ == self@.nick,
    {
        self.nick.as_str()
    }

    /// Changes the nickname of the client.
    ///
    /// This function does not change the connection state.
    pub fn set_nick(&mut self, nick: &str)
        ensures
            final(self)@ == (ClientView {
                nick: nick@,
                full_name: ClientView::name_of(nick@, old(self)@.user, old(self)@.host),
                ..old(self)@
            }),
    {
        self.nick = nick.to_owned();
        self.update_full_name();
    }

    /// The username of the client
    pub fn user(&self) -> (user: &str)
        ensures
            user@ == self@.user,
    {
        self.user.as_str()
    }

    /// The realname of the client
    pub fn realname(&self) -> (name: &str)
        ensures
            name@ == self@.real,
    {
        self.real.as_str()
    }

    /// The host of the client
    pub fn host(&self) -> (host: &str)
        ensures
            host@ == self@.host,
    {
        self.host.as_str()
    }

    /// Adds `user` to the username and `realname` to the realname of the
    /// client, which are empty until this is called for the first time.
    ///
    /// This function does not change the connection state.
    pub fn set_user_real(&mut self, user: &str, realname: &str)
        ensures
            final(self)@ == (ClientView {
                user: old(self)@.user + user@,
                real: old(self)@.real + realname@,
                full_name: ClientView::name_of(
                    old(self)@.nick,
                    old(self)@.user + user@,
                    old(self)@.host,
                ),
                ..old(self)@
            }),
    {
        self.user.append(user);
        self.real.append(realname);
        self.update_full_name();
    }

    /// The time at which the client has connected.
    pub fn signon_time(&self) -> (time: u64)
        ensures
            time == self@.signon_time,
    {
        self.signon_time
    }

    /// The time of the client's last action.
    pub fn last_action_time(&self) -> (time: u64)
        ensures
            time == self@.last_action_time,
    {
        self.last_action_time
    }

    /// For how long the client has done nothing at the time `now`, which
    /// is not before its last action.
    pub fn idle_time(&self, now: u64) -> (idle: u64)
        requires
            self@.last_action_time <= now,
        ensures
            idle == now - self@.last_action_time,
    {
        now - self.last_action_time
    }

    /// Records that the client has done something at the time `now`.
    pub fn update_idle_time(&mut self, now: u64)
        ensures
            final(self)@ == (ClientView { last_action_time: now, ..old(self)@ }),
    {
        self.last_action_time = now;
    }

    /// Appends the summary of the client's modes to `modes`.
    pub fn write_modes(&self, modes: &mut String)
        ensures
            final(modes)@ == old(modes)@ + self@.mode_summary(),
    {
        proof {
            reveal_strlit("+");
            reveal_strlit("a");
            reveal_strlit("i");
            reveal_strlit("o");
            assert("+"@ =~= seq!['+']);
            assert("a"@ =~= seq!['a']);
            assert("i"@ =~= seq!['i']);
            assert("o"@ =~= seq!['o']);
        }
        let ghost start = modes@;
        modes.append("+");
        if self.away {
            modes.append("a");
        }
        if self.invisible {
            modes.append("i");
        }
        if self.operator {
            modes.append("o");
        }
        assert(modes@ =~= start + self@.mode_summary());
    }

    /// Applies a change of a user mode.  Returns whether the mode has
    /// changed.
    pub fn apply_mode_change(&mut self, change: UserModeChange) -> (applied: bool)
        ensures
            applied == (old(self)@.invisible != change->Invisible_0),
            final(self)@ == (ClientView { invisible: change->Invisible_0, ..old(self)@ }),
    {
        let applied;
        match change {
            UserModeChange::Invisible(value) => {
                applied = self.invisible != value;
                self.invisible = value;
            },
        }
        applied
    }
}

} // verus!
