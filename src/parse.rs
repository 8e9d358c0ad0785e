//! Classification of one protocol record into a client or federation command.
use vstd::prelude::*;
use crate::text::{has_char, split_at_first, split_once, contains_char, same_text};

verus! {

/// A request made by a local client.
pub enum ClientRequest {
    Register { username: String, password: String },
    Login { username: String, password: String },
    Join { channel: String },
    Create { channel: String },
    Say { channel: String, message: String },
    Channels,
}

/// The abstract content of a [`ClientRequest`].
pub enum ClientCommand {
    Register { username: Seq<char>, password: Seq<char> },
    Login { username: Seq<char>, password: Seq<char> },
    Join { channel: Seq<char> },
    Create { channel: Seq<char> },
    Say { channel: Seq<char>, message: Seq<char> },
    Channels,
}

impl View for ClientRequest {
    type V = ClientCommand;

    open spec fn view(&self) -> ClientCommand {
        match self {
            ClientRequest::Register { username, password } => ClientCommand::Register {
                username: username@,
                password: password@,
            },
            ClientRequest::Login { username, password } => ClientCommand::Login {
                username: username@,
                password: password@,
            },
            ClientRequest::Join { channel } => ClientCommand::Join { channel: channel@ },
            ClientRequest::Create { channel } => ClientCommand::Create { channel: channel@ },
            ClientRequest::Say { channel, message } => ClientCommand::Say {
                channel: channel@,
                message: message@,
            },
            ClientRequest::Channels => ClientCommand::Channels,
        }
    }
}

/// A `FEDRESULT` reply on a federation link; `status` is the reported `1` or `0`.
pub enum ServerResult {
    Join { user: String, channel: String, status: bool },
    Say { user: String, channel: String, status: bool, msg: String },
}

/// The abstract content of a [`ServerResult`].
pub enum PeerResult {
    Join { user: Seq<char>, channel: Seq<char>, status: bool },
    Say { user: Seq<char>, channel: Seq<char>, status: bool, msg: Seq<char> },
}

impl View for ServerResult {
    type V = PeerResult;

    open spec fn view(&self) -> PeerResult {
        match self {
            ServerResult::Join { user, channel, status } => PeerResult::Join {
                user: user@,
                channel: channel@,
                status: *status,
            },
            ServerResult::Say { user, channel, status, msg } => PeerResult::Say {
                user: user@,
                channel: channel@,
                status: *status,
                msg: msg@,
            },
        }
    }
}

/// A request received on a federation link.
pub enum ServerRequest {
    Out,
    Confirm,
    Channels { channels: String },
    New { channel: String },
    Join { user: String, channel: String },
    Say { user: String, channel: String, msg: String },
    Recv { to_user: String, from_user: String, channel: String, msg: String },
    Result(ServerResult),
}

/// The abstract content of a [`ServerRequest`].
pub enum PeerCommand {
    Out,
    Confirm,
    Channels { channels: Seq<char> },
    New { channel: Seq<char> },
    Join { user: Seq<char>, channel: Seq<char> },
    Say { user: Seq<char>, channel: Seq<char>, msg: Seq<char> },
    Recv { to_user: Seq<char>, from_user: Seq<char>, channel: Seq<char>, msg: Seq<char> },
    Result(PeerResult),
}

impl View for ServerRequest {
    type V = PeerCommand;

    open spec fn view(&self) -> PeerCommand {
        match self {
            ServerRequest::Out => PeerCommand::Out,
            ServerRequest::Confirm => PeerCommand::Confirm,
            ServerRequest::Channels { channels } => PeerCommand::Channels { channels: channels@ },
            ServerRequest::New { channel } => PeerCommand::New { channel: channel@ },
            ServerRequest::Join { user, channel } => PeerCommand::Join {
                user: user@,
                channel: channel@,
            },
            ServerRequest::Say { user, channel, msg } => PeerCommand::Say {
                user: user@,
                channel: channel@,
                msg: msg@,
            },
            ServerRequest::Recv { to_user, from_user, channel, msg } => PeerCommand::Recv {
                to_user: to_user@,
                from_user: from_user@,
                channel: channel@,
                msg: msg@,
            },
            ServerRequest::Result(r) => PeerCommand::Result(r@),
        }
    }
}

/// The first record of a connection: a client request or a federation request.
pub enum Request {
    Client(ClientRequest),
    Server(ServerRequest),
}

/// The abstract content of a [`Request`].
pub enum Command {
    Client(ClientCommand),
    Server(PeerCommand),
}

impl View for Request {
    type V = Command;

    open spec fn view(&self) -> Command {
        match self {
            Request::Client(c) => Command::Client(c@),
            Request::Server(s) => Command::Server(s@),
        }
    }
}

/// The verb of a record and the rest of it after the first space (empty when none).
pub open spec fn verb_and_args(s: Seq<char>) -> (Seq<char>, Seq<char>) {
    match split_at_first(s, ' ') {
        Some(p) => p,
        None => (s, Seq::empty()),
    }
}

/// Two space-separated tokens, the second without spaces.
pub open spec fn two_tokens(s: Seq<char>) -> Option<(Seq<char>, Seq<char>)> {
    match split_at_first(s, ' ') {
        Some((a, b)) => if has_char(b, ' ') {
            None
        } else {
            Some((a, b))
        },
        None => None,
    }
}

/// The status flag written as the literal `1` or `0`.
pub open spec fn status_flag(s: Seq<char>) -> Option<bool> {
    if s == "1"@ {
        Some(true)
    } else if s == "0"@ {
        Some(false)
    } else {
        None
    }
}

/// The client command a record denotes, if it is one.
pub open spec fn client_command(s: Seq<char>) -> Option<ClientCommand> {
    let (kind, args) = verb_and_args(s);
    if kind == "REGISTER"@ {
        match two_tokens(args) {
            Some((u, p)) => Some(ClientCommand::Register { username: u, password: p }),
            None => None,
        }
    } else if kind == "LOGIN"@ {
        match two_tokens(args) {
            Some((u, p)) => Some(ClientCommand::Login { username: u, password: p }),
            None => None,
        }
    } else if kind == "JOIN"@ {
        if has_char(args, ' ') {
            None
        } else {
            Some(ClientCommand::Join { channel: args })
        }
    } else if kind == "CREATE"@ {
        if has_char(args, ' ') {
            None
        } else {
            Some(ClientCommand::Create { channel: args })
        }
    } else if kind == "SAY"@ {
        match split_at_first(args, ' ') {
            Some((c, m)) => Some(ClientCommand::Say { channel: c, message: m }),
            None => None,
        }
    } else if kind == "CHANNELS"@ {
        Some(ClientCommand::Channels)
    } else {
        None
    }
}

/// The `FEDRESULT` reply that the arguments `args` denote, if any.
pub open spec fn peer_result(args: Seq<char>) -> Option<PeerResult> {
    match split_at_first(args, ' ') {
        None => None,
        Some((user, r1)) => match split_at_first(r1, ' ') {
            None => None,
            Some((kind, r2)) => match split_at_first(r2, ' ') {
                None => None,
                Some((channel, r3)) => if kind == "JOIN"@ {
                    match status_flag(r3) {
                        Some(st) => Some(PeerResult::Join { user, channel, status: st }),
                        None => None,
                    }
                } else if kind == "SAY"@ {
                    match split_at_first(r3, ' ') {
                        None => None,
                        Some((sf, msg)) => match status_flag(sf) {
                            Some(st) => Some(PeerResult::Say { user, channel, status: st, msg }),
                            None => None,
                        },
                    }
                } else {
                    None
                },
            },
        },
    }
}

/// The federation command a record denotes, if it is one.
pub open spec fn peer_command(s: Seq<char>) -> Option<PeerCommand> {
    let (kind, args) = verb_and_args(s);
    if kind == "FEDERATEOUT"@ {
        Some(PeerCommand::Out)
    } else if kind == "FEDCONFIRM"@ {
        Some(PeerCommand::Confirm)
    } else if kind == "FEDCHANNELS"@ {
        Some(PeerCommand::Channels { channels: args })
    } else if kind == "FEDNEW"@ {
        if has_char(args, ' ') {
            None
        } else {
            Some(PeerCommand::New { channel: args })
        }
    } else if kind == "FEDJOIN"@ {
        match two_tokens(args) {
            Some((u, c)) => Some(PeerCommand::Join { user: u, channel: c }),
            None => None,
        }
    } else if kind == "FEDSAY"@ {
        match split_at_first(args, ' ') {
            None => None,
            Some((u, r1)) => match split_at_first(r1, ' ') {
                None => None,
                Some((c, m)) => Some(PeerCommand::Say { user: u, channel: c, msg: m }),
            },
        }
    } else if kind == "FEDRECV"@ {
        match split_at_first(args, ' ') {
            None => None,
            Some((t, r1)) => match split_at_first(r1, ' ') {
                None => None,
                Some((f, r2)) => match split_at_first(r2, ' ') {
                    None => None,
                    Some((c, m)) => Some(
                        PeerCommand::Recv { to_user: t, from_user: f, channel: c, msg: m },
                    ),
                },
            },
        }
    } else if kind == "FEDRESULT"@ {
        match peer_result(args) {
            Some(r) => Some(PeerCommand::Result(r)),
            None => None,
        }
    } else {
        None
    }
}

/// What the first record of a connection denotes: a client command when it is one,
/// else a federation command.
pub open spec fn command(s: Seq<char>) -> Option<Command> {
    match client_command(s) {
        Some(c) => Some(Command::Client(c)),
        None => match peer_command(s) {
            Some(p) => Some(Command::Server(p)),
            None => None,
        },
    }
}

fn verb_split<'a>(input: &'a str) -> (r: (&'a str, &'a str))
    ensures
        (r.0@, r.1@) == verb_and_args(input@),
{
    match split_once(input, ' ') {
        Some(p) => p,
        None => {
            let e = input.substring_char(0, 0);
            assert(e@ =~= Seq::<char>::empty());
            (input, e)
        },
    }
}

fn owned(s: &str) -> (r: String)
    ensures
        r@ == s@,
{
    String::from_str(s)
}

fn parse_status(s: &str) -> (r: Option<bool>)
    ensures
        r == status_flag(s@),
{
    if same_text(s, "1") {
        Some(true)
    } else if same_text(s, "0") {
        Some(false)
    } else {
        None
    }
}

/// Splits `input` into two space-separated tokens, the second holding no space.
pub fn two<'a>(input: &'a str) -> (r: Option<(&'a str, &'a str)>)
    ensures
        r is None ==> two_tokens(input@) is None,
        r matches Some((a, b)) ==> two_tokens(input@) == Some((a@, b@)),
{
    match split_once(input, ' ') {
        None => None,
        Some((a, b)) => {
            if contains_char(b, ' ') {
                None
            } else {
                Some((a, b))
            }
        },
    }
}

/// Reads a record of the client protocol.
pub fn parse_client(input: &str) -> (r: Option<ClientRequest>)
    ensures
        r is None ==> client_command(input@) is None,
        r matches Some(c) ==> client_command(input@) == Some(c@),
{
    let (kind, args) = verb_split(input);
    if same_text(kind, "REGISTER") {
        match two(args) {
            Some((u, p)) => Some(ClientRequest::Register { username: owned(u), password: owned(p) }),
            None => None,
        }
    } else if same_text(kind, "LOGIN") {
        match two(args) {
            Some((u, p)) => Some(ClientRequest::Login { username: owned(u), password: owned(p) }),
            None => None,
        }
    } else if same_text(kind, "JOIN") {
        if contains_char(args, ' ') {
            None
        } else {
            Some(ClientRequest::Join { channel: owned(args) })
        }
    } else if same_text(kind, "CREATE") {
        if contains_char(args, ' ') {
            None
        } else {
            Some(ClientRequest::Create { channel: owned(args) })
        }
    } else if same_text(kind, "SAY") {
        match split_once(args, ' ') {
            Some((c, m)) => Some(ClientRequest::Say { channel: owned(c), message: owned(m) }),
            None => None,
        }
    } else if same_text(kind, "CHANNELS") {
        Some(ClientRequest::Channels)
    } else {
        None
    }
}

fn parse_result(args: &str) -> (r: Option<ServerResult>)
    ensures
        r is None ==> peer_result(args@) is None,
        r matches Some(x) ==> peer_result(args@) == Some(x@),
{
    let (user, r1) = match split_once(args, ' ') {
        Some(p) => p,
        None => return None,
    };
    let (kind, r2) = match split_once(r1, ' ') {
        Some(p) => p,
        None => return None,
    };
    let (channel, r3) = match split_once(r2, ' ') {
        Some(p) => p,
        None => return None,
    };
    if same_text(kind, "JOIN") {
        match parse_status(r3) {
            Some(st) => Some(ServerResult::Join { user: owned(user), channel: owned(channel), status: st }),
            None => None,
        }
    } else if same_text(kind, "SAY") {
        let (sf, msg) = match split_once(r3, ' ') {
            Some(p) => p,
            None => return None,
        };
        match parse_status(sf) {
            Some(st) => Some(
                ServerResult::Say { user: owned(user), channel: owned(channel), status: st, msg: owned(msg) },
            ),
            None => None,
        }
    } else {
        None
    }
}

/// Reads a record of the federation protocol.
pub fn parse_server(input: &str) -> (r: Option<ServerRequest>)
    ensures
        r is None ==> peer_command(input@) is None,
        r matches Some(c) ==> peer_command(input@) == Some(c@),
{
    let (kind, args) = verb_split(input);
    if same_text(kind, "FEDERATEOUT") {
        Some(ServerRequest::Out)
    } else if same_text(kind, "FEDCONFIRM") {
        Some(ServerRequest::Confirm)
    } else if same_text(kind, "FEDCHANNELS") {
        Some(ServerRequest::Channels { channels: owned(args) })
    } else if same_text(kind, "FEDNEW") {
        if contains_char(args, ' ') {
            None
        } else {
            Some(ServerRequest::New { channel: owned(args) })
        }
    } else if same_text(kind, "FEDJOIN") {
        match two(args) {
            Some((u, c)) => Some(ServerRequest::Join { user: owned(u), channel: owned(c) }),
            None => None,
        }
    } else if same_text(kind, "FEDSAY") {
        let (u, r1) = match split_once(args, ' ') {
            Some(p) => p,
            None => return None,
        };
        let (c, m) = match split_once(r1, ' ') {
            Some(p) => p,
            None => return None,
        };
        Some(ServerRequest::Say { user: owned(u), channel: owned(c), msg: owned(m) })
    } else if same_text(kind, "FEDRECV") {
        let (t, r1) = match split_once(args, ' ') {
            Some(p) => p,
            None => return None,
        };
        let (f, r2) = match split_once(r1, ' ') {
            Some(p) => p,
            None => return None,
        };
        let (c, m) = match split_once(r2, ' ') {
            Some(p) => p,
            None => return None,
        };
        Some(
            ServerRequest::Recv {
                to_user: owned(t),
                from_user: owned(f),
                channel: owned(c),
                msg: owned(m),
            },
        )
    } else if same_text(kind, "FEDRESULT") {
        match parse_result(args) {
            Some(r) => Some(ServerRequest::Result(r)),
            None => None,
        }
    } else {
        None
    }
}

/// Classifies the first record of a connection: a client request if it reads as
/// one, else a federation request.
pub fn parse(input: &str) -> (r: Option<Request>)
    ensures
        r is None ==> command(input@) is None,
        r matches Some(c) ==> command(input@) == Some(c@),
{
    match parse_client(input) {
        Some(c) => Some(Request::Client(c)),
        None => match parse_server(input) {
            Some(s) => Some(Request::Server(s)),
            None => None,
        },
    }
}

} // verus!
