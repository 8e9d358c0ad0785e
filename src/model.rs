//! Endpoints, deliveries and the records of the directory.
//!
//! A session's delivery queue is named by a `u64` endpoint id that the host hands
//! out; the library never holds a queue, it returns [`Delivery`] values that the
//! host pushes onto the queue with that id.
use vstd::prelude::*;

verus! {

/// The reply a peer session waits for on behalf of a client.
pub enum Response {
    Join { channel: String },
    Say { channel: String, message: String },
}

/// The abstract content of a [`Response`].
pub enum ResponseKind {
    Join { channel: Seq<char> },
    Say { channel: Seq<char>, message: Seq<char> },
}

impl View for Response {
    type V = ResponseKind;

    open spec fn view(&self) -> ResponseKind {
        match self {
            Response::Join { channel } => ResponseKind::Join { channel: channel@ },
            Response::Say { channel, message } => ResponseKind::Say {
                channel: channel@,
                message: message@,
            },
        }
    }
}

/// An item on a peer session's queue: a record to send, or a record to send
/// together with the callback that awaits its reply.
pub enum ServerMessage {
    Message(String),
    CallbackMessage { channel: u64, user: String, response: Response, message: String },
}

/// The abstract content of a [`ServerMessage`].
pub enum PeerMessage {
    Plain(Seq<char>),
    Arm { client: u64, user: Seq<char>, response: ResponseKind, text: Seq<char> },
}

impl View for ServerMessage {
    type V = PeerMessage;

    open spec fn view(&self) -> PeerMessage {
        match self {
            ServerMessage::Message(t) => PeerMessage::Plain(t@),
            ServerMessage::CallbackMessage { channel, user, response, message } => PeerMessage::Arm {
                client: *channel,
                user: user@,
                response: response@,
                text: message@,
            },
        }
    }
}

/// One item for the host to push onto a session's delivery queue.
pub enum Delivery {
    Client { to: u64, text: String },
    Peer { to: u64, msg: ServerMessage },
}

/// The abstract content of a [`Delivery`].
pub enum Sent {
    Client { to: u64, text: Seq<char> },
    Peer { to: u64, msg: PeerMessage },
}

impl View for Delivery {
    type V = Sent;

    open spec fn view(&self) -> Sent {
        match self {
            Delivery::Client { to, text } => Sent::Client { to: *to, text: text@ },
            Delivery::Peer { to, msg } => Sent::Peer { to: *to, msg: msg@ },
        }
    }
}

/// The abstract content of a list of deliveries.
pub open spec fn sent(out: Seq<Delivery>) -> Seq<Sent> {
    out.map_values(|d: Delivery| d@)
}

/// How a channel member is reached: a local client endpoint or a peer endpoint.
#[derive(PartialEq, Eq, Structural, Clone, Copy)]
pub enum User {
    Local(u64),
    Remote(u64),
}

/// A registered account.
pub struct Account {
    pub name: String,
    pub password: String,
}

impl View for Account {
    type V = (Seq<char>, Seq<char>);

    open spec fn view(&self) -> (Seq<char>, Seq<char>) {
        (self.name@, self.password@)
    }
}

/// A member of a channel.
pub struct Member {
    pub name: String,
    pub user: User,
}

impl View for Member {
    type V = (Seq<char>, User);

    open spec fn view(&self) -> (Seq<char>, User) {
        (self.name@, self.user)
    }
}

/// A named channel and its members, in the order they joined.
pub struct Channel {
    pub name: String,
    pub users: Vec<Member>,
}

/// The abstract content of a [`Channel`].
pub struct ChannelView {
    pub name: Seq<char>,
    pub members: Seq<(Seq<char>, User)>,
}

impl View for Channel {
    type V = ChannelView;

    open spec fn view(&self) -> ChannelView {
        ChannelView { name: self.name@, members: self.users@.map_values(|m: Member| m@) }
    }
}

/// A known peer server: its address, its endpoint and the channels it advertised.
pub struct RemoteServer {
    pub addr: String,
    pub channel: u64,
    pub channels: Vec<String>,
}

/// The abstract content of a [`RemoteServer`].
pub struct PeerView {
    pub addr: Seq<char>,
    pub endpoint: u64,
    pub advertised: Seq<Seq<char>>,
}

impl View for RemoteServer {
    type V = PeerView;

    open spec fn view(&self) -> PeerView {
        PeerView {
            addr: self.addr@,
            endpoint: self.channel,
            advertised: self.channels@.map_values(|s: String| s@),
        }
    }
}

/// A user's live delivery endpoint.
pub struct UserConn {
    pub name: String,
    pub channel: u64,
}

impl View for UserConn {
    type V = (Seq<char>, u64);

    open spec fn view(&self) -> (Seq<char>, u64) {
        (self.name@, self.channel)
    }
}

} // verus!
