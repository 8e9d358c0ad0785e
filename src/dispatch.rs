//! Dispatch of one parsed record to the directory and the session.
use vstd::prelude::*;
use crate::client::{
    ClientConnection, add_member_model, bind, fan_out_records, list_text, login_ok, may_speak,
    members_of, recv_text, reply_is, say_ok, say_reply, announce_records, join_effect,
};
use crate::directory::{Server, find_peer, find_room, flag, register_model, register_reply, room_names};
use crate::keyed::lookup;
use crate::model::{ChannelView, Delivery, ResponseKind, Sent, User, sent};
use crate::parse::{ClientCommand, ClientRequest, PeerCommand, PeerResult, ServerRequest, ServerResult};
use crate::peer::{
    ServerConnection, advertise, channels_effect, fed_join_reply, fed_say_reply, home_name, join_result_text,
    register_peer, say_result_text, take_reply,
};

verus! {

/// Handles one request of a logged-in or anonymous client; returns the reply to
/// write back, if any. Deliveries for other sessions are appended to `out`.
pub fn handle_client_request(
    server: &mut Server,
    conn: &mut ClientConnection,
    req: ClientRequest,
    out: &mut Vec<Delivery>,
) -> (r: Option<String>)
    requires
        old(server).wf(),
    ensures
        final(server).wf(),
        final(server).port == old(server).port,
        final(server).peers() == old(server).peers(),
        final(conn).channel == old(conn).channel,
        final(conn).server_addr == old(conn).server_addr,
        match req@ {
            ClientCommand::Register { username, password } => {
                &&& final(server).accounts() == register_model(old(server).accounts(), username, password).0
                &&& reply_is(r, register_reply(register_model(old(server).accounts(), username, password).1))
                &&& final(server).rooms() == old(server).rooms()
                &&& final(out)@ == old(out)@
            },
            ClientCommand::Login { username, password } => {
                &&& reply_is(r, "RESULT LOGIN "@ + flag(login_ok(old(server).accounts(), username, password)) + "\n"@)
                &&& login_ok(old(server).accounts(), username, password) ==> final(conn).user() == Some(username)
                    && final(server).conns() == bind(old(server).conns(), username, old(conn).channel)
                &&& !login_ok(old(server).accounts(), username, password) ==> final(conn).user() == old(conn).user()
                    && final(server).conns() == old(server).conns()
                &&& final(server).rooms() == old(server).rooms()
                &&& final(out)@ == old(out)@
            },
            ClientCommand::Join { channel } => {
                &&& final(conn).user() == old(conn).user()
                &&& final(server).accounts() == old(server).accounts()
                &&& join_effect(
                    old(server).rooms(),
                    old(server).peers(),
                    *old(conn),
                    channel,
                    r,
                    final(server).rooms(),
                    sent(old(out)@),
                    sent(final(out)@),
                )
            },
            ClientCommand::Create { channel } => {
                &&& final(conn).user() == old(conn).user()
                &&& final(server).accounts() == old(server).accounts()
                &&& final(server).rooms() == if find_room(old(server).rooms(), channel) is Some {
                    old(server).rooms()
                } else {
                    old(server).rooms().push(ChannelView { name: channel, members: Seq::empty() })
                }
                &&& find_room(old(server).rooms(), channel) is None ==> sent(final(out)@) == sent(old(out)@)
                    + announce_records(old(server).peers(), channel)
                &&& find_room(old(server).rooms(), channel) is Some ==> final(out)@ == old(out)@
                &&& reply_is(
                    r,
                    "RESULT CREATE "@ + channel + " "@ + flag(find_room(old(server).rooms(), channel) is None) + "\n"@,
                )
            },
            ClientCommand::Say { channel, message } => {
                &&& final(conn).user() == old(conn).user()
                &&& final(server).accounts() == old(server).accounts()
                &&& final(server).rooms() == old(server).rooms()
                &&& reply_is(r, say_reply(channel, say_ok(old(server).rooms(), old(conn).user(), channel)))
                &&& say_ok(old(server).rooms(), old(conn).user(), channel) ==> sent(final(out)@) == sent(old(out)@)
                    + fan_out_records(members_of(old(server).rooms(), channel), old(conn).user().unwrap(), channel, message)
                &&& !say_ok(old(server).rooms(), old(conn).user(), channel) ==> final(out)@ == old(out)@
            },
            ClientCommand::Channels => {
                &&& final(conn).user() == old(conn).user()
                &&& final(server).accounts() == old(server).accounts()
                &&& final(server).rooms() == old(server).rooms()
                &&& reply_is(r, "RESULT CHANNELS"@ + list_text(room_names(old(server).rooms())) + "\n"@)
                &&& final(out)@ == old(out)@
            },
        },
{
    match req {
        ClientRequest::Register { username, password } => Some(server.register(username.as_str(), password.as_str())),
        ClientRequest::Login { username, password } => Some(server.login(conn, username.as_str(), password.as_str())),
        ClientRequest::Join { channel } => server.join(conn, channel.as_str(), out),
        ClientRequest::Create { channel } => Some(server.create(channel.as_str(), out)),
        ClientRequest::Say { channel, message } => Some(server.say(conn, channel.as_str(), message.as_str(), out)),
        ClientRequest::Channels => Some(server.channels()),
    }
}

/// Handles one request received on a federation link; returns the record to
/// write back, if any. Deliveries for other sessions are appended to `out`.
pub fn handle_server_request(
    server: &mut Server,
    conn: &mut ServerConnection,
    req: ServerRequest,
    out: &mut Vec<Delivery>,
) -> (r: Option<String>)
    requires
        old(server).wf(),
    ensures
        final(server).wf(),
        final(server).port == old(server).port,
        final(server).accounts() == old(server).accounts(),
        final(server).conns() == old(server).conns(),
        final(conn).channel == old(conn).channel,
        final(conn).server_addr == old(conn).server_addr,
        match req@ {
            PeerCommand::Out => {
                &&& reply_is(r, "FEDCONFIRM\n"@)
                &&& final(server).peers() == register_peer(old(server).peers(), old(conn).server_addr@, old(conn).channel)
                &&& final(out)@ == old(out)@
            },
            PeerCommand::Confirm => {
                &&& reply_is(r, "FEDCHANNELS"@ + list_text(room_names(old(server).rooms())) + "\n"@)
                &&& final(server).peers() == register_peer(old(server).peers(), old(conn).server_addr@, old(conn).channel)
                &&& final(out)@ == old(out)@
            },
            PeerCommand::Channels { channels } => {
                &&& r is None
                &&& final(out)@ == old(out)@
                &&& final(server).rooms() == old(server).rooms()
                &&& channels_effect(old(server).peers(), old(conn).server_addr@, channels, final(server).peers())
            },
            PeerCommand::New { channel } => {
                &&& r is None
                &&& final(out)@ == old(out)@
                &&& final(server).rooms() == old(server).rooms()
                &&& final(server).peers() == match find_peer(old(server).peers(), old(conn).server_addr@) {
                    Some(k) => advertise(old(server).peers(), k, channel),
                    None => old(server).peers(),
                }
            },
            PeerCommand::Join { user, channel } => {
                &&& final(server).rooms() == add_member_model(old(server).rooms(), channel, user, User::Remote(old(conn).channel)).0
                &&& reply_is(r, fed_join_reply(home_name(user), channel, add_member_model(old(server).rooms(), channel, user, User::Remote(old(conn).channel)).1))
                &&& final(out)@ == old(out)@
            },
            PeerCommand::Say { user, channel, msg } => {
                &&& final(server).rooms() == old(server).rooms()
                &&& reply_is(r, fed_say_reply(user, channel, msg, may_speak(old(server).rooms(), channel, user)))
                &&& may_speak(old(server).rooms(), channel, user) ==> sent(final(out)@) == sent(old(out)@)
                    + fan_out_records(members_of(old(server).rooms(), channel), user, channel, msg)
                &&& !may_speak(old(server).rooms(), channel, user) ==> final(out)@ == old(out)@
            },
            PeerCommand::Recv { to_user, from_user, channel, msg } => {
                &&& r is None
                &&& final(server).rooms() == old(server).rooms()
                &&& match lookup(old(server).conns(), home_name(to_user)) {
                    Some(ep) => sent(final(out)@) == sent(old(out)@).push(
                        Sent::Client { to: ep, text: recv_text(from_user, channel, msg) },
                    ),
                    None => final(out)@ == old(out)@,
                }
            },
            PeerCommand::Result(PeerResult::Join { user, channel, status }) => {
                &&& r is None
                &&& final(server).rooms() == old(server).rooms()
                &&& final(conn).pending() == take_reply(old(conn).pending(), user, ResponseKind::Join { channel }).1
                &&& match take_reply(old(conn).pending(), user, ResponseKind::Join { channel }).0 {
                    Some(ep) => sent(final(out)@) == sent(old(out)@).push(Sent::Client { to: ep, text: join_result_text(channel, status) }),
                    None => final(out)@ == old(out)@,
                }
            },
            PeerCommand::Result(PeerResult::Say { user, channel, status, msg }) => {
                &&& r is None
                &&& final(server).rooms() == old(server).rooms()
                &&& final(conn).pending() == take_reply(old(conn).pending(), user, ResponseKind::Say { channel, message: msg }).1
                &&& match take_reply(old(conn).pending(), user, ResponseKind::Say { channel, message: msg }).0 {
                    Some(ep) => sent(final(out)@) == sent(old(out)@).push(Sent::Client { to: ep, text: say_result_text(channel, msg, status) }),
                    None => final(out)@ == old(out)@,
                }
            },
        },
{
    match req {
        ServerRequest::Out => {
            return server.fed_out(conn);
        },
        ServerRequest::Confirm => {
            return server.fed_confirm(conn);
        },
        ServerRequest::Channels { channels } => {
            return server.fed_channels(conn, channels.as_str());
        },
        ServerRequest::New { channel } => {
            return server.fed_new(conn, channel.as_str());
        },
        ServerRequest::Join { user, channel } => {
            return server.fed_join(conn, user.as_str(), channel.as_str());
        },
        ServerRequest::Say { user, channel, msg } => {
            return server.fed_say(user.as_str(), channel.as_str(), msg.as_str(), out);
        },
        ServerRequest::Recv { to_user, from_user, channel, msg } => {
            return server.fed_recv(to_user.as_str(), from_user.as_str(), channel.as_str(), msg.as_str(), out);
        },
        ServerRequest::Result(ServerResult::Join { user, channel, status }) => {
            conn.fed_result_join(user.as_str(), channel.as_str(), status, out);
            return None;
        },
        ServerRequest::Result(ServerResult::Say { user, channel, status, msg }) => {
            conn.fed_result_say(user.as_str(), channel.as_str(), status, msg.as_str(), out);
            return None;
        },
    }
}

} // verus!
