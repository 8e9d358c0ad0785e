//! Client sessions and the directory operations they request.
use vstd::prelude::*;
use crate::directory::{Server, find_room, find_peer, flag, flag_text, room_names, rooms_wf, lemma_find_room, lemma_no_room};
use crate::keyed::{has_key, unique_keys, index_of, lookup, lemma_index_of, lemma_push_fresh, lemma_update_value};
use crate::model::{Channel, ChannelView, Delivery, Member, PeerMessage, PeerView, Response, ResponseKind, Sent, ServerMessage, User, UserConn, sent};
use crate::text::{same_text, split_at_first, split_once};

verus! {

/// The state of one local client connection.
pub struct ClientConnection {
    /// The logged-in identity, if any.
    pub username: Option<String>,
    /// The endpoint id of this session's delivery queue.
    pub channel: u64,
    /// The address this server is known by on the connection.
    pub server_addr: String,
}

impl ClientConnection {
    /// A session that is not logged in.
    pub fn new(channel: u64, server_addr: String) -> (r: Self)
        ensures
            r.user() is None,
            r.channel == channel,
            r.server_addr@ == server_addr@,
    {
        ClientConnection { username: None, channel, server_addr }
    }

    /// The logged-in identity.
    pub open spec fn user(&self) -> Option<Seq<char>> {
        match self.username {
            Some(u) => Some(u@),
            None => None,
        }
    }
}

/// Whether `LOGIN u p` matches an account.
pub open spec fn login_ok(accounts: Seq<(Seq<char>, Seq<char>)>, u: Seq<char>, p: Seq<char>) -> bool {
    lookup(accounts, u) == Some(p)
}

/// The user endpoints after binding `u` to `ep`; a later binding replaces an earlier one.
pub open spec fn bind(conns: Seq<(Seq<char>, u64)>, u: Seq<char>, ep: u64) -> Seq<(Seq<char>, u64)> {
    match index_of(conns, u) {
        Some(i) => conns.update(i, (u, ep)),
        None => conns.push((u, ep)),
    }
}

/// The channels after adding `u`, reached through `how`, to the channel `name`,
/// and whether that succeeded: the channel must exist and not hold `u` yet.
pub open spec fn add_member_model(rooms: Seq<ChannelView>, name: Seq<char>, u: Seq<char>, how: User) -> (
    Seq<ChannelView>,
    bool,
) {
    match find_room(rooms, name) {
        None => (rooms, false),
        Some(c) => if has_key(rooms[c].members, u) {
            (rooms, false)
        } else {
            (rooms.update(c, ChannelView { name: rooms[c].name, members: rooms[c].members.push((u, how)) }), true)
        },
    }
}

/// A name joins a channel at most once: adding keeps the uniqueness of channel
/// and member names, and a second addition of the same name to the same channel
/// fails, however the member is reached.
pub proof fn join_at_most_once(rooms: Seq<ChannelView>, name: Seq<char>, u: Seq<char>, h1: User, h2: User)
    requires
        rooms_wf(rooms),
    ensures
        rooms_wf(add_member_model(rooms, name, u, h1).0),
        !add_member_model(add_member_model(rooms, name, u, h1).0, name, u, h2).1,
{
    let r1 = add_member_model(rooms, name, u, h1).0;
    match find_room(rooms, name) {
        None => {},
        Some(c) => {
            let i = choose|i: int| 0 <= i < rooms.len() && #[trigger] rooms[i].name == name;
            assert(room_names(rooms)[i] == name);
            assert(room_names(rooms).contains(name));
            if !has_key(rooms[c].members, u) {
                lemma_push_fresh(rooms[c].members, (u, h1));
                assert(r1[c].members[r1[c].members.len() - 1].0 == u);
            }
            assert(rooms_wf(r1));
            lemma_find_room(r1, c);
            assert(r1[c].name == name);
            assert(has_key(r1[c].members, u));
        },
    }
}

/// The record a local member receives when `author` speaks `msg` in `channel`.
pub open spec fn recv_text(author: Seq<char>, channel: Seq<char>, msg: Seq<char>) -> Seq<char> {
    "RECV "@ + author + " "@ + channel + " "@ + msg + "\n"@
}

/// The record a peer receives for its member `to` when `author` speaks `msg` in `channel`.
pub open spec fn fed_recv_text(to: Seq<char>, author: Seq<char>, channel: Seq<char>, msg: Seq<char>) -> Seq<char> {
    "FEDRECV "@ + to + " "@ + author + " "@ + channel + " "@ + msg + "\n"@
}

/// The delivery owed to one member when `author` speaks `msg` in `channel`.
pub open spec fn fan_out_record(m: (Seq<char>, User), author: Seq<char>, channel: Seq<char>, msg: Seq<char>) -> Sent {
    match m.1 {
        User::Local(ep) => Sent::Client { to: ep, text: recv_text(author, channel, msg) },
        User::Remote(p) => Sent::Peer { to: p, msg: PeerMessage::Plain(fed_recv_text(m.0, author, channel, msg)) },
    }
}

/// One delivery per member, in member order.
pub open spec fn fan_out_records(
    members: Seq<(Seq<char>, User)>,
    author: Seq<char>,
    channel: Seq<char>,
    msg: Seq<char>,
) -> Seq<Sent> {
    Seq::new(members.len(), |i: int| fan_out_record(members[i], author, channel, msg))
}

/// The channel `channel` exists and `author` is one of its members.
pub open spec fn may_speak(rooms: Seq<ChannelView>, channel: Seq<char>, author: Seq<char>) -> bool {
    match find_room(rooms, channel) {
        Some(c) => has_key(rooms[c].members, author),
        None => false,
    }
}

/// The members of `channel` (empty when there is no such channel).
pub open spec fn members_of(rooms: Seq<ChannelView>, channel: Seq<char>) -> Seq<(Seq<char>, User)> {
    match find_room(rooms, channel) {
        Some(c) => rooms[c].members,
        None => Seq::empty(),
    }
}

/// The `CHANNELS` listing of `names`: each name after a space, separated by commas.
pub open spec fn list_text(names: Seq<Seq<char>>) -> Seq<char>
    decreases names.len(),
{
    if names.len() == 0 {
        Seq::empty()
    } else {
        list_text(names.drop_last()) + (if names.len() == 1 {
            " "@
        } else {
            ", "@
        }) + names.last()
    }
}

/// The `FEDNEW` announcements of `name` to each peer, in peer order.
pub open spec fn announce_records(peers: Seq<PeerView>, name: Seq<char>) -> Seq<Sent> {
    Seq::new(
        peers.len(),
        |i: int| Sent::Peer { to: peers[i].endpoint, msg: PeerMessage::Plain("FEDNEW "@ + name + "\n"@) },
    )
}

/// Announcing a new channel reaches each peer exactly once: when the peers'
/// endpoints are distinct, for each peer exactly one announcement is addressed
/// to it, and it is `FEDNEW name`.
pub proof fn announce_once(peers: Seq<PeerView>, name: Seq<char>, k: int)
    requires
        0 <= k < peers.len(),
        forall|i: int, j: int| 0 <= i < peers.len() && 0 <= j < peers.len() && i != j ==> peers[i].endpoint != peers[j].endpoint,
    ensures
        announce_records(peers, name).len() == peers.len(),
        announce_records(peers, name)[k] == (Sent::Peer { to: peers[k].endpoint, msg: PeerMessage::Plain("FEDNEW "@ + name + "\n"@) }),
        forall|j: int| 0 <= j < peers.len() && j != k ==> !(#[trigger] announce_records(peers, name)[j] is Peer && announce_records(peers, name)[j]->Peer_to == peers[k].endpoint),
{
}

/// The reply to a `JOIN` of `target`.
pub open spec fn join_reply(target: Seq<char>, ok: bool) -> Seq<char> {
    "RESULT JOIN "@ + target + " "@ + flag(ok) + "\n"@
}

/// The request sent to a peer when `user` joins its channel `channel`.
pub open spec fn fed_join_text(user: Seq<char>, own_addr: Seq<char>, channel: Seq<char>) -> Seq<char> {
    "FEDJOIN "@ + user + "@"@ + own_addr + " "@ + channel + "\n"@
}

/// The reply to a `SAY` in `channel`.
pub open spec fn say_reply(channel: Seq<char>, ok: bool) -> Seq<char> {
    "RESULT SAY "@ + channel + " "@ + flag(ok) + "\n"@
}

pub(crate) fn concat3(a: &str, b: &str, c: &str) -> (r: String)
    ensures
        r@ == a@ + b@ + c@,
{
    let mut s = String::from_str(a);
    s.append(b);
    s.append(c);
    s
}

pub(crate) fn concat5(a: &str, b: &str, c: &str, d: &str, e: &str) -> (r: String)
    ensures
        r@ == a@ + b@ + c@ + d@ + e@,
{
    let mut s = concat3(a, b, c);
    s.append(d);
    s.append(e);
    s
}

pub(crate) fn concat7(a: &str, b: &str, c: &str, d: &str, e: &str, f: &str, g: &str) -> (r: String)
    ensures
        r@ == a@ + b@ + c@ + d@ + e@ + f@ + g@,
{
    let mut s = concat5(a, b, c, d, e);
    s.append(f);
    s.append(g);
    s
}

impl Server {
    /// The position of the channel named `name`.
    pub(crate) fn find_channel(&self, name: &str) -> (r: Option<usize>)
        requires
            self.wf(),
        ensures
            r is None ==> find_room(self.rooms(), name@) is None,
            r matches Some(i) ==> i < self.channels@.len() && find_room(self.rooms(), name@) == Some(i as int),
    {
        let mut i: usize = 0;
        while i < self.channels.len()
            invariant
                self.wf(),
                i <= self.channels@.len(),
                forall|j: int| 0 <= j < i ==> self.rooms()[j].name != name@,
            decreases self.channels@.len() - i,
        {
            if same_text(self.channels[i].name.as_str(), name) {
                proof {
                    lemma_find_room(self.rooms(), i as int);
                }
                return Some(i);
            }
            i = i + 1;
        }
        proof {
            if room_names(self.rooms()).contains(name@) {
                let k = choose|k: int| 0 <= k < room_names(self.rooms()).len() && room_names(self.rooms())[k] == name@;
                assert(self.rooms()[k].name == name@);
            }
        }
        None
    }

    /// The position of the peer known under `addr`.
    pub(crate) fn find_server(&self, addr: &str) -> (r: Option<usize>)
        requires
            self.wf(),
        ensures
            r is None ==> find_peer(self.peers(), addr@) is None,
            r matches Some(i) ==> i < self.servers@.len() && find_peer(self.peers(), addr@) == Some(i as int),
    {
        let mut i: usize = 0;
        while i < self.servers.len()
            invariant
                self.wf(),
                i <= self.servers@.len(),
                forall|j: int| 0 <= j < i ==> self.peers()[j].addr != addr@,
            decreases self.servers@.len() - i,
        {
            if same_text(self.servers[i].addr.as_str(), addr) {
                proof {
                    assert(self.peers()[i as int].addr == addr@);
                    let k = choose|k: int| 0 <= k < self.peers().len() && #[trigger] self.peers()[k].addr == addr@;
                    assert(k == i);
                }
                return Some(i);
            }
            i = i + 1;
        }
        None
    }

    /// The position of the live endpoint of `u`.
    pub(crate) fn find_conn(&self, u: &str) -> (r: Option<usize>)
        requires
            self.wf(),
        ensures
            r is None ==> index_of(self.conns(), u@) is None,
            r matches Some(i) ==> i < self.user_conns@.len() && index_of(self.conns(), u@) == Some(i as int)
                && self.conns()[i as int].0 == u@,
    {
        let mut i: usize = 0;
        while i < self.user_conns.len()
            invariant
                self.wf(),
                i <= self.user_conns@.len(),
                forall|j: int| 0 <= j < i ==> self.conns()[j].0 != u@,
            decreases self.user_conns@.len() - i,
        {
            if same_text(self.user_conns[i].name.as_str(), u) {
                proof {
                    lemma_index_of(self.conns(), i as int);
                }
                return Some(i);
            }
            i = i + 1;
        }
        proof {
            if has_key(self.conns(), u@) {
                let k = choose|k: int| 0 <= k < self.conns().len() && #[trigger] self.conns()[k].0 == u@;
            }
        }
        None
    }

    /// Binds the session to `username` when the password matches, and records the
    /// session's endpoint as the user's live endpoint.
    pub fn login(&mut self, conn: &mut ClientConnection, username: &str, password: &str) -> (r: String)
        requires
            old(self).wf(),
        ensures
            final(self).wf(),
            r@ == "RESULT LOGIN "@ + flag(login_ok(old(self).accounts(), username@, password@)) + "\n"@,
            login_ok(old(self).accounts(), username@, password@) ==> {
                &&& final(conn).user() == Some(username@)
                &&& final(self).conns() == bind(old(self).conns(), username@, old(conn).channel)
            },
            !login_ok(old(self).accounts(), username@, password@) ==> {
                &&& final(conn).user() == old(conn).user()
                &&& final(self).conns() == old(self).conns()
            },
            final(conn).channel == old(conn).channel,
            final(conn).server_addr == old(conn).server_addr,
            final(self).accounts() == old(self).accounts(),
            final(self).rooms() == old(self).rooms(),
            final(self).peers() == old(self).peers(),
            final(self).port == old(self).port,
    {
        let found = self.find_account(username);
        let ok = match found {
            Some(i) => same_text(self.users[i].password.as_str(), password),
            None => false,
        };
        proof {
            if let Some(i) = found {
                lemma_index_of(self.accounts(), i as int);
            }
        }
        if ok {
            conn.username = Some(String::from_str(username));
            let ep = conn.channel;
            match self.find_conn(username) {
                Some(i) => {
                    proof {
                        lemma_update_value(self.conns(), i as int, ep);
                    }
                    self.user_conns.set(i, UserConn { name: String::from_str(username), channel: ep });
                    assert(self.conns() =~= bind(old(self).conns(), username@, ep));
                    assert(unique_keys(self.conns()));
                },
                None => {
                    proof {
                        lemma_push_fresh(self.conns(), (username@, ep));
                    }
                    self.user_conns.push(UserConn { name: String::from_str(username), channel: ep });
                    assert(self.conns() =~= bind(old(self).conns(), username@, ep));
                },
            }
        }
        assert(self.rooms() == old(self).rooms());
        assert(self.peers() == old(self).peers());
        assert(self.accounts() == old(self).accounts());
        let mut s = String::from_str("RESULT LOGIN ");
        s.append(flag_text(ok));
        s.append("\n");
        s
    }

    /// Whether the channel at `c` has a member named `u`.
    pub(crate) fn has_member(&self, c: usize, u: &str) -> (r: bool)
        requires
            c < self.channels@.len(),
        ensures
            r == has_key(self.rooms()[c as int].members, u@),
    {
        let users = &self.channels[c].users;
        assert(self.rooms()[c as int] == self.channels@[c as int]@);
        let ghost ms = self.rooms()[c as int].members;
        assert(ms =~= users@.map_values(|m: Member| m@));
        let mut i: usize = 0;
        while i < users.len()
            invariant
                i <= users@.len(),
                ms == users@.map_values(|m: Member| m@),
                c < self.channels@.len(),
                ms == self.rooms()[c as int].members,
                forall|j: int| 0 <= j < i ==> ms[j].0 != u@,
            decreases users@.len() - i,
        {
            if same_text(users[i].name.as_str(), u) {
                assert(ms[i as int].0 == u@);
                assert(has_key(ms, u@));
                return true;
            }
            i = i + 1;
        }
        proof {
            if has_key(ms, u@) {
                let k = choose|k: int| 0 <= k < ms.len() && #[trigger] ms[k].0 == u@;
            }
        }
        false
    }

    /// Adds `user`, reached through `how`, to the channel `channel` if the channel
    /// exists and does not hold that name yet.
    pub fn add_member(&mut self, channel: &str, user: &str, how: User) -> (r: bool)
        requires
            old(self).wf(),
        ensures
            final(self).wf(),
            (final(self).rooms(), r) == add_member_model(old(self).rooms(), channel@, user@, how),
            final(self).accounts() == old(self).accounts(),
            final(self).conns() == old(self).conns(),
            final(self).peers() == old(self).peers(),
            final(self).port == old(self).port,
    {
        let c = match self.find_channel(channel) {
            Some(c) => c,
            None => return false,
        };
        if self.has_member(c, user) {
            return false;
        }
        let ghost rooms0 = self.rooms();
        let ghost m0 = rooms0[c as int].members;
        proof {
            lemma_push_fresh(m0, (user@, how));
        }
        let mut ch = self.channels.remove(c);
        ch.users.push(Member { name: String::from_str(user), user: how });
        assert(ch@.members =~= m0.push((user@, how)));
        self.channels.insert(c, ch);
        let ghost want = rooms0.update(c as int, ChannelView { name: rooms0[c as int].name, members: m0.push((user@, how)) });
        assert(self.rooms() =~= want);
        assert(rooms_wf(self.rooms())) by {
            assert forall|i: int| 0 <= i < self.rooms().len() implies unique_keys(#[trigger] self.rooms()[i].members) by {
                if i != c {
                    assert(self.rooms()[i] == rooms0[i]);
                }
            }
            assert forall|i: int| 0 <= i < self.rooms().len() implies #[trigger] self.rooms()[i].name == rooms0[i].name by {
                if i != c {
                    assert(self.rooms()[i] == rooms0[i]);
                }
            }
        }
        assert(unique_keys(self.accounts()));
        assert(unique_keys(self.conns()));
        assert(self.peers() == old(self).peers());
        true
    }

    /// Appends the `CHANNELS` listing of the channel names and a newline to `s`.
    pub fn list_channels(&self, s: &mut String)
        ensures
            final(s)@ == old(s)@ + list_text(room_names(self.rooms())) + "\n"@,
    {
        let ghost names = room_names(self.rooms());
        let ghost s0 = s@;
        let mut i: usize = 0;
        while i < self.channels.len()
            invariant
                i <= self.channels@.len(),
                names == room_names(self.rooms()),
                s@ == s0 + list_text(names.take(i as int)),
            decreases self.channels@.len() - i,
        {
            if i == 0 {
                s.append(" ");
            } else {
                s.append(", ");
            }
            s.append(self.channels[i].name.as_str());
            assert(names.take(i + 1).drop_last() =~= names.take(i as int));
            i = i + 1;
        }
        assert(names.take(i as int) =~= names);
        s.append("\n");
    }

    /// The reply to `CHANNELS`.
    pub fn channels(&self) -> (r: String)
        ensures
            r@ == "RESULT CHANNELS"@ + list_text(room_names(self.rooms())) + "\n"@,
    {
        let mut s = String::from_str("RESULT CHANNELS");
        self.list_channels(&mut s);
        s
    }

    /// Creates the channel `name` unless it exists; on success announces it to every
    /// known peer with `FEDNEW`.
    pub fn create(&mut self, name: &str, out: &mut Vec<Delivery>) -> (r: String)
        requires
            old(self).wf(),
        ensures
            final(self).wf(),
            find_room(old(self).rooms(), name@) is Some ==> {
                &&& r@ == "RESULT CREATE "@ + name@ + " "@ + flag(false) + "\n"@
                &&& final(self).rooms() == old(self).rooms()
                &&& final(out)@ == old(out)@
            },
            find_room(old(self).rooms(), name@) is None ==> {
                &&& r@ == "RESULT CREATE "@ + name@ + " "@ + flag(true) + "\n"@
                &&& final(self).rooms() == old(self).rooms().push(ChannelView { name: name@, members: Seq::empty() })
                &&& sent(final(out)@) == sent(old(out)@) + announce_records(old(self).peers(), name@)
            },
            final(self).accounts() == old(self).accounts(),
            final(self).conns() == old(self).conns(),
            final(self).peers() == old(self).peers(),
            final(self).port == old(self).port,
    {
        if self.find_channel(name).is_some() {
            return concat5("RESULT CREATE ", name, " ", flag_text(false), "\n");
        }
        let ghost rooms0 = self.rooms();
        proof {
            lemma_no_room(rooms0, name@);
        }
        self.channels.push(Channel { name: String::from_str(name), users: Vec::new() });
        assert(self.rooms() =~= rooms0.push(ChannelView { name: name@, members: Seq::empty() })) by {
            assert(self.channels@.last()@.members =~= Seq::<(Seq<char>, User)>::empty());
        }
        assert(rooms_wf(self.rooms())) by {
            assert(unique_keys(Seq::<(Seq<char>, User)>::empty()));
        }
        assert(unique_keys(self.accounts()));
        assert(unique_keys(self.conns()));
        assert(self.peers() == old(self).peers());
        let ghost out0 = sent(out@);
        let ghost peers = self.peers();
        let mut i: usize = 0;
        while i < self.servers.len()
            invariant
                i <= self.servers@.len(),
                peers == self.peers(),
                self.wf(),
                self.rooms() == rooms0.push(ChannelView { name: name@, members: Seq::empty() }),
                self.accounts() == old(self).accounts(),
                self.conns() == old(self).conns(),
                self.peers() == old(self).peers(),
                self.port == old(self).port,
                sent(out@) == out0 + announce_records(peers, name@).take(i as int),
            decreases self.servers@.len() - i,
        {
            let text = concat3("FEDNEW ", name, "\n");
            let d = Delivery::Peer { to: self.servers[i].channel, msg: ServerMessage::Message(text) };
            let ghost prev = out@;
            out.push(d);
            assert(sent(out@) =~= sent(prev).push(d@));
            assert(announce_records(peers, name@).take(i + 1) =~= announce_records(peers, name@).take(i as int).push(
                announce_records(peers, name@)[i as int],
            ));
            i = i + 1;
        }
        assert(announce_records(peers, name@).take(i as int) =~= announce_records(peers, name@));
        concat5("RESULT CREATE ", name, " ", flag_text(true), "\n")
    }

    /// Delivers `msg`, spoken by `author` in `channel`, to every member of the
    /// channel, provided the channel exists and `author` is a member.
    pub fn fan_out(&self, author: &str, channel: &str, msg: &str, out: &mut Vec<Delivery>) -> (r: bool)
        requires
            self.wf(),
        ensures
            r == may_speak(self.rooms(), channel@, author@),
            r ==> sent(final(out)@) == sent(old(out)@) + fan_out_records(
                members_of(self.rooms(), channel@),
                author@,
                channel@,
                msg@,
            ),
            !r ==> final(out)@ == old(out)@,
    {
        let c = match self.find_channel(channel) {
            Some(c) => c,
            None => return false,
        };
        if !self.has_member(c, author) {
            return false;
        }
        let users = &self.channels[c].users;
        assert(self.rooms()[c as int] == self.channels@[c as int]@);
        let ghost ms = self.rooms()[c as int].members;
        let ghost recs = fan_out_records(ms, author@, channel@, msg@);
        let ghost out0 = sent(out@);
        let local = concat7("RECV ", author, " ", channel, " ", msg, "\n");
        let mut i: usize = 0;
        while i < users.len()
            invariant
                i <= users@.len(),
                ms == users@.map_values(|m: Member| m@),
                recs == fan_out_records(ms, author@, channel@, msg@),
                local@ == recv_text(author@, channel@, msg@),
                sent(out@) == out0 + recs.take(i as int),
            decreases users@.len() - i,
        {
            let d = match users[i].user {
                User::Local(ep) => Delivery::Client { to: ep, text: local.clone() },
                User::Remote(p) => {
                    let mut t = concat7("FEDRECV ", users[i].name.as_str(), " ", author, " ", channel, " ");
                    t.append(msg);
                    t.append("\n");
                    Delivery::Peer { to: p, msg: ServerMessage::Message(t) }
                },
            };
            assert(d@ == recs[i as int]);
            let ghost prev = out@;
            out.push(d);
            assert(sent(out@) =~= sent(prev).push(d@));
            assert(recs.take(i + 1) =~= recs.take(i as int).push(recs[i as int]));
            i = i + 1;
        }
        assert(recs.take(i as int) =~= recs);
        true
    }

    /// Speaks `msg` in `channel` as the session's user: fans it out when the session
    /// is logged in and its user is a member of the channel.
    pub fn say(&self, conn: &ClientConnection, channel: &str, msg: &str, out: &mut Vec<Delivery>) -> (r: String)
        requires
            self.wf(),
        ensures
            r@ == say_reply(channel@, say_ok(self.rooms(), conn.user(), channel@)),
            say_ok(self.rooms(), conn.user(), channel@) ==> sent(final(out)@) == sent(old(out)@) + fan_out_records(
                members_of(self.rooms(), channel@),
                conn.user().unwrap(),
                channel@,
                msg@,
            ),
            !say_ok(self.rooms(), conn.user(), channel@) ==> final(out)@ == old(out)@,
    {
        let ok = match &conn.username {
            Some(u) => self.fan_out(u.as_str(), channel, msg, out),
            None => false,
        };
        concat5("RESULT SAY ", channel, " ", flag_text(ok), "\n")
    }

    /// Joins the session's user to `target`: a local channel `name`, or a channel
    /// `name:addr` of the peer known under `addr`. A local join is answered at once;
    /// a remote one is forwarded to the peer with a callback for its reply, and gets
    /// no answer here.
    pub fn join(&mut self, conn: &ClientConnection, target: &str, out: &mut Vec<Delivery>) -> (r: Option<String>)
        requires
            old(self).wf(),
        ensures
            final(self).wf(),
            final(self).accounts() == old(self).accounts(),
            final(self).conns() == old(self).conns(),
            final(self).peers() == old(self).peers(),
            final(self).port == old(self).port,
            join_effect(old(self).rooms(), old(self).peers(), *conn, target@, r, final(self).rooms(), sent(old(out)@), sent(final(out)@)),
    {
        let u = match &conn.username {
            Some(u) => u.as_str(),
            None => return Some(concat5("RESULT JOIN ", target, " ", flag_text(false), "\n")),
        };
        match split_once(target, ':') {
            Some((ch, addr)) => {
                if let Some(k) = self.find_server(addr) {
                    let text = concat7("FEDJOIN ", u, "@", conn.server_addr.as_str(), " ", ch, "\n");
                    let d = Delivery::Peer {
                        to: self.servers[k].channel,
                        msg: ServerMessage::CallbackMessage {
                            channel: conn.channel,
                            user: String::from_str(u),
                            response: Response::Join { channel: String::from_str(ch) },
                            message: text,
                        },
                    };
                    let ghost prev = out@;
                    out.push(d);
                    assert(sent(out@) =~= sent(prev).push(d@));
                }
                None
            },
            None => {
                let ok = self.add_member(target, u, User::Local(conn.channel));
                Some(concat5("RESULT JOIN ", target, " ", flag_text(ok), "\n"))
            },
        }
    }
}

/// What a `JOIN target` does for the session `conn`, from channels `rooms0`,
/// peers `peers` and deliveries `out0`, to reply `r`, channels `rooms1` and
/// deliveries `out1`.
pub open spec fn join_effect(
    rooms0: Seq<ChannelView>,
    peers: Seq<PeerView>,
    conn: ClientConnection,
    target: Seq<char>,
    r: Option<String>,
    rooms1: Seq<ChannelView>,
    out0: Seq<Sent>,
    out1: Seq<Sent>,
) -> bool {
    match conn.user() {
        None => {
            &&& reply_is(r, join_reply(target, false))
            &&& rooms1 == rooms0
            &&& out1 == out0
        },
        Some(u) => match split_at_first(target, ':') {
            Some((ch, addr)) => {
                &&& r is None
                &&& rooms1 == rooms0
                &&& match find_peer(peers, addr) {
                    Some(k) => out1 == out0.push(
                        Sent::Peer {
                            to: peers[k].endpoint,
                            msg: PeerMessage::Arm {
                                client: conn.channel,
                                user: u,
                                response: ResponseKind::Join { channel: ch },
                                text: fed_join_text(u, conn.server_addr@, ch),
                            },
                        },
                    ),
                    None => out1 == out0,
                }
            },
            None => {
                &&& reply_is(r, join_reply(target, add_member_model(rooms0, target, u, User::Local(conn.channel)).1))
                &&& rooms1 == add_member_model(rooms0, target, u, User::Local(conn.channel)).0
                &&& out1 == out0
            },
        },
    }
}

/// Whether a `SAY` in `channel` by a session logged in as `user` is accepted.
pub open spec fn say_ok(rooms: Seq<ChannelView>, user: Option<Seq<char>>, channel: Seq<char>) -> bool {
    match user {
        Some(u) => may_speak(rooms, channel, u),
        None => false,
    }
}

/// `r` is a reply with the text `t`.
pub open spec fn reply_is(r: Option<String>, t: Seq<char>) -> bool {
    match r {
        Some(s) => s@ == t,
        None => false,
    }
}

} // verus!
