//! Peer sessions: the federation requests and the table of pending callbacks.
use vstd::prelude::*;
use crate::client::{add_member_model, concat5, concat7, fan_out_records, list_text, may_speak, members_of, recv_text, reply_is};
use crate::directory::{Server, find_peer, flag, flag_text, room_names};
use crate::keyed::{lookup, lemma_index_of};
use crate::model::{Delivery, PeerMessage, PeerView, RemoteServer, Response, ResponseKind, Sent, ServerMessage, User, sent};
use crate::text::{has_char, has_sep, is_last, join_list, split_at_last, split_list, split_last, same_text, views};

verus! {

/// A client endpoint waiting for the reply `response` to a request made for `user`.
pub struct Callback {
    pub user: String,
    pub response: Response,
    pub channel: u64,
}

impl View for Callback {
    type V = (Seq<char>, ResponseKind, u64);

    open spec fn view(&self) -> (Seq<char>, ResponseKind, u64) {
        (self.user@, self.response@, self.channel)
    }
}

/// The state of one federation connection.
pub struct ServerConnection {
    /// The endpoint id of this session's delivery queue.
    pub channel: u64,
    /// The address this peer is registered under.
    pub server_addr: String,
    /// Pending callbacks, oldest first.
    pub callbacks: Vec<Callback>,
}

/// The user part of `u@addr`: the text before the last `@`, or all of `u` when
/// it names no server.
pub open spec fn home_name(u: Seq<char>) -> Seq<char> {
    match split_at_last(u, '@') {
        Some((n, _)) => n,
        None => u,
    }
}

/// `i` is the oldest callback of `cbs` waiting for `response` for `user`.
pub open spec fn is_oldest(cbs: Seq<(Seq<char>, ResponseKind, u64)>, user: Seq<char>, response: ResponseKind, i: int) -> bool {
    &&& 0 <= i < cbs.len()
    &&& cbs[i].0 == user
    &&& cbs[i].1 == response
    &&& forall|j: int| 0 <= j < i ==> !(cbs[j].0 == user && cbs[j].1 == response)
}

/// Some callback of `cbs` waits for `response` for `user`.
pub open spec fn awaits(cbs: Seq<(Seq<char>, ResponseKind, u64)>, user: Seq<char>, response: ResponseKind) -> bool {
    exists|i: int| 0 <= i < cbs.len() && cbs[i].0 == user && #[trigger] cbs[i].1 == response
}

/// The endpoint of the oldest callback awaiting `response` for `user`, and the
/// table without it; the table unchanged when none awaits it.
pub open spec fn take_reply(cbs: Seq<(Seq<char>, ResponseKind, u64)>, user: Seq<char>, response: ResponseKind) -> (
    Option<u64>,
    Seq<(Seq<char>, ResponseKind, u64)>,
) {
    if awaits(cbs, user, response) {
        let i = choose|i: int| is_oldest(cbs, user, response, i);
        (Some(cbs[i].2), cbs.remove(i))
    } else {
        (None, cbs)
    }
}

proof fn lemma_oldest(cbs: Seq<(Seq<char>, ResponseKind, u64)>, user: Seq<char>, response: ResponseKind, i: int)
    requires
        is_oldest(cbs, user, response, i),
    ensures
        awaits(cbs, user, response),
        (choose|k: int| is_oldest(cbs, user, response, k)) == i,
{
    assert(cbs[i].1 == response);
    let k = choose|k: int| is_oldest(cbs, user, response, k);
    if k < i {
        assert(cbs[k].0 == user && cbs[k].1 == response);
    } else if k > i {
        assert(cbs[i].0 == user && cbs[i].1 == response);
    }
}

/// A forwarded join is answered to the client that made it. The request names
/// `user@addr`; the peer answers for the user part of that name, which is `user`
/// again (a socket address holds no `@`). Once the callback is armed, and no older
/// callback awaits the same reply, that answer goes to `client`, and the table is
/// back to what it was.
pub proof fn callback_correlation(
    cbs: Seq<(Seq<char>, ResponseKind, u64)>,
    user: Seq<char>,
    addr: Seq<char>,
    channel: Seq<char>,
    client: u64,
)
    requires
        !has_char(addr, '@'),
        !awaits(cbs, user, ResponseKind::Join { channel }),
    ensures
        home_name(user + "@"@ + addr) == user,
        take_reply(cbs.push((user, ResponseKind::Join { channel }, client)), home_name(user + "@"@ + addr), ResponseKind::Join { channel })
            == (Some(client), cbs),
{
    reveal_strlit("@");
    let s = user + "@"@ + addr;
    let n = user.len() as int;
    assert(s[n] == '@');
    assert forall|j: int| n < j < s.len() implies s[j] != '@' by {
        assert(s[j] == addr[j - n - 1]);
        if s[j] == '@' {
            assert(has_char(addr, '@'));
        }
    }
    assert(is_last(s, '@', n));
    assert(has_char(s, '@'));
    let k = choose|k: int| is_last(s, '@', k);
    if k < n {
        assert(s[n] == '@');
    } else if k > n {
        assert(s[k] == '@');
    }
    assert(s.subrange(0, n) =~= user);
    let r = ResponseKind::Join { channel };
    let t = cbs.push((user, r, client));
    assert forall|j: int| 0 <= j < cbs.len() implies !(t[j].0 == user && t[j].1 == r) by {
        assert(t[j] == cbs[j]);
        if cbs[j].0 == user && cbs[j].1 == r {
            assert(awaits(cbs, user, r));
        }
    }
    lemma_oldest(t, user, r, cbs.len() as int);
    assert(t.remove(cbs.len() as int) =~= cbs);
}

/// The table of advertised channels after adding `name` to the peer at `k`; a
/// name is never empty, so an empty item adds nothing.
pub open spec fn advertise(peers: Seq<PeerView>, k: int, name: Seq<char>) -> Seq<PeerView> {
    if name.len() == 0 || peers[k].advertised.contains(name) {
        peers
    } else {
        peers.update(k, PeerView { addr: peers[k].addr, endpoint: peers[k].endpoint, advertised: peers[k].advertised.push(name) })
    }
}

/// The peers after registering `ep` under `addr`, with nothing advertised yet;
/// a registration under a known address replaces the earlier one.
pub open spec fn register_peer(peers: Seq<PeerView>, addr: Seq<char>, ep: u64) -> Seq<PeerView> {
    match find_peer(peers, addr) {
        Some(k) => peers.update(k, PeerView { addr, endpoint: ep, advertised: Seq::empty() }),
        None => peers.push(PeerView { addr, endpoint: ep, advertised: Seq::empty() }),
    }
}

/// The reply to a `FEDRESULT ... JOIN`, as the waiting client receives it.
pub open spec fn join_result_text(channel: Seq<char>, status: bool) -> Seq<char> {
    "RESULT JOIN "@ + channel + " "@ + flag(status) + "\n"@
}

/// The reply to a `FEDRESULT ... SAY`, as the waiting client receives it.
pub open spec fn say_result_text(channel: Seq<char>, msg: Seq<char>, status: bool) -> Seq<char> {
    "RESULT SAY "@ + channel + " "@ + msg + " "@ + flag(status) + "\n"@
}

fn home_part(u: &str) -> (r: &str)
    ensures
        r@ == home_name(u@),
{
    match split_last(u, '@') {
        Some((n, _)) => n,
        None => u,
    }
}

impl ServerConnection {
    /// A peer session with no pending callbacks.
    pub fn new(channel: u64, server_addr: String) -> (r: Self)
        ensures
            r.channel == channel,
            r.server_addr@ == server_addr@,
            r.pending().len() == 0,
    {
        let r = ServerConnection { channel, server_addr, callbacks: Vec::new() };
        assert(r.pending() =~= Seq::empty());
        r
    }

    /// The pending callbacks, oldest first.
    pub open spec fn pending(&self) -> Seq<(Seq<char>, ResponseKind, u64)> {
        self.callbacks@.map_values(|c: Callback| c@)
    }

    /// Takes an item off this session's queue: returns the record to write to the
    /// peer, and arms the callback the item carries, if any.
    pub fn deliver(&mut self, msg: ServerMessage) -> (r: String)
        ensures
            final(self).channel == old(self).channel,
            final(self).server_addr == old(self).server_addr,
            match msg@ {
                PeerMessage::Plain(t) => r@ == t && final(self).pending() == old(self).pending(),
                PeerMessage::Arm { client, user, response, text } => {
                    &&& r@ == text
                    &&& final(self).pending() == old(self).pending().push((user, response, client))
                },
            },
    {
        match msg {
            ServerMessage::Message(t) => t,
            ServerMessage::CallbackMessage { channel, user, response, message } => {
                let cb = Callback { user, response, channel };
                self.callbacks.push(cb);
                assert(self.pending() =~= old(self).pending().push(cb@));
                message
            },
        }
    }

    /// The position of the oldest callback awaiting `want` for `user`.
    fn find_callback(&self, user: &str, want: &Response) -> (r: Option<usize>)
        ensures
            r is None ==> !awaits(self.pending(), user@, want@),
            r matches Some(i) ==> is_oldest(self.pending(), user@, want@, i as int),
    {
        let mut i: usize = 0;
        while i < self.callbacks.len()
            invariant
                i <= self.callbacks@.len(),
                forall|j: int| 0 <= j < i ==> !(self.pending()[j].0 == user@ && self.pending()[j].1 == want@),
            decreases self.callbacks@.len() - i,
        {
            let cb = &self.callbacks[i];
            assert(self.pending()[i as int] == cb@);
            if same_text(cb.user.as_str(), user) && same_response(&cb.response, want) {
                return Some(i);
            }
            i = i + 1;
        }
        proof {
            if awaits(self.pending(), user@, want@) {
                let k = choose|k: int| 0 <= k < self.pending().len() && self.pending()[k].0 == user@ && #[trigger] self.pending()[k].1 == want@;
            }
        }
        None
    }

    /// Removes and returns the endpoint of the oldest callback awaiting `want` for `user`.
    fn take_callback(&mut self, user: &str, want: &Response) -> (r: Option<u64>)
        ensures
            (r, final(self).pending()) == take_reply(old(self).pending(), user@, want@),
            final(self).channel == old(self).channel,
            final(self).server_addr == old(self).server_addr,
    {
        match self.find_callback(user, want) {
            None => None,
            Some(i) => {
                proof {
                    lemma_oldest(self.pending(), user@, want@, i as int);
                }
                let cb = self.callbacks.remove(i);
                assert(self.pending() =~= old(self).pending().remove(i as int));
                Some(cb.channel)
            },
        }
    }

    /// Handles `FEDRESULT user JOIN channel status`: hands the result to the client
    /// whose callback awaited it.
    pub fn fed_result_join(&mut self, user: &str, channel: &str, status: bool, out: &mut Vec<Delivery>)
        ensures
            final(self).channel == old(self).channel,
            final(self).server_addr == old(self).server_addr,
            final(self).pending() == take_reply(old(self).pending(), user@, ResponseKind::Join { channel: channel@ }).1,
            match take_reply(old(self).pending(), user@, ResponseKind::Join { channel: channel@ }).0 {
                Some(ep) => sent(final(out)@) == sent(old(out)@).push(Sent::Client { to: ep, text: join_result_text(channel@, status) }),
                None => final(out)@ == old(out)@,
            },
    {
        let want = Response::Join { channel: String::from_str(channel) };
        if let Some(ep) = self.take_callback(user, &want) {
            let d = Delivery::Client { to: ep, text: concat5("RESULT JOIN ", channel, " ", flag_text(status), "\n") };
            let ghost prev = out@;
            out.push(d);
            assert(sent(out@) =~= sent(prev).push(d@));
        }
    }

    /// Handles `FEDRESULT user SAY channel status msg`: hands the result to the
    /// client whose callback awaited it.
    pub fn fed_result_say(&mut self, user: &str, channel: &str, status: bool, msg: &str, out: &mut Vec<Delivery>)
        ensures
            final(self).channel == old(self).channel,
            final(self).server_addr == old(self).server_addr,
            final(self).pending() == take_reply(
                old(self).pending(),
                user@,
                ResponseKind::Say { channel: channel@, message: msg@ },
            ).1,
            match take_reply(old(self).pending(), user@, ResponseKind::Say { channel: channel@, message: msg@ }).0 {
                Some(ep) => sent(final(out)@) == sent(old(out)@).push(Sent::Client { to: ep, text: say_result_text(channel@, msg@, status) }),
                None => final(out)@ == old(out)@,
            },
    {
        let want = Response::Say { channel: String::from_str(channel), message: String::from_str(msg) };
        if let Some(ep) = self.take_callback(user, &want) {
            let t = concat7("RESULT SAY ", channel, " ", msg, " ", flag_text(status), "\n");
            let d = Delivery::Client { to: ep, text: t };
            let ghost prev = out@;
            out.push(d);
            assert(sent(out@) =~= sent(prev).push(d@));
        }
    }
}

fn same_response(a: &Response, b: &Response) -> (r: bool)
    ensures
        r == (a@ == b@),
{
    match (a, b) {
        (Response::Join { channel: x }, Response::Join { channel: y }) => same_text(x.as_str(), y.as_str()),
        (Response::Say { channel: x, message: m }, Response::Say { channel: y, message: n }) => {
            same_text(x.as_str(), y.as_str()) && same_text(m.as_str(), n.as_str())
        },
        _ => false,
    }
}

/// The peers after the peer at `k` advertised each of `names` in turn.
pub open spec fn advertise_all(peers: Seq<PeerView>, k: int, names: Seq<Seq<char>>) -> Seq<PeerView>
    decreases names.len(),
{
    if names.len() == 0 {
        peers
    } else {
        advertise(advertise_all(peers, k, names.drop_last()), k, names.last())
    }
}

/// `names` is the list `text`, split at each `", "`.
pub open spec fn is_list_of(names: Seq<Seq<char>>, text: Seq<char>) -> bool {
    &&& names.len() >= 1
    &&& join_list(names) == text
    &&& forall|i: int| 0 <= i < names.len() ==> !has_sep(#[trigger] names[i])
}

/// What `FEDCHANNELS text` from the peer under `addr` does to the peers `peers0`:
/// that peer advertises each item of the list in turn; nothing changes for an
/// unknown peer.
pub open spec fn channels_effect(peers0: Seq<PeerView>, addr: Seq<char>, text: Seq<char>, peers1: Seq<PeerView>) -> bool {
    match find_peer(peers0, addr) {
        Some(k) => exists|names: Seq<Seq<char>>| is_list_of(names, text) && peers1 == advertise_all(peers0, k, names),
        None => peers1 == peers0,
    }
}

/// An empty `FEDCHANNELS` list names no channel: it leaves the peers unchanged.
pub proof fn empty_list_adds_nothing(peers0: Seq<PeerView>, addr: Seq<char>, peers1: Seq<PeerView>)
    requires
        channels_effect(peers0, addr, Seq::empty(), peers1),
    ensures
        peers1 == peers0,
{
    if let Some(k) = find_peer(peers0, addr) {
        let names = choose|names: Seq<Seq<char>>|
            is_list_of(names, Seq::empty()) && peers1 == advertise_all(peers0, k, names);
        if names.len() >= 2 {
            assert(join_list(names).len() >= 2);
        }
        assert(names.len() == 1);
        assert(names.drop_last().len() == 0);
        assert(names.last().len() == 0);
        assert(advertise_all(peers0, k, names.drop_last()) == peers0);
        assert(advertise_all(peers0, k, names) == advertise(peers0, k, names.last()));
    }
}

/// The reply to `FEDJOIN user channel`.
pub open spec fn fed_join_reply(user: Seq<char>, channel: Seq<char>, ok: bool) -> Seq<char> {
    "FEDRESULT "@ + user + " JOIN "@ + channel + " "@ + flag(ok) + "\n"@
}

/// The reply to `FEDSAY user channel msg`.
pub open spec fn fed_say_reply(user: Seq<char>, channel: Seq<char>, msg: Seq<char>, ok: bool) -> Seq<char> {
    "FEDRESULT "@ + user + " SAY "@ + channel + " "@ + flag(ok) + " "@ + msg + "\n"@
}

/// Peer addresses are unique.
pub open spec fn peers_wf(peers: Seq<PeerView>) -> bool {
    forall|i: int, j: int| 0 <= i < peers.len() && 0 <= j < peers.len() && i != j ==> peers[i].addr != peers[j].addr
}

impl Server {
    /// Records `conn` as the peer known under its address, with nothing advertised.
    pub fn add_peer(&mut self, conn: &ServerConnection)
        requires
            old(self).wf(),
        ensures
            final(self).wf(),
            final(self).peers() == register_peer(old(self).peers(), conn.server_addr@, conn.channel),
            final(self).accounts() == old(self).accounts(),
            final(self).conns() == old(self).conns(),
            final(self).rooms() == old(self).rooms(),
            final(self).port == old(self).port,
    {
        let ghost peers0 = self.peers();
        let ghost addr = conn.server_addr@;
        let rec = RemoteServer { addr: conn.server_addr.clone(), channel: conn.channel, channels: Vec::new() };
        assert(rec@.advertised =~= Seq::<Seq<char>>::empty());
        match self.find_server(conn.server_addr.as_str()) {
            Some(k) => {
                proof {
                    let j = choose|j: int| 0 <= j < peers0.len() && #[trigger] peers0[j].addr == addr;
                }
                self.servers.set(k, rec);
                assert(self.peers() =~= peers0.update(k as int, rec@));
            },
            None => {
                proof {
                    assert forall|j: int| 0 <= j < peers0.len() implies peers0[j].addr != addr by {
                        if peers0[j].addr == addr {
                            assert(exists|i: int| 0 <= i < peers0.len() && #[trigger] peers0[i].addr == addr);
                        }
                    }
                }
                self.servers.push(rec);
                assert(self.peers() =~= peers0.push(rec@));
            },
        }
        assert(self.rooms() == old(self).rooms());
        assert(self.accounts() == old(self).accounts());
        assert(self.conns() == old(self).conns());
    }

    /// Handles `FEDERATEOUT`: registers the peer and confirms.
    pub fn fed_out(&mut self, conn: &ServerConnection) -> (r: Option<String>)
        requires
            old(self).wf(),
        ensures
            final(self).wf(),
            reply_is(r, "FEDCONFIRM\n"@),
            final(self).peers() == register_peer(old(self).peers(), conn.server_addr@, conn.channel),
            final(self).accounts() == old(self).accounts(),
            final(self).conns() == old(self).conns(),
            final(self).rooms() == old(self).rooms(),
            final(self).port == old(self).port,
    {
        self.add_peer(conn);
        Some(String::from_str("FEDCONFIRM\n"))
    }

    /// Handles `FEDCONFIRM`: registers the peer and sends it the local channel names.
    pub fn fed_confirm(&mut self, conn: &ServerConnection) -> (r: Option<String>)
        requires
            old(self).wf(),
        ensures
            final(self).wf(),
            reply_is(r, "FEDCHANNELS"@ + list_text(room_names(old(self).rooms())) + "\n"@),
            final(self).peers() == register_peer(old(self).peers(), conn.server_addr@, conn.channel),
            final(self).accounts() == old(self).accounts(),
            final(self).conns() == old(self).conns(),
            final(self).rooms() == old(self).rooms(),
            final(self).port == old(self).port,
    {
        self.add_peer(conn);
        let mut s = String::from_str("FEDCHANNELS");
        self.list_channels(&mut s);
        Some(s)
    }

    /// Adds `name` to the channels advertised by the peer at `k`.
    fn advertise_at(&mut self, k: usize, name: &str)
        requires
            old(self).wf(),
            k < old(self).servers@.len(),
        ensures
            final(self).wf(),
            final(self).peers() == advertise(old(self).peers(), k as int, name@),
            final(self).servers@.len() == old(self).servers@.len(),
            final(self).accounts() == old(self).accounts(),
            final(self).conns() == old(self).conns(),
            final(self).rooms() == old(self).rooms(),
            final(self).port == old(self).port,
    {
        if name.is_empty() {
            return;
        }
        let ghost peers0 = self.peers();
        assert(peers0[k as int] == self.servers@[k as int]@);
        let ghost adv = peers0[k as int].advertised;
        let mut i: usize = 0;
        let n = self.servers[k].channels.len();
        while i < n
            invariant
                *self == *old(self),
                peers0 == self.peers(),
                self.wf(),
                k < self.servers@.len(),
                n == self.servers@[k as int].channels@.len(),
                adv == self.servers@[k as int]@.advertised,
                i <= n,
                forall|j: int| 0 <= j < i ==> adv[j] != name@,
            decreases n - i,
        {
            if same_text(self.servers[k].channels[i].as_str(), name) {
                assert(adv[i as int] == name@);
                assert(adv.contains(name@));
                return;
            }
            i = i + 1;
        }
        assert(!adv.contains(name@));
        let mut rec = self.servers.remove(k);
        rec.channels.push(String::from_str(name));
        assert(rec@.advertised =~= adv.push(name@));
        self.servers.insert(k, rec);
        assert(self.peers() =~= advertise(peers0, k as int, name@));
        assert(self.rooms() == old(self).rooms());
        assert(self.accounts() == old(self).accounts());
        assert(self.conns() == old(self).conns());
        assert(peers_wf(self.peers())) by {
            assert forall|j: int| 0 <= j < self.peers().len() implies #[trigger] self.peers()[j].addr == peers0[j].addr by {}
        }
    }

    /// Handles `FEDNEW name`: the peer of `conn` advertises one more channel.
    /// Nothing happens for a peer that is not registered.
    pub fn fed_new(&mut self, conn: &ServerConnection, channel: &str) -> (r: Option<String>)
        requires
            old(self).wf(),
        ensures
            final(self).wf(),
            r is None,
            final(self).peers() == match find_peer(old(self).peers(), conn.server_addr@) {
                Some(k) => advertise(old(self).peers(), k, channel@),
                None => old(self).peers(),
            },
            final(self).accounts() == old(self).accounts(),
            final(self).conns() == old(self).conns(),
            final(self).rooms() == old(self).rooms(),
            final(self).port == old(self).port,
    {
        if let Some(k) = self.find_server(conn.server_addr.as_str()) {
            self.advertise_at(k, channel);
        }
        None
    }

    /// Handles `FEDJOIN user@addr channel`: adds `user@addr` as a member reached
    /// through the peer of `conn`, and reports to the peer, for the user part of
    /// the name, whether that succeeded.
    pub fn fed_join(&mut self, conn: &ServerConnection, user: &str, channel: &str) -> (r: Option<String>)
        requires
            old(self).wf(),
        ensures
            final(self).wf(),
            final(self).rooms() == add_member_model(old(self).rooms(), channel@, user@, User::Remote(conn.channel)).0,
            reply_is(r, fed_join_reply(home_name(user@), channel@, add_member_model(old(self).rooms(), channel@, user@, User::Remote(conn.channel)).1)),
            final(self).accounts() == old(self).accounts(),
            final(self).conns() == old(self).conns(),
            final(self).peers() == old(self).peers(),
            final(self).port == old(self).port,
    {
        let ok = self.add_member(channel, user, User::Remote(conn.channel));
        let s = concat7("FEDRESULT ", home_part(user), " JOIN ", channel, " ", flag_text(ok), "\n");
        Some(s)
    }

    /// Handles `FEDSAY user channel msg`: fans the message out as if `user` had
    /// spoken in `channel`, and reports whether the channel accepted the speaker.
    pub fn fed_say(&self, user: &str, channel: &str, msg: &str, out: &mut Vec<Delivery>) -> (r: Option<String>)
        requires
            self.wf(),
        ensures
            reply_is(r, fed_say_reply(user@, channel@, msg@, may_speak(self.rooms(), channel@, user@))),
            may_speak(self.rooms(), channel@, user@) ==> sent(final(out)@) == sent(old(out)@) + fan_out_records(
                members_of(self.rooms(), channel@),
                user@,
                channel@,
                msg@,
            ),
            !may_speak(self.rooms(), channel@, user@) ==> final(out)@ == old(out)@,
    {
        let ok = self.fan_out(user, channel, msg, out);
        let mut s = concat7("FEDRESULT ", user, " SAY ", channel, " ", flag_text(ok), " ");
        s.append(msg);
        s.append("\n");
        Some(s)
    }

    /// Handles `FEDRECV to from channel msg`: delivers the message to the live
    /// endpoint of the user `to` names, if there is one.
    pub fn fed_recv(&self, to_user: &str, from_user: &str, channel: &str, msg: &str, out: &mut Vec<Delivery>) -> (r: Option<String>)
        requires
            self.wf(),
        ensures
            r is None,
            match lookup(self.conns(), home_name(to_user@)) {
                Some(ep) => sent(final(out)@) == sent(old(out)@).push(
                    Sent::Client { to: ep, text: recv_text(from_user@, channel@, msg@) },
                ),
                None => final(out)@ == old(out)@,
            },
    {
        if let Some(i) = self.find_conn(home_part(to_user)) {
            proof {
                lemma_index_of(self.conns(), i as int);
            }
            assert(self.conns()[i as int].1 == self.user_conns@[i as int].channel);
            let d = Delivery::Client { to: self.user_conns[i].channel, text: concat7("RECV ", from_user, " ", channel, " ", msg, "\n") };
            let ghost prev = out@;
            out.push(d);
            assert(sent(out@) =~= sent(prev).push(d@));
        }
        None
    }

    /// Handles `FEDCHANNELS list`: the peer of `conn` advertises each channel of
    /// the `", "`-separated list; empty items name no channel. Nothing happens for a peer that is not registered.
    pub fn fed_channels(&mut self, conn: &ServerConnection, channels: &str) -> (r: Option<String>)
        requires
            old(self).wf(),
        ensures
            final(self).wf(),
            r is None,
            channels_effect(old(self).peers(), conn.server_addr@, channels@, final(self).peers()),
            final(self).accounts() == old(self).accounts(),
            final(self).conns() == old(self).conns(),
            final(self).rooms() == old(self).rooms(),
            final(self).port == old(self).port,
    {
        let k = match self.find_server(conn.server_addr.as_str()) {
            Some(k) => k,
            None => return None,
        };
        let items = split_list(channels);
        let ghost names = views(items@);
        let ghost peers0 = self.peers();
        let mut i: usize = 0;
        while i < items.len()
            invariant
                i <= items@.len(),
                names == views(items@),
                k < self.servers@.len(),
                self.wf(),
                self.peers() == advertise_all(peers0, k as int, names.take(i as int)),
                self.accounts() == old(self).accounts(),
                self.conns() == old(self).conns(),
                self.rooms() == old(self).rooms(),
                self.port == old(self).port,
            decreases items@.len() - i,
        {
            self.advertise_at(k, items[i]);
            assert(names.take(i + 1).drop_last() =~= names.take(i as int));
            i = i + 1;
        }
        assert(names.take(i as int) =~= names);
        assert(is_list_of(names, channels@)) by {
            assert forall|j: int| 0 <= j < names.len() implies !has_sep(#[trigger] names[j]) by {
                assert(names[j] == items@[j]@);
            }
        }
        None
    }
}

} // verus!
