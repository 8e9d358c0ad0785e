//! The shared directory: accounts, live user endpoints, channels and peer servers.
use vstd::prelude::*;
use crate::keyed::{has_key, unique_keys, lemma_push_fresh};
use crate::model::{Account, Channel, ChannelView, PeerView, RemoteServer, UserConn};
use crate::text::same_text;

verus! {

/// The server's in-memory state.
pub struct Server {
    pub port: u16,
    pub users: Vec<Account>,
    pub user_conns: Vec<UserConn>,
    pub channels: Vec<Channel>,
    pub servers: Vec<RemoteServer>,
}

/// The channel names of a list of channels.
pub open spec fn room_names(rooms: Seq<ChannelView>) -> Seq<Seq<char>> {
    rooms.map_values(|c: ChannelView| c.name)
}

/// The position of the channel named `name`.
pub open spec fn find_room(rooms: Seq<ChannelView>, name: Seq<char>) -> Option<int> {
    if room_names(rooms).contains(name) {
        Some(choose|i: int| 0 <= i < rooms.len() && #[trigger] rooms[i].name == name)
    } else {
        None
    }
}

/// The position of the peer known under `addr`.
pub open spec fn find_peer(peers: Seq<PeerView>, addr: Seq<char>) -> Option<int> {
    if exists|i: int| 0 <= i < peers.len() && #[trigger] peers[i].addr == addr {
        Some(choose|i: int| 0 <= i < peers.len() && #[trigger] peers[i].addr == addr)
    } else {
        None
    }
}

/// The accounts after `REGISTER u p`, and whether it succeeded.
pub open spec fn register_model(accounts: Seq<(Seq<char>, Seq<char>)>, u: Seq<char>, p: Seq<char>) -> (
    Seq<(Seq<char>, Seq<char>)>,
    bool,
) {
    if has_key(accounts, u) {
        (accounts, false)
    } else {
        (accounts.push((u, p)), true)
    }
}

/// Channel names unique, and member names unique within each channel.
pub open spec fn rooms_wf(rooms: Seq<ChannelView>) -> bool {
    &&& forall|i: int, j: int| 0 <= i < rooms.len() && 0 <= j < rooms.len() && i != j ==> rooms[i].name != rooms[j].name
    &&& forall|i: int| 0 <= i < rooms.len() ==> unique_keys(#[trigger] rooms[i].members)
}

pub proof fn lemma_find_room(rooms: Seq<ChannelView>, i: int)
    requires
        rooms_wf(rooms),
        0 <= i < rooms.len(),
    ensures
        find_room(rooms, rooms[i].name) == Some(i),
{
    let n = rooms[i].name;
    assert(room_names(rooms)[i] == n);
    let j = choose|j: int| 0 <= j < rooms.len() && #[trigger] rooms[j].name == n;
    assert(j == i);
}

pub proof fn lemma_no_room(rooms: Seq<ChannelView>, name: Seq<char>)
    requires
        find_room(rooms, name) is None,
    ensures
        forall|i: int| 0 <= i < rooms.len() ==> rooms[i].name != name,
{
    assert forall|i: int| 0 <= i < rooms.len() implies rooms[i].name != name by {
        if rooms[i].name == name {
            assert(room_names(rooms)[i] == name);
        }
    }
}

/// `1` or `0`.
pub open spec fn flag(b: bool) -> Seq<char> {
    if b {
        "1"@
    } else {
        "0"@
    }
}

/// The reply to a `REGISTER`.
pub open spec fn register_reply(ok: bool) -> Seq<char> {
    "RESULT REGISTER "@ + flag(ok) + "\n"@
}

/// A user may register a name only once: a second `REGISTER` of a name fails,
/// whatever the password, and names stay unique.
pub proof fn register_succeeds_once(
    accounts: Seq<(Seq<char>, Seq<char>)>,
    u: Seq<char>,
    p: Seq<char>,
    q: Seq<char>,
)
    requires
        unique_keys(accounts),
    ensures
        unique_keys(register_model(accounts, u, p).0),
        register_model(accounts, u, p).1 ==> !has_key(accounts, u),
        !register_model(register_model(accounts, u, p).0, u, q).1,
{
    if !has_key(accounts, u) {
        lemma_push_fresh(accounts, (u, p));
    } else {
        let i = choose|i: int| 0 <= i < accounts.len() && #[trigger] accounts[i].0 == u;
    }
    let a = register_model(accounts, u, p).0;
    assert(a[a.len() - 1].0 == u || has_key(accounts, u));
}

pub(crate) fn flag_text(b: bool) -> (r: &'static str)
    ensures
        r@ == flag(b),
{
    if b {
        "1"
    } else {
        "0"
    }
}

impl Server {
    /// The accounts as (name, password) pairs.
    pub open spec fn accounts(&self) -> Seq<(Seq<char>, Seq<char>)> {
        self.users@.map_values(|a: Account| a@)
    }

    /// The live user endpoints as (name, endpoint) pairs.
    pub open spec fn conns(&self) -> Seq<(Seq<char>, u64)> {
        self.user_conns@.map_values(|c: UserConn| c@)
    }

    /// The channels.
    pub open spec fn rooms(&self) -> Seq<ChannelView> {
        self.channels@.map_values(|c: Channel| c@)
    }

    /// The known peers.
    pub open spec fn peers(&self) -> Seq<PeerView> {
        self.servers@.map_values(|s: RemoteServer| s@)
    }

    /// Names, channel names, members of a channel and peer addresses are unique.
    pub open spec fn wf(&self) -> bool {
        &&& unique_keys(self.accounts())
        &&& unique_keys(self.conns())
        &&& rooms_wf(self.rooms())
        &&& forall|i: int, j: int|
            0 <= i < self.peers().len() && 0 <= j < self.peers().len() && i != j
                ==> self.peers()[i].addr != self.peers()[j].addr
    }

    /// An empty directory for a server listening on `port`.
    pub fn new(port: u16) -> (r: Self)
        ensures
            r.wf(),
            r.port == port,
            r.accounts().len() == 0,
            r.conns().len() == 0,
            r.rooms().len() == 0,
            r.peers().len() == 0,
    {
        let r = Server {
            port,
            users: Vec::new(),
            user_conns: Vec::new(),
            channels: Vec::new(),
            servers: Vec::new(),
        };
        assert(r.accounts() =~= Seq::empty());
        assert(r.conns() =~= Seq::empty());
        assert(r.rooms() =~= Seq::empty());
        assert(r.peers() =~= Seq::empty());
        r
    }

    /// The position of the account named `u`.
    pub(crate) fn find_account(&self, u: &str) -> (r: Option<usize>)
        ensures
            r is None ==> !has_key(self.accounts(), u@),
            r matches Some(i) ==> i < self.users@.len() && self.accounts()[i as int].0 == u@,
    {
        let mut i: usize = 0;
        while i < self.users.len()
            invariant
                i <= self.users@.len(),
                forall|j: int| 0 <= j < i ==> self.accounts()[j].0 != u@,
            decreases self.users@.len() - i,
        {
            if same_text(self.users[i].name.as_str(), u) {
                return Some(i);
            }
            i = i + 1;
        }
        proof {
            if has_key(self.accounts(), u@) {
                let k = choose|k: int| 0 <= k < self.accounts().len() && #[trigger] self.accounts()[k].0 == u@;
            }
        }
        None
    }

    /// Creates the account `username` with `password` unless the name is taken.
    pub fn register(&mut self, username: &str, password: &str) -> (r: String)
        requires
            old(self).wf(),
        ensures
            final(self).wf(),
            final(self).accounts() == register_model(old(self).accounts(), username@, password@).0,
            r@ == register_reply(register_model(old(self).accounts(), username@, password@).1),
            final(self).conns() == old(self).conns(),
            final(self).rooms() == old(self).rooms(),
            final(self).peers() == old(self).peers(),
            final(self).port == old(self).port,
    {
        match self.find_account(username) {
            Some(_) => {
                let mut s = String::from_str("RESULT REGISTER ");
                s.append(flag_text(false));
                s.append("\n");
                s
            },
            None => {
                proof {
                    lemma_push_fresh(self.accounts(), (username@, password@));
                }
                self.users.push(Account { name: String::from_str(username), password: String::from_str(password) });
                assert(self.accounts() =~= old(self).accounts().push((username@, password@)));
                assert(self.rooms() == old(self).rooms());
                assert(self.peers() == old(self).peers());
                assert(unique_keys(self.accounts()));
                let mut s = String::from_str("RESULT REGISTER ");
                s.append(flag_text(true));
                s.append("\n");
                s
            },
        }
    }
}

} // verus!
