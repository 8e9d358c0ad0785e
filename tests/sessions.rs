use fedchat::client::ClientConnection;
use fedchat::directory::Server;
use fedchat::dispatch::{handle_client_request, handle_server_request};
use fedchat::model::{Delivery, ServerMessage};
use fedchat::parse::{parse_client, parse_server};
use fedchat::peer::ServerConnection;

fn client(server: &mut Server, conn: &mut ClientConnection, line: &str, out: &mut Vec<Delivery>) -> Option<String> {
    let req = parse_client(line).expect("a client record");
    handle_client_request(server, conn, req, out)
}

fn peer(server: &mut Server, conn: &mut ServerConnection, line: &str, out: &mut Vec<Delivery>) -> Option<String> {
    let req = parse_server(line).expect("a federation record");
    handle_server_request(server, conn, req, out)
}

fn to_client(out: &[Delivery]) -> Vec<(u64, String)> {
    out.iter()
        .filter_map(|d| match d {
            Delivery::Client { to, text } => Some((*to, text.clone())),
            _ => None,
        })
        .collect()
}

fn plain_to_peer(out: &[Delivery]) -> Vec<(u64, String)> {
    out.iter()
        .filter_map(|d| match d {
            Delivery::Peer { to, msg: ServerMessage::Message(t) } => Some((*to, t.clone())),
            _ => None,
        })
        .collect()
}

fn reply(r: Option<String>) -> String {
    r.expect("a reply")
}

fn logged_in(server: &mut Server, id: u64, name: &str) -> ClientConnection {
    let mut c = ClientConnection::new(id, "127.0.0.1:7000".to_string());
    let mut out = Vec::new();
    client(server, &mut c, &format!("REGISTER {} pw", name), &mut out);
    assert_eq!(reply(client(server, &mut c, &format!("LOGIN {} pw", name), &mut out)), "RESULT LOGIN 1\n");
    c
}

#[test]
fn single_instance_conversation() {
    let mut s = Server::new(7000);
    let mut out = Vec::new();
    let mut x = ClientConnection::new(1, "127.0.0.1:7000".to_string());
    let mut y = ClientConnection::new(2, "127.0.0.1:7000".to_string());
    assert_eq!(reply(client(&mut s, &mut x, "REGISTER alice pw", &mut out)), "RESULT REGISTER 1\n");
    assert_eq!(reply(client(&mut s, &mut x, "LOGIN alice pw", &mut out)), "RESULT LOGIN 1\n");
    assert_eq!(reply(client(&mut s, &mut x, "CREATE lobby", &mut out)), "RESULT CREATE lobby 1\n");
    assert_eq!(reply(client(&mut s, &mut x, "JOIN lobby", &mut out)), "RESULT JOIN lobby 1\n");
    assert_eq!(reply(client(&mut s, &mut y, "REGISTER bob pw", &mut out)), "RESULT REGISTER 1\n");
    assert_eq!(reply(client(&mut s, &mut y, "LOGIN bob pw", &mut out)), "RESULT LOGIN 1\n");
    assert_eq!(reply(client(&mut s, &mut y, "JOIN lobby", &mut out)), "RESULT JOIN lobby 1\n");
    assert!(out.is_empty());
    assert_eq!(reply(client(&mut s, &mut x, "SAY lobby hi there", &mut out)), "RESULT SAY lobby 1\n");
    assert_eq!(
        to_client(&out),
        vec![(1, "RECV alice lobby hi there\n".to_string()), (2, "RECV alice lobby hi there\n".to_string())]
    );
}

#[test]
fn duplicate_register_fails() {
    let mut s = Server::new(7000);
    let mut out = Vec::new();
    let mut x = ClientConnection::new(1, "127.0.0.1:7000".to_string());
    assert_eq!(reply(client(&mut s, &mut x, "REGISTER alice pw", &mut out)), "RESULT REGISTER 1\n");
    assert_eq!(reply(client(&mut s, &mut x, "REGISTER alice pw2", &mut out)), "RESULT REGISTER 0\n");
    assert_eq!(reply(client(&mut s, &mut x, "LOGIN alice pw2", &mut out)), "RESULT LOGIN 0\n");
    assert_eq!(reply(client(&mut s, &mut x, "LOGIN alice pw", &mut out)), "RESULT LOGIN 1\n");
}

#[test]
fn login_with_unknown_name_fails() {
    let mut s = Server::new(7000);
    let mut out = Vec::new();
    let mut x = ClientConnection::new(1, "127.0.0.1:7000".to_string());
    assert_eq!(reply(client(&mut s, &mut x, "LOGIN nobody pw", &mut out)), "RESULT LOGIN 0\n");
    assert!(x.username.is_none());
}

#[test]
fn channel_listing() {
    let mut s = Server::new(7000);
    let mut out = Vec::new();
    let mut x = ClientConnection::new(1, "127.0.0.1:7000".to_string());
    assert_eq!(reply(client(&mut s, &mut x, "CHANNELS", &mut out)), "RESULT CHANNELS\n");
    client(&mut s, &mut x, "CREATE lobby", &mut out);
    assert_eq!(reply(client(&mut s, &mut x, "CHANNELS", &mut out)), "RESULT CHANNELS lobby\n");
    client(&mut s, &mut x, "CREATE games", &mut out);
    assert_eq!(reply(client(&mut s, &mut x, "CHANNELS", &mut out)), "RESULT CHANNELS lobby, games\n");
}

#[test]
fn duplicate_create_fails() {
    let mut s = Server::new(7000);
    let mut out = Vec::new();
    let mut x = ClientConnection::new(1, "127.0.0.1:7000".to_string());
    assert_eq!(reply(client(&mut s, &mut x, "CREATE lobby", &mut out)), "RESULT CREATE lobby 1\n");
    assert_eq!(reply(client(&mut s, &mut x, "CREATE lobby", &mut out)), "RESULT CREATE lobby 0\n");
}

#[test]
fn second_join_fails() {
    let mut s = Server::new(7000);
    let mut out = Vec::new();
    let mut x = logged_in(&mut s, 1, "alice");
    client(&mut s, &mut x, "CREATE lobby", &mut out);
    assert_eq!(reply(client(&mut s, &mut x, "JOIN lobby", &mut out)), "RESULT JOIN lobby 1\n");
    assert_eq!(reply(client(&mut s, &mut x, "JOIN lobby", &mut out)), "RESULT JOIN lobby 0\n");
}

#[test]
fn anonymous_and_unknown_joins_fail() {
    let mut s = Server::new(7000);
    let mut out = Vec::new();
    let mut anon = ClientConnection::new(9, "127.0.0.1:7000".to_string());
    client(&mut s, &mut anon, "CREATE lobby", &mut out);
    assert_eq!(reply(client(&mut s, &mut anon, "JOIN lobby", &mut out)), "RESULT JOIN lobby 0\n");
    assert_eq!(reply(client(&mut s, &mut anon, "JOIN lobby:127.0.0.1:9", &mut out)), "RESULT JOIN lobby:127.0.0.1:9 0\n");
    let mut x = logged_in(&mut s, 1, "alice");
    assert_eq!(reply(client(&mut s, &mut x, "JOIN nowhere", &mut out)), "RESULT JOIN nowhere 0\n");
}

#[test]
fn say_requires_membership() {
    let mut s = Server::new(7000);
    let mut out = Vec::new();
    let mut x = logged_in(&mut s, 1, "alice");
    let mut anon = ClientConnection::new(9, "127.0.0.1:7000".to_string());
    client(&mut s, &mut x, "CREATE lobby", &mut out);
    assert_eq!(reply(client(&mut s, &mut x, "SAY lobby hi", &mut out)), "RESULT SAY lobby 0\n");
    assert_eq!(reply(client(&mut s, &mut anon, "SAY lobby hi", &mut out)), "RESULT SAY lobby 0\n");
    assert_eq!(reply(client(&mut s, &mut x, "SAY nowhere hi", &mut out)), "RESULT SAY nowhere 0\n");
    assert!(out.is_empty());
}

#[test]
fn create_announces_to_every_peer() {
    let mut s = Server::new(7000);
    let mut out = Vec::new();
    let mut p1 = ServerConnection::new(10, "10.0.0.1:1".to_string());
    let mut p2 = ServerConnection::new(11, "10.0.0.2:2".to_string());
    assert_eq!(reply(peer(&mut s, &mut p1, "FEDERATEOUT", &mut out)), "FEDCONFIRM\n");
    assert_eq!(reply(peer(&mut s, &mut p2, "FEDCONFIRM", &mut out)), "FEDCHANNELS\n");
    let mut x = ClientConnection::new(1, "127.0.0.1:7000".to_string());
    assert_eq!(reply(client(&mut s, &mut x, "CREATE room", &mut out)), "RESULT CREATE room 1\n");
    assert_eq!(plain_to_peer(&out), vec![(10, "FEDNEW room\n".to_string()), (11, "FEDNEW room\n".to_string())]);
    out.clear();
    client(&mut s, &mut x, "CREATE room", &mut out);
    assert!(out.is_empty());
}

#[test]
fn confirm_lists_local_channels() {
    let mut s = Server::new(7000);
    let mut out = Vec::new();
    let mut x = ClientConnection::new(1, "127.0.0.1:7000".to_string());
    client(&mut s, &mut x, "CREATE a", &mut out);
    client(&mut s, &mut x, "CREATE b", &mut out);
    let mut p = ServerConnection::new(10, "10.0.0.1:1".to_string());
    assert_eq!(reply(peer(&mut s, &mut p, "FEDCONFIRM", &mut out)), "FEDCHANNELS a, b\n");
}

#[test]
fn advertised_channels_are_recorded() {
    let mut s = Server::new(7000);
    let mut out = Vec::new();
    let mut p = ServerConnection::new(10, "10.0.0.1:1".to_string());
    peer(&mut s, &mut p, "FEDERATEOUT", &mut out);
    assert!(peer(&mut s, &mut p, "FEDCHANNELS x, y,, z", &mut out).is_none());
    assert!(peer(&mut s, &mut p, "FEDNEW w", &mut out).is_none());
    assert!(peer(&mut s, &mut p, "FEDNEW x", &mut out).is_none());
    assert_eq!(s.servers.len(), 1);
    assert_eq!(s.servers[0].channels, vec!["x".to_string(), "y,".to_string(), "z".to_string(), "w".to_string()]);
}

#[test]
fn unregistered_peer_advertisements_are_ignored() {
    let mut s = Server::new(7000);
    let mut out = Vec::new();
    let mut p = ServerConnection::new(10, "10.0.0.1:1".to_string());
    assert!(peer(&mut s, &mut p, "FEDNEW w", &mut out).is_none());
    assert!(peer(&mut s, &mut p, "FEDCHANNELS a", &mut out).is_none());
    assert!(s.servers.is_empty());
}

#[test]
fn remote_join_round_trip() {
    // Instance A: alice joins B's room through the peer link to B.
    let mut a = Server::new(7000);
    let mut out = Vec::new();
    let mut link = ServerConnection::new(20, "127.0.0.1:8000".to_string());
    peer(&mut a, &mut link, "FEDCONFIRM", &mut out);
    let mut alice = logged_in(&mut a, 1, "alice");
    alice.server_addr = "127.0.0.1:7000".to_string();
    assert!(client(&mut a, &mut alice, "JOIN room:127.0.0.1:8000", &mut out).is_none());
    assert_eq!(out.len(), 1);
    let armed = out.pop().unwrap();
    let msg = match armed {
        Delivery::Peer { to, msg } => {
            assert_eq!(to, 20);
            msg
        }
        _ => panic!("not for the peer"),
    };
    assert_eq!(link.deliver(msg), "FEDJOIN alice@127.0.0.1:7000 room\n");
    assert_eq!(link.callbacks.len(), 1);
    assert!(peer(&mut a, &mut link, "FEDRESULT alice JOIN room 1", &mut out).is_none());
    assert_eq!(to_client(&out), vec![(1, "RESULT JOIN room 1\n".to_string())]);
    assert!(link.callbacks.is_empty());
    out.clear();
    // A second reply finds no callback.
    peer(&mut a, &mut link, "FEDRESULT alice JOIN room 0", &mut out);
    assert!(out.is_empty());
    // A message spoken on B reaches alice through A.
    peer(&mut a, &mut link, "FEDRECV alice@127.0.0.1:7000 bob room hello", &mut out);
    assert_eq!(to_client(&out), vec![(1, "RECV bob room hello\n".to_string())]);
}

#[test]
fn remote_join_to_unknown_peer_is_dropped() {
    let mut a = Server::new(7000);
    let mut out = Vec::new();
    let mut alice = logged_in(&mut a, 1, "alice");
    assert!(client(&mut a, &mut alice, "JOIN room:127.0.0.1:8000", &mut out).is_none());
    assert!(out.is_empty());
}

#[test]
fn peer_side_of_a_remote_join() {
    // Instance B: a peer asks for alice to join, then bob speaks.
    let mut b = Server::new(8000);
    let mut out = Vec::new();
    let mut link = ServerConnection::new(30, "127.0.0.1:8000".to_string());
    peer(&mut b, &mut link, "FEDERATEOUT", &mut out);
    let mut bob = logged_in(&mut b, 2, "bob");
    client(&mut b, &mut bob, "CREATE room", &mut out);
    out.clear();
    client(&mut b, &mut bob, "JOIN room", &mut out);
    assert_eq!(
        reply(peer(&mut b, &mut link, "FEDJOIN alice@127.0.0.1:7000 room", &mut out)),
        "FEDRESULT alice JOIN room 1\n"
    );
    assert_eq!(
        reply(peer(&mut b, &mut link, "FEDJOIN alice@127.0.0.1:7000 room", &mut out)),
        "FEDRESULT alice JOIN room 0\n"
    );
    assert_eq!(
        reply(peer(&mut b, &mut link, "FEDJOIN carol nowhere", &mut out)),
        "FEDRESULT carol JOIN nowhere 0\n"
    );
    assert!(out.is_empty());
    assert_eq!(reply(client(&mut b, &mut bob, "SAY room hi all", &mut out)), "RESULT SAY room 1\n");
    assert_eq!(to_client(&out), vec![(2, "RECV bob room hi all\n".to_string())]);
    assert_eq!(plain_to_peer(&out), vec![(30, "FEDRECV alice@127.0.0.1:7000 bob room hi all\n".to_string())]);
}

#[test]
fn federated_say() {
    let mut b = Server::new(8000);
    let mut out = Vec::new();
    let mut link = ServerConnection::new(30, "127.0.0.1:8000".to_string());
    let mut bob = logged_in(&mut b, 2, "bob");
    client(&mut b, &mut bob, "CREATE room", &mut out);
    client(&mut b, &mut bob, "JOIN room", &mut out);
    peer(&mut b, &mut link, "FEDJOIN alice room", &mut out);
    assert_eq!(
        reply(peer(&mut b, &mut link, "FEDSAY alice room hey there", &mut out)),
        "FEDRESULT alice SAY room 1 hey there\n"
    );
    assert_eq!(to_client(&out), vec![(2, "RECV alice room hey there\n".to_string())]);
    assert_eq!(plain_to_peer(&out), vec![(30, "FEDRECV alice alice room hey there\n".to_string())]);
    out.clear();
    assert_eq!(
        reply(peer(&mut b, &mut link, "FEDSAY mallory room hey", &mut out)),
        "FEDRESULT mallory SAY room 0 hey\n"
    );
    assert!(out.is_empty());
}

#[test]
fn say_results_go_to_the_waiting_client() {
    let mut link = ServerConnection::new(20, "127.0.0.1:8000".to_string());
    let mut out = Vec::new();
    let armed = ServerMessage::CallbackMessage {
        channel: 5,
        user: "alice".to_string(),
        response: fedchat::model::Response::Say { channel: "room".to_string(), message: "hi there".to_string() },
        message: "FEDSAY alice room hi there\n".to_string(),
    };
    assert_eq!(link.deliver(armed), "FEDSAY alice room hi there\n");
    link.fed_result_say("alice", "room", true, "hi there", &mut out);
    assert_eq!(to_client(&out), vec![(5, "RESULT SAY room hi there 1\n".to_string())]);
    assert!(link.callbacks.is_empty());
}

#[test]
fn oldest_matching_callback_answers_first() {
    let mut link = ServerConnection::new(20, "127.0.0.1:8000".to_string());
    let mut out = Vec::new();
    for id in [3u64, 4u64] {
        let armed = ServerMessage::CallbackMessage {
            channel: id,
            user: "alice".to_string(),
            response: fedchat::model::Response::Join { channel: "room".to_string() },
            message: "FEDJOIN alice@h room\n".to_string(),
        };
        link.deliver(armed);
    }
    link.fed_result_join("alice", "room", false, &mut out);
    link.fed_result_join("alice", "room", true, &mut out);
    assert_eq!(
        to_client(&out),
        vec![(3, "RESULT JOIN room 0\n".to_string()), (4, "RESULT JOIN room 1\n".to_string())]
    );
}

#[test]
fn plain_queue_items_pass_through() {
    let mut link = ServerConnection::new(20, "127.0.0.1:8000".to_string());
    assert_eq!(link.deliver(ServerMessage::Message("FEDNEW x\n".to_string())), "FEDNEW x\n");
    assert!(link.callbacks.is_empty());
}

#[test]
fn recv_for_unknown_user_is_dropped() {
    let mut s = Server::new(7000);
    let mut out = Vec::new();
    let mut link = ServerConnection::new(20, "127.0.0.1:8000".to_string());
    assert!(peer(&mut s, &mut link, "FEDRECV ghost bob room hi", &mut out).is_none());
    assert!(out.is_empty());
}

#[test]
fn latest_login_receives_federated_messages() {
    let mut s = Server::new(7000);
    let mut out = Vec::new();
    let _first = logged_in(&mut s, 1, "alice");
    let mut second = ClientConnection::new(2, "127.0.0.1:7000".to_string());
    client(&mut s, &mut second, "LOGIN alice pw", &mut out);
    let mut link = ServerConnection::new(20, "127.0.0.1:8000".to_string());
    peer(&mut s, &mut link, "FEDRECV alice bob room yo", &mut out);
    assert_eq!(to_client(&out), vec![(2, "RECV bob room yo\n".to_string())]);
}

#[test]
fn empty_channel_list_advertises_nothing() {
    let mut s = Server::new(7000);
    let mut out = Vec::new();
    let mut p = ServerConnection::new(10, "10.0.0.1:1".to_string());
    peer(&mut s, &mut p, "FEDERATEOUT", &mut out);
    peer(&mut s, &mut p, "FEDCHANNELS", &mut out);
    assert!(s.servers[0].channels.is_empty());
    peer(&mut s, &mut p, "FEDCHANNELS a, , b", &mut out);
    peer(&mut s, &mut p, "FEDNEW", &mut out);
    assert_eq!(s.servers[0].channels, vec!["a".to_string(), "b".to_string()]);
}

#[test]
fn reregistering_a_peer_resets_its_channels() {
    let mut s = Server::new(7000);
    let mut out = Vec::new();
    let mut p = ServerConnection::new(10, "10.0.0.1:1".to_string());
    peer(&mut s, &mut p, "FEDERATEOUT", &mut out);
    peer(&mut s, &mut p, "FEDNEW a", &mut out);
    peer(&mut s, &mut p, "FEDCONFIRM", &mut out);
    assert_eq!(s.servers.len(), 1);
    assert!(s.servers[0].channels.is_empty());
}

fn arm_join(link: &mut ServerConnection, id: u64, user: &str, channel: &str) {
    let armed = ServerMessage::CallbackMessage {
        channel: id,
        user: user.to_string(),
        response: fedchat::model::Response::Join { channel: channel.to_string() },
        message: format!("FEDJOIN {}@127.0.0.1:7000 {}\n", user, channel),
    };
    link.deliver(armed);
}

#[test]
fn join_result_for_a_name_with_at_sign() {
    let mut s = Server::new(7000);
    let mut out = Vec::new();
    let mut link = ServerConnection::new(20, "127.0.0.1:8000".to_string());
    arm_join(&mut link, 4, "a@b", "room");
    assert!(peer(&mut s, &mut link, "FEDRESULT a@b JOIN room 1", &mut out).is_none());
    assert_eq!(to_client(&out), vec![(4, "RESULT JOIN room 1\n".to_string())]);
    assert!(link.callbacks.is_empty());
}

#[test]
fn say_result_for_a_name_with_at_sign() {
    let mut link = ServerConnection::new(20, "127.0.0.1:8000".to_string());
    let mut out = Vec::new();
    let armed = ServerMessage::CallbackMessage {
        channel: 6,
        user: "a@b".to_string(),
        response: fedchat::model::Response::Say { channel: "room".to_string(), message: "yo".to_string() },
        message: "FEDSAY a@b room yo\n".to_string(),
    };
    link.deliver(armed);
    link.fed_result_say("a@b", "room", false, "yo", &mut out);
    assert_eq!(to_client(&out), vec![(6, "RESULT SAY room yo 0\n".to_string())]);
}

#[test]
fn result_for_another_name_takes_no_callback() {
    let mut s = Server::new(7000);
    let mut out = Vec::new();
    let mut link = ServerConnection::new(20, "127.0.0.1:8000".to_string());
    arm_join(&mut link, 4, "alice", "room");
    peer(&mut s, &mut link, "FEDRESULT alice@h JOIN room 1", &mut out);
    assert!(out.is_empty());
    assert_eq!(link.callbacks.len(), 1);
}

#[test]
fn join_reply_names_the_user_part() {
    let mut b = Server::new(8000);
    let mut out = Vec::new();
    let mut link = ServerConnection::new(30, "127.0.0.1:8000".to_string());
    let mut bob = logged_in(&mut b, 2, "bob");
    client(&mut b, &mut bob, "CREATE room", &mut out);
    assert_eq!(
        reply(peer(&mut b, &mut link, "FEDJOIN a@b@127.0.0.1:7000 room", &mut out)),
        "FEDRESULT a@b JOIN room 1\n"
    );
    assert_eq!(b.channels[0].users[0].name, "a@b@127.0.0.1:7000");
}

#[test]
fn recv_routes_by_the_name_before_the_last_at_sign() {
    let mut s = Server::new(7000);
    let mut out = Vec::new();
    let _a = logged_in(&mut s, 1, "a");
    let _ab = logged_in(&mut s, 2, "a@b");
    let mut link = ServerConnection::new(20, "127.0.0.1:8000".to_string());
    peer(&mut s, &mut link, "FEDRECV a@b@127.0.0.1:7000 bob room hi", &mut out);
    assert_eq!(to_client(&out), vec![(2, "RECV bob room hi\n".to_string())]);
}
