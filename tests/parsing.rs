use fedchat::parse::{parse, parse_client, parse_server, two, ClientRequest, Request, ServerRequest, ServerResult};

#[test]
fn two_splits_two_tokens() {
    assert_eq!(two("alice pw"), Some(("alice", "pw")));
    assert_eq!(two("alice"), None);
    assert_eq!(two("alice pw extra"), None);
}

#[test]
fn register_and_login_take_two_tokens() {
    match parse_client("REGISTER alice pw") {
        Some(ClientRequest::Register { username, password }) => {
            assert_eq!(username, "alice");
            assert_eq!(password, "pw");
        }
        _ => panic!("not a register"),
    }
    match parse_client("LOGIN bob secret") {
        Some(ClientRequest::Login { username, password }) => {
            assert_eq!(username, "bob");
            assert_eq!(password, "secret");
        }
        _ => panic!("not a login"),
    }
    assert!(parse_client("REGISTER alice").is_none());
    assert!(parse_client("LOGIN a b c").is_none());
}

#[test]
fn join_and_create_take_one_token() {
    match parse_client("JOIN room:127.0.0.1:9000") {
        Some(ClientRequest::Join { channel }) => assert_eq!(channel, "room:127.0.0.1:9000"),
        _ => panic!("not a join"),
    }
    match parse_client("CREATE lobby") {
        Some(ClientRequest::Create { channel }) => assert_eq!(channel, "lobby"),
        _ => panic!("not a create"),
    }
    assert!(parse_client("JOIN a b").is_none());
    assert!(parse_client("CREATE a b").is_none());
}

#[test]
fn say_keeps_the_rest_of_the_line() {
    match parse_client("SAY lobby hi there") {
        Some(ClientRequest::Say { channel, message }) => {
            assert_eq!(channel, "lobby");
            assert_eq!(message, "hi there");
        }
        _ => panic!("not a say"),
    }
}

#[test]
fn malformed_say_is_rejected() {
    assert!(parse_client("SAY onlyonearg").is_none());
    assert!(matches!(parse_client("CHANNELS"), Some(ClientRequest::Channels)));
}

#[test]
fn unknown_verbs_are_rejected() {
    assert!(parse_client("HELLO").is_none());
    assert!(parse_server("HELLO").is_none());
    assert!(parse_client("FEDCONFIRM").is_none());
    assert!(parse_server("CHANNELS").is_none());
}

#[test]
fn federation_verbs() {
    assert!(matches!(parse_server("FEDERATEOUT"), Some(ServerRequest::Out)));
    assert!(matches!(parse_server("FEDCONFIRM"), Some(ServerRequest::Confirm)));
    match parse_server("FEDCHANNELS a, b") {
        Some(ServerRequest::Channels { channels }) => assert_eq!(channels, "a, b"),
        _ => panic!("not a channel list"),
    }
    match parse_server("FEDCHANNELS") {
        Some(ServerRequest::Channels { channels }) => assert_eq!(channels, ""),
        _ => panic!("not a channel list"),
    }
    match parse_server("FEDNEW room") {
        Some(ServerRequest::New { channel }) => assert_eq!(channel, "room"),
        _ => panic!("not a new channel"),
    }
    assert!(parse_server("FEDNEW a b").is_none());
    match parse_server("FEDJOIN alice@127.0.0.1:5000 room") {
        Some(ServerRequest::Join { user, channel }) => {
            assert_eq!(user, "alice@127.0.0.1:5000");
            assert_eq!(channel, "room");
        }
        _ => panic!("not a join"),
    }
    match parse_server("FEDSAY bob room hello you") {
        Some(ServerRequest::Say { user, channel, msg }) => {
            assert_eq!(user, "bob");
            assert_eq!(channel, "room");
            assert_eq!(msg, "hello you");
        }
        _ => panic!("not a say"),
    }
    match parse_server("FEDRECV alice bob room hi all") {
        Some(ServerRequest::Recv { to_user, from_user, channel, msg }) => {
            assert_eq!(to_user, "alice");
            assert_eq!(from_user, "bob");
            assert_eq!(channel, "room");
            assert_eq!(msg, "hi all");
        }
        _ => panic!("not a recv"),
    }
    assert!(parse_server("FEDRECV alice bob room").is_none());
}

#[test]
fn federation_results() {
    match parse_server("FEDRESULT alice JOIN room 1") {
        Some(ServerRequest::Result(ServerResult::Join { user, channel, status })) => {
            assert_eq!(user, "alice");
            assert_eq!(channel, "room");
            assert!(status);
        }
        _ => panic!("not a join result"),
    }
    match parse_server("FEDRESULT alice SAY room 0 hello there") {
        Some(ServerRequest::Result(ServerResult::Say { user, channel, status, msg })) => {
            assert_eq!(user, "alice");
            assert_eq!(channel, "room");
            assert!(!status);
            assert_eq!(msg, "hello there");
        }
        _ => panic!("not a say result"),
    }
    assert!(parse_server("FEDRESULT alice JOIN room 2").is_none());
    assert!(parse_server("FEDRESULT alice SAY room 1").is_none());
    assert!(parse_server("FEDRESULT alice PART room 1").is_none());
}

#[test]
fn first_record_classifies_the_connection() {
    assert!(matches!(parse("REGISTER a b"), Some(Request::Client(ClientRequest::Register { .. }))));
    assert!(matches!(parse("FEDERATEOUT"), Some(Request::Server(ServerRequest::Out))));
    assert!(parse("nonsense here").is_none());
}

#[test]
fn non_ascii_text_is_kept() {
    match parse_client("SAY lobby héllo wörld") {
        Some(ClientRequest::Say { channel, message }) => {
            assert_eq!(channel, "lobby");
            assert_eq!(message, "héllo wörld");
        }
        _ => panic!("not a say"),
    }
}
