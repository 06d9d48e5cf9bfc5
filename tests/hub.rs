use notification_hub::frame::{frame, read_length_prefix};
use notification_hub::hub::{Cipher, Folder, User, WebSocketUsers};
use notification_hub::message::{convert_option, create_ping, create_update, serialize, serialize_date, MsgValue};
use notification_hub::number::NumberOrString;
use notification_hub::registry::Registry;
use notification_hub::session::{
    initial_response, negotiation_body, parse_handshake, HandlerError, Reply, SessionState, WSHandler, PING,
};
use notification_hub::timestamp::{from_be_bytes, to_be_bytes, Timestamp};
use notification_hub::update::UpdateType;

fn decode_frame(bytes: &[u8]) -> rmpv::Value {
    let (len, k) = read_length_prefix(&bytes.to_vec()).expect("prefix");
    assert_eq!(len, bytes.len() - k);
    let mut rest = &bytes[k..];
    rmpv::decode::read_value(&mut rest).expect("msgpack")
}

fn field<'a>(map: &'a rmpv::Value, key: &str) -> &'a rmpv::Value {
    map.as_map()
        .expect("map")
        .iter()
        .find(|(k, _)| k.as_str() == Some(key))
        .map(|(_, v)| v)
        .expect("field")
}

fn envelope(frame_bytes: &[u8]) -> rmpv::Value {
    let v = decode_frame(frame_bytes);
    let items = v.as_array().expect("array").clone();
    assert_eq!(items.len(), 5);
    assert_eq!(items[0].as_i64(), Some(1));
    assert_eq!(items[1].as_array().map(|a| a.len()), Some(0));
    assert!(items[2].is_nil());
    assert_eq!(items[3].as_str(), Some("ReceiveMessage"));
    let args = items[4].as_array().expect("args").clone();
    assert_eq!(args.len(), 1);
    assert_eq!(field(&args[0], "ContextId").as_str(), Some("app_id"));
    args[0].clone()
}

fn ts() -> Timestamp {
    Timestamp { seconds: 1700000000, nanos: 123456789 }
}

#[test]
fn update_codes_match_client() {
    assert_eq!(UpdateType::SyncCipherUpdate.code(), 0);
    assert_eq!(UpdateType::SyncCipherCreate.code(), 1);
    assert_eq!(UpdateType::SyncLoginDelete.code(), 2);
    assert_eq!(UpdateType::SyncFolderDelete.code(), 3);
    assert_eq!(UpdateType::SyncCiphers.code(), 4);
    assert_eq!(UpdateType::SyncVault.code(), 5);
    assert_eq!(UpdateType::SyncOrgKeys.code(), 6);
    assert_eq!(UpdateType::SyncFolderCreate.code(), 7);
    assert_eq!(UpdateType::SyncFolderUpdate.code(), 8);
    assert_eq!(UpdateType::SyncCipherDelete.code(), 9);
    assert_eq!(UpdateType::SyncSettings.code(), 10);
    assert_eq!(UpdateType::LogOut.code(), 11);
}

#[test]
fn frame_short_body() {
    assert_eq!(frame(vec![1, 2, 3]), vec![3, 1, 2, 3]);
    assert_eq!(frame(vec![]), vec![0]);
}

#[test]
fn frame_long_body_prefix() {
    let f = frame(vec![7u8; 200]);
    assert_eq!(&f[..2], &[0xC8, 0x01]);
    assert_eq!(f.len(), 202);
    let f = frame(vec![0u8; 128]);
    assert_eq!(&f[..2], &[0x80, 0x01]);
    let f = frame(vec![0u8; 16384]);
    assert_eq!(&f[..3], &[0x80, 0x80, 0x01]);
}

#[test]
fn frame_prefix_round_trip() {
    for n in [0usize, 1, 127, 128, 129, 300, 16383, 16384, 70000] {
        let f = frame(vec![0xAB; n]);
        let (len, k) = read_length_prefix(&f).unwrap();
        assert_eq!(len, n);
        assert_eq!(f.len() - k, len);
    }
}

#[test]
fn length_prefix_incomplete() {
    assert_eq!(read_length_prefix(&vec![]), None);
    assert_eq!(read_length_prefix(&vec![0x80, 0x81]), None);
    assert_eq!(read_length_prefix(&vec![0x05, 0x80]), Some((5, 1)));
}

#[test]
fn length_prefix_too_large() {
    let mut bytes = vec![0xFFu8; 10];
    bytes.push(0x7F);
    assert_eq!(read_length_prefix(&bytes), None);
}

#[test]
fn timestamp_packing() {
    let packed = ts().pack();
    assert_eq!(packed, (123456789u64 << 34) | 1700000000u64);
    let bytes = to_be_bytes(packed);
    assert_eq!(bytes.len(), 8);
    assert_eq!(from_be_bytes(&bytes), packed);
}

#[test]
fn big_endian_bytes() {
    assert_eq!(to_be_bytes(0x0102030405060708), vec![1, 2, 3, 4, 5, 6, 7, 8]);
    assert_eq!(from_be_bytes(&vec![0xFF, 0, 0, 0, 0, 0, 0, 1]), 0xFF00000000000001);
}

#[test]
fn date_is_timestamp_extension() {
    match serialize_date(ts()) {
        MsgValue::Ext(code, bytes) => {
            assert_eq!(code, -1);
            assert_eq!(bytes, ((123456789u64 << 34) | 1700000000u64).to_be_bytes().to_vec());
        }
        other => panic!("unexpected {:?}", other),
    }
}

#[test]
fn date_decodes_as_msgpack_ext() {
    let f = serialize(&serialize_date(ts()));
    let v = decode_frame(&f);
    let (code, bytes) = v.as_ext().expect("ext");
    assert_eq!(code, -1);
    assert_eq!(bytes.len(), 8);
}

#[test]
fn option_values() {
    assert!(matches!(convert_option(None), MsgValue::Nil));
    match convert_option(Some("x".to_string())) {
        MsgValue::Str(s) => assert_eq!(s, "x"),
        other => panic!("unexpected {:?}", other),
    }
}

#[test]
fn ping_frame_bytes() {
    assert_eq!(create_ping(), vec![0x02, 0x91, 0x06]);
}

#[test]
fn update_envelope() {
    let payload = vec![(MsgValue::Str("Id".to_string()), MsgValue::Str("c1".to_string()))];
    let f = create_update(payload, UpdateType::SyncFolderDelete);
    let env = envelope(&f);
    assert_eq!(field(&env, "Type").as_i64(), Some(3));
    assert_eq!(field(field(&env, "Payload"), "Id").as_str(), Some("c1"));
}

#[test]
fn registry_lists_registered() {
    let mut r = Registry::new();
    let u = "u1".to_string();
    let v = "u2".to_string();
    assert!(r.lookup("u1").is_empty());
    r.register(&u, 1);
    r.register(&u, 2);
    r.register(&v, 3);
    r.register(&u, 2);
    assert_eq!(r.lookup("u1"), vec![1, 2]);
    assert_eq!(r.lookup("u2"), vec![3]);
    r.deregister(&u, 1);
    assert_eq!(r.lookup("u1"), vec![2]);
    r.deregister(&u, 2);
    assert!(r.lookup("u1").is_empty());
    assert_eq!(r.lookup("u2"), vec![3]);
}

#[test]
fn deregister_twice_is_no_op() {
    let mut r = Registry::new();
    let u = "u1".to_string();
    r.register(&u, 1);
    r.register(&u, 2);
    r.deregister(&u, 1);
    r.deregister(&u, 1);
    assert_eq!(r.lookup("u1"), vec![2]);
    r.deregister(&"u9".to_string(), 2);
    assert_eq!(r.lookup("u1"), vec![2]);
}

#[test]
fn fan_out_survives_failed_send() {
    let mut users = WebSocketUsers::new();
    let u = "U".to_string();
    users.registry.register(&u, 10);
    users.registry.register(&u, 11);
    let user = User { uuid: u.clone(), updated_at: ts() };
    let out = users.send_user_update(UpdateType::SyncSettings, &user);
    let mut delivered = Vec::new();
    for c in &out.targets {
        let sent: Result<(), ()> = if *c == 10 { Err(()) } else { Ok(()) };
        if sent.is_ok() {
            delivered.push(*c);
        }
    }
    assert_eq!(delivered, vec![11]);
    let env = envelope(&out.frame);
    assert_eq!(field(&env, "Type").as_i64(), Some(10));
    assert_eq!(field(field(&env, "Payload"), "UserId").as_str(), Some("U"));
    assert!(field(field(&env, "Payload"), "RevisionDate").as_ext().is_some());
}

#[test]
fn folder_update_goes_to_owner() {
    let mut users = WebSocketUsers::new();
    users.registry.register(&"owner".to_string(), 5);
    users.registry.register(&"other".to_string(), 6);
    let folder = Folder { uuid: "f1".to_string(), user_uuid: "owner".to_string(), updated_at: ts() };
    let out = users.send_folder_update(UpdateType::SyncFolderCreate, &folder);
    assert_eq!(out.targets, vec![5]);
    let env = envelope(&out.frame);
    assert_eq!(field(&env, "Type").as_i64(), Some(7));
    let p = field(&env, "Payload");
    assert_eq!(field(p, "Id").as_str(), Some("f1"));
    assert_eq!(field(p, "UserId").as_str(), Some("owner"));
}

#[test]
fn cipher_update_goes_to_every_listed_user() {
    let mut users = WebSocketUsers::new();
    users.registry.register(&"a".to_string(), 1);
    users.registry.register(&"b".to_string(), 2);
    users.registry.register(&"b".to_string(), 3);
    users.registry.register(&"c".to_string(), 4);
    let cipher = Cipher {
        uuid: "c1".to_string(),
        user_uuid: None,
        organization_uuid: Some("org".to_string()),
        updated_at: ts(),
    };
    let out = users.send_cipher_update(
        UpdateType::SyncCipherUpdate,
        &cipher,
        &vec!["b".to_string(), "a".to_string(), "nobody".to_string()],
    );
    assert_eq!(out.targets, vec![2, 3, 1]);
    let env = envelope(&out.frame);
    let p = field(&env, "Payload");
    assert!(field(p, "UserId").is_nil());
    assert_eq!(field(p, "OrganizationId").as_str(), Some("org"));
    assert!(field(p, "CollectionIds").is_nil());
}

#[test]
fn logout_notice() {
    let mut users = WebSocketUsers::new();
    users.registry.register(&"u".to_string(), 8);
    let out = users.send_logout(&"u".to_string());
    assert_eq!(out.targets, vec![8]);
    let env = envelope(&out.frame);
    assert_eq!(field(&env, "Type").as_i64(), Some(11));
    assert_eq!(field(field(&env, "Payload"), "UserId").as_str(), Some("u"));
}

fn negotiation_of(text: &str) -> Option<(String, i64)> {
    let body = negotiation_body(text)?;
    let v: serde_json::Value = serde_json::from_str(&body).ok()?;
    Some((v.get("protocol")?.as_str()?.to_string(), v.get("version")?.as_i64()?))
}

#[test]
fn negotiation_acknowledged() {
    let mut users = WebSocketUsers::new();
    let mut h = WSHandler::new(1);
    assert_eq!(h.on_open(&mut users, Some("u1".to_string())), Ok(()));
    assert_eq!(h.state, SessionState::Negotiating);
    let msg = "{\"protocol\":\"messagepack\",\"version\":1}\u{1e}";
    assert_eq!(h.on_message(negotiation_of(msg)), Reply::Acknowledge);
    assert_eq!(initial_response(), vec![0x7b, 0x7d, 0x1e]);
    assert_eq!(h.state, SessionState::Active);
}

#[test]
fn other_message_echoed() {
    let mut users = WebSocketUsers::new();
    let mut h = WSHandler::new(1);
    h.on_open(&mut users, Some("u1".to_string())).unwrap();
    let msg = "{\"protocol\":\"json\",\"version\":1}\u{1e}";
    assert_eq!(h.on_message(negotiation_of(msg)), Reply::Echo);
    assert_eq!(h.state, SessionState::Active);
    assert_eq!(h.on_message(negotiation_of("{\"protocol\":\"messagepack\",\"version\":2}\u{1e}")), Reply::Echo);
    assert_eq!(h.on_message(negotiation_of("no separator")), Reply::Echo);
}

#[test]
fn negotiation_body_strips_separator() {
    assert_eq!(negotiation_body("{}\u{1e}"), Some("{}".to_string()));
    assert_eq!(negotiation_body("{}"), None);
    assert_eq!(negotiation_body(""), None);
}

#[test]
fn handshake_query_parameters() {
    let q = parse_handshake("/hub?access_token=abc.def&id=xyz").unwrap();
    assert_eq!(q.access_token, "abc.def");
    assert_eq!(q.id, "xyz");
    let q = parse_handshake("/hub?id=1&access_token=t").unwrap();
    assert_eq!(q.access_token, "t");
    assert_eq!(q.id, "1");
    assert!(matches!(parse_handshake("/hub?id=1"), Err(HandlerError::MissingParameter)));
    assert!(matches!(parse_handshake("/hub"), Err(HandlerError::MissingParameter)));
    assert!(matches!(parse_handshake("/hub?access_token=t&ids=1"), Err(HandlerError::MissingParameter)));
}

#[test]
fn invalid_token_never_registers() {
    let mut users = WebSocketUsers::new();
    let mut h = WSHandler::new(4);
    assert_eq!(h.on_open(&mut users, None), Err(HandlerError::InvalidToken));
    assert_eq!(h.state, SessionState::Closed);
    h.on_close(&mut users);
    assert_eq!(h.state, SessionState::Closed);
}

#[test]
fn timer_pings_and_rejects_unknown_token() {
    let mut users = WebSocketUsers::new();
    let mut h = WSHandler::new(4);
    h.on_open(&mut users, Some("u".to_string())).unwrap();
    assert_eq!(h.on_timeout(&mut users, PING), Ok(vec![0x02, 0x91, 0x06]));
    assert_eq!(users.registry.lookup("u"), vec![4]);
    assert_eq!(h.on_timeout(&mut users, 99), Err(HandlerError::InvalidTimeout));
    assert_eq!(h.state, SessionState::Closed);
    assert!(users.registry.lookup("u").is_empty());
}

#[test]
fn close_is_idempotent() {
    let mut users = WebSocketUsers::new();
    let mut a = WSHandler::new(1);
    let mut b = WSHandler::new(2);
    a.on_open(&mut users, Some("u".to_string())).unwrap();
    b.on_open(&mut users, Some("u".to_string())).unwrap();
    a.on_close(&mut users);
    a.on_close(&mut users);
    assert_eq!(users.registry.lookup("u"), vec![2]);
}

#[test]
fn end_to_end_cipher_create() {
    let mut users = WebSocketUsers::new();
    let q = parse_handshake("/notifications/hub?access_token=tok&id=abc").unwrap();
    assert_eq!(q.access_token, "tok");
    let mut h = WSHandler::new(42);
    h.on_open(&mut users, Some("u1".to_string())).unwrap();
    let reply = h.on_message(negotiation_of("{\"protocol\":\"messagepack\",\"version\":1}\u{1e}"));
    assert_eq!(reply, Reply::Acknowledge);
    let cipher = Cipher {
        uuid: "c9".to_string(),
        user_uuid: Some("u1".to_string()),
        organization_uuid: None,
        updated_at: ts(),
    };
    let out = users.send_cipher_update(UpdateType::SyncCipherCreate, &cipher, &vec!["u1".to_string()]);
    assert_eq!(out.targets, vec![42]);
    let env = envelope(&out.frame);
    assert_eq!(field(&env, "Type").as_i64(), Some(1));
    assert_eq!(field(field(&env, "Payload"), "UserId").as_str(), Some("u1"));
}

#[test]
fn number_or_string_to_string() {
    assert_eq!(NumberOrString::Number(42).into_string(), "42");
    assert_eq!(NumberOrString::Number(-7).into_string(), "-7");
    assert_eq!(NumberOrString::Number(0).into_string(), "0");
    assert_eq!(NumberOrString::String("abc".to_string()).into_string(), "abc");
}

#[test]
fn number_or_string_to_i32() {
    assert_eq!(NumberOrString::Number(5).into_i32(), Some(5));
    assert_eq!(NumberOrString::String("123".to_string()).into_i32(), Some(123));
    assert_eq!(NumberOrString::String("+5".to_string()).into_i32(), Some(5));
    assert_eq!(NumberOrString::String("-2147483648".to_string()).into_i32(), Some(i32::MIN));
    assert_eq!(NumberOrString::String("2147483648".to_string()).into_i32(), None);
    assert_eq!(NumberOrString::String("abc".to_string()).into_i32(), None);
    assert_eq!(NumberOrString::String("".to_string()).into_i32(), None);
    assert_eq!(NumberOrString::String(" 1".to_string()).into_i32(), None);
}

#[test]
fn lookup_after_many_users_leave() {
    let mut r = Registry::new();
    for i in 0..2000u64 {
        let u = format!("user{}", i);
        r.register(&u, i);
        r.deregister(&u, i);
    }
    assert!(r.lookup("nobody").is_empty());
    assert!(r.lookup("user5").is_empty());
    r.register(&"user5".to_string(), 9);
    assert_eq!(r.lookup("user5"), vec![9]);
}

#[test]
fn message_before_open_leaves_state() {
    let mut h = WSHandler::new(3);
    assert_eq!(h.on_message(None), Reply::Echo);
    assert_eq!(h.state, SessionState::Connecting);
}
