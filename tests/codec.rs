use checkpoint::envelope::{
    welcome_message, BrowserPeerDiscoveryMessage, ChatMessage, FileMessage, Message,
    UniversalConnectivityMessage, WebrtcMessage,
};
use checkpoint::message::{create_test_message, MessageType};

type FlatMessage = checkpoint::message::UniversalConnectivityMessage;

fn flat(from: &str, message: &str, timestamp: i64, message_type: i32) -> FlatMessage {
    FlatMessage { from: from.to_string(), message: message.to_string(), timestamp, message_type }
}

fn same_flat(a: &FlatMessage, b: &FlatMessage) -> bool {
    a.from == b.from && a.message == b.message && a.timestamp == b.timestamp
        && a.message_type == b.message_type
}

#[test]
fn flat_message_known_bytes() {
    let m = flat("a", "", 300, MessageType::File.code());
    assert_eq!(m.encode(), vec![0x0a, 0x01, b'a', 0x18, 0xac, 0x02, 0x20, 0x01]);
    assert_eq!(flat("", "", 0, 0).encode(), Vec::<u8>::new());
}

#[test]
fn flat_message_negative_values_use_ten_bytes() {
    let m = flat("", "", -1, 0);
    let bytes = m.encode();
    assert_eq!(bytes.len(), 11);
    assert_eq!(bytes[0], 0x18);
    assert_eq!(bytes[10], 0x01);
    let back = FlatMessage::decode(&bytes).unwrap();
    assert_eq!(back.timestamp, -1);
}

#[test]
fn flat_message_round_trips() {
    let cases = vec![
        flat("", "", 0, 0),
        flat("12D3KooWPeer", "Hello from 12D3KooWPeer! (1)", 1_700_000_000, 0),
        flat("ünïcödé ✓", "", i64::MIN, i32::MIN),
        flat("x", "multi\nline", i64::MAX, i32::MAX),
        flat("", "only text", -42, -7),
    ];
    for m in cases {
        let back = FlatMessage::decode(&m.encode()).unwrap();
        assert!(same_flat(&m, &back));
    }
}

#[test]
fn flat_message_rejects_bad_input() {
    // Truncated length-delimited field.
    assert!(FlatMessage::decode(&[0x0a, 0x05, b'a']).is_none());
    // Invalid UTF-8 in a text field.
    assert!(FlatMessage::decode(&[0x0a, 0x01, 0xff]).is_none());
    // A text field sent as a varint.
    assert!(FlatMessage::decode(&[0x08, 0x01]).is_none());
    // Field number zero.
    assert!(FlatMessage::decode(&[0x00, 0x01]).is_none());
    // A varint that never ends.
    assert!(FlatMessage::decode(&[0x18, 0x80, 0x80]).is_none());
    // A message type outside 32 bits.
    assert!(FlatMessage::decode(&[0x20, 0x80, 0x80, 0x80, 0x80, 0x10]).is_none());
}

#[test]
fn flat_message_skips_unknown_fields() {
    // Field 9 as a varint, then field 15 as 32 bits, then `from`.
    let bytes = vec![0x48, 0x05, 0x7d, 1, 2, 3, 4, 0x0a, 0x01, b'z'];
    let m = FlatMessage::decode(&bytes).unwrap();
    assert_eq!(m.from, "z");
}

#[test]
fn message_type_codes() {
    assert_eq!(MessageType::Chat.code(), 0);
    assert_eq!(MessageType::BrowserPeerDiscovery.code(), 2);
    assert_eq!(MessageType::from_code(1), Some(MessageType::File));
    assert_eq!(MessageType::from_code(3), None);
}

#[test]
fn test_message_text() {
    let (topic, m) = create_test_message("12D3KooWPeer", 7, 1_700_000_000);
    assert_eq!(topic, "universal-connectivity");
    assert_eq!(m.from, "12D3KooWPeer");
    assert_eq!(m.message, "Hello from 12D3KooWPeer! (7)");
    assert_eq!(m.timestamp, 1_700_000_000);
    assert_eq!(m.message_type, 0);
    let (_, m) = create_test_message("P", 10, 0);
    assert_eq!(m.message, "Hello from P! (10)");
}

fn chat(text: &str) -> UniversalConnectivityMessage {
    UniversalConnectivityMessage {
        message: Some(Message::Chat(ChatMessage { message: text.to_string() })),
    }
}

fn describe(m: &UniversalConnectivityMessage) -> String {
    match &m.message {
        None => "none".to_string(),
        Some(Message::Chat(c)) => format!("chat:{}", c.message),
        Some(Message::File(f)) => format!("file:{}:{}:{:?}", f.name, f.size, f.data),
        Some(Message::Webrtc(w)) => format!("webrtc:{}", w.data),
        Some(Message::BrowserPeerDiscovery(d)) => format!("peer:{}:{:?}", d.peer_id, d.multiaddrs),
    }
}

fn round_trip(m: &UniversalConnectivityMessage) {
    let back = UniversalConnectivityMessage::decode(&m.encode()).unwrap();
    assert_eq!(describe(&back), describe(m));
}

#[test]
fn envelope_known_bytes() {
    assert_eq!(chat("hi").encode(), vec![0x0a, 0x04, 0x0a, 0x02, b'h', b'i']);
    // A kind is encoded even when its nested message is empty.
    assert_eq!(chat("").encode(), vec![0x0a, 0x00]);
    let none = UniversalConnectivityMessage { message: None };
    assert!(none.encode().is_empty());
    let decoded = UniversalConnectivityMessage::decode(&[0x0a, 0x04, 0x0a, 0x02, b'h', b'i']);
    assert_eq!(describe(&decoded.unwrap()), "chat:hi");
}

#[test]
fn envelope_round_trips_every_kind() {
    round_trip(&UniversalConnectivityMessage { message: None });
    round_trip(&chat(""));
    round_trip(&chat("Hello from the Universal Connectivity checker!"));
    round_trip(&UniversalConnectivityMessage {
        message: Some(Message::File(FileMessage {
            name: "notes.txt".to_string(),
            size: 3,
            data: vec![1, 2, 3],
        })),
    });
    round_trip(&UniversalConnectivityMessage {
        message: Some(Message::File(FileMessage { name: String::new(), size: 0, data: vec![] })),
    });
    round_trip(&UniversalConnectivityMessage {
        message: Some(Message::Webrtc(WebrtcMessage { data: "sdp".to_string() })),
    });
    round_trip(&UniversalConnectivityMessage {
        message: Some(Message::BrowserPeerDiscovery(BrowserPeerDiscoveryMessage {
            peer_id: "12D3KooWPeer".to_string(),
            multiaddrs: vec![
                "/ip4/1.2.3.4/tcp/9090".to_string(),
                String::new(),
                "/ip6/::1/udp/9091/quic-v1".to_string(),
            ],
        })),
    });
    round_trip(&UniversalConnectivityMessage {
        message: Some(Message::BrowserPeerDiscovery(BrowserPeerDiscoveryMessage {
            peer_id: String::new(),
            multiaddrs: vec![],
        })),
    });
}

#[test]
fn envelope_round_trips_large_binary_payloads() {
    for size in [65_536usize, 1 << 20] {
        let data: Vec<u8> = (0..size).map(|i| (i % 251) as u8).collect();
        let m = UniversalConnectivityMessage {
            message: Some(Message::File(FileMessage {
                name: "big.bin".to_string(),
                size: size as u64,
                data: data.clone(),
            })),
        };
        let back = UniversalConnectivityMessage::decode(&m.encode()).unwrap();
        match back.message {
            Some(Message::File(f)) => {
                assert_eq!(f.name, "big.bin");
                assert_eq!(f.size, size as u64);
                assert_eq!(f.data, data);
            }
            _ => panic!("not a file message"),
        }
    }
}

#[test]
fn envelope_last_kind_wins_and_bad_bodies_fail() {
    let mut bytes = chat("a").encode();
    bytes.extend(UniversalConnectivityMessage {
        message: Some(Message::Webrtc(WebrtcMessage { data: "b".to_string() })),
    }
    .encode());
    let m = UniversalConnectivityMessage::decode(&bytes).unwrap();
    assert_eq!(describe(&m), "webrtc:b");
    // A chat body whose text is not UTF-8.
    assert!(UniversalConnectivityMessage::decode(&[0x0a, 0x03, 0x0a, 0x01, 0xff]).is_none());
    // A kind sent as a varint.
    assert!(UniversalConnectivityMessage::decode(&[0x08, 0x01]).is_none());
}

#[test]
fn welcome_message_is_a_chat() {
    assert_eq!(describe(&welcome_message()), "chat:Hello from the Universal Connectivity checker!");
    round_trip(&welcome_message());
}
