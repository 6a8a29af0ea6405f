//! The application message that peers publish on the chat topic, and its
//! protocol-buffer encoding: `from` (field 1, text), `message` (field 2,
//! text), `timestamp` (field 3, int64) and `message_type` (field 4, enum).
use vstd::prelude::*;
use vstd::utf8::{decode_utf8, encode_utf8, valid_utf8};
use crate::report::{decimal, push_decimal};
use crate::wire::{
    field_at, len_field, put_len_field, put_varint_field, read_field, varint_field,
    RawField, lemma_len_field_reads_back, lemma_varint_field_reads_back,
};

verus! {

broadcast use vstd::utf8::encode_utf8_decode_utf8, vstd::utf8::encode_utf8_valid_utf8;

/// The kind of an application message.
#[derive(Clone, Copy, Debug, PartialEq, Eq, Structural)]
pub enum MessageType {
    Chat,
    File,
    BrowserPeerDiscovery,
}

impl MessageType {
    pub open spec fn spec_code(self) -> i32 {
        match self {
            MessageType::Chat => 0,
            MessageType::File => 1,
            MessageType::BrowserPeerDiscovery => 2,
        }
    }

    /// The number that stands for this kind on the wire.
    pub fn code(self) -> (r: i32)
        ensures
            r == self.spec_code(),
    {
        match self {
            MessageType::Chat => 0,
            MessageType::File => 1,
            MessageType::BrowserPeerDiscovery => 2,
        }
    }

    /// The kind that `code` stands for, if any.
    pub fn from_code(code: i32) -> (r: Option<MessageType>)
        ensures
            r matches Some(t) ==> t.spec_code() == code,
            r is None <==> !(0 <= code <= 2),
    {
        if code == 0 {
            Some(MessageType::Chat)
        } else if code == 1 {
            Some(MessageType::File)
        } else if code == 2 {
            Some(MessageType::BrowserPeerDiscovery)
        } else {
            None
        }
    }
}

/// An application message as it is published on a topic.
#[derive(Clone, Debug)]
pub struct UniversalConnectivityMessage {
    pub from: String,
    pub message: String,
    pub timestamp: i64,
    /// The code of a `MessageType`; other codes are carried as they are.
    pub message_type: i32,
}

/// The content of an application message.
pub ghost struct MessageView {
    pub from: Seq<char>,
    pub message: Seq<char>,
    pub timestamp: i64,
    pub message_type: i32,
}

impl View for UniversalConnectivityMessage {
    type V = MessageView;

    open spec fn view(&self) -> MessageView {
        MessageView {
            from: self.from@,
            message: self.message@,
            timestamp: self.timestamp,
            message_type: self.message_type,
        }
    }
}

pub open spec fn empty_view() -> MessageView {
    MessageView { from: Seq::empty(), message: Seq::empty(), timestamp: 0, message_type: 0 }
}

/// The two's-complement bits of a signed integer.
pub open spec fn i64_bits(t: i64) -> u64 {
    if t >= 0 {
        t as u64
    } else {
        (t + 0x1_0000_0000_0000_0000) as u64
    }
}

/// The signed integer of two's-complement bits.
pub open spec fn i64_of(u: u64) -> i64 {
    if u <= i64::MAX {
        u as i64
    } else {
        (u - 0x1_0000_0000_0000_0000) as i64
    }
}

pub fn to_bits(t: i64) -> (r: u64)
    ensures
        r == i64_bits(t),
{
    if t >= 0 {
        t as u64
    } else {
        u64::MAX - ((-(t + 1)) as u64)
    }
}

pub fn from_bits(u: u64) -> (r: i64)
    ensures
        r == i64_of(u),
{
    if u <= i64::MAX as u64 {
        u as i64
    } else {
        -((u64::MAX - u) as i64) - 1
    }
}

/// A text field, left out when the text is empty.
pub open spec fn text_field(number: u64, t: Seq<char>) -> Seq<u8> {
    if t.len() == 0 {
        Seq::empty()
    } else {
        len_field(number, encode_utf8(t))
    }
}

/// An integer field, left out when the value is zero.
pub open spec fn int_field(number: u64, v: u64) -> Seq<u8> {
    if v == 0 {
        Seq::empty()
    } else {
        varint_field(number, v)
    }
}

/// The encoding of a message: its fields in number order, each left out
/// when it holds the default value.
pub open spec fn encoding(m: MessageView) -> Seq<u8> {
    text_field(1, m.from) + text_field(2, m.message) + int_field(3, i64_bits(m.timestamp))
        + int_field(4, i64_bits(m.message_type as i64))
}

/// The text that a length-delimited field holds, if it is valid UTF-8.
pub open spec fn text_of(s: Seq<u8>, f: RawField) -> Option<Seq<char>> {
    let b = s.subrange(f.start as int, f.end as int);
    if valid_utf8(b) {
        Some(decode_utf8(b))
    } else {
        None
    }
}

/// A 32-bit signed integer carried in a varint, if it is one.
pub open spec fn i32_of(u: u64) -> Option<i32> {
    let t = i64_of(u);
    if i32::MIN <= t <= i32::MAX {
        Some(t as i32)
    } else {
        None
    }
}

/// What one field does to a message being decoded. A known field with the
/// wrong wire type, bad UTF-8 or an out-of-range `message_type` is an error;
/// an unknown field is skipped.
pub open spec fn apply_field(s: Seq<u8>, f: RawField, m: MessageView) -> Option<MessageView> {
    if f.number == 1 || f.number == 2 {
        if f.wire_type != 2 {
            None
        } else {
            match text_of(s, f) {
                Some(t) => if f.number == 1 {
                    Some(MessageView { from: t, ..m })
                } else {
                    Some(MessageView { message: t, ..m })
                },
                None => None,
            }
        }
    } else if f.number == 3 {
        if f.wire_type != 0 {
            None
        } else {
            Some(MessageView { timestamp: i64_of(f.value), ..m })
        }
    } else if f.number == 4 {
        if f.wire_type != 0 {
            None
        } else {
            match i32_of(f.value) {
                Some(c) => Some(MessageView { message_type: c, ..m }),
                None => None,
            }
        }
    } else {
        Some(m)
    }
}

/// The message that the fields from `pos` on make of `m`.
pub open spec fn fields_from(s: Seq<u8>, pos: int, m: MessageView) -> Option<MessageView>
    decreases s.len() - pos,
{
    if pos < 0 || pos >= s.len() {
        Some(m)
    } else {
        match field_at(s, pos, s.len() as int) {
            None => None,
            Some(f) => if f.end <= pos || f.end > s.len() {
                None
            } else {
                match apply_field(s, f, m) {
                    None => None,
                    Some(m2) => fields_from(s, f.end as int, m2),
                }
            },
        }
    }
}

/// The message that bytes decode to, if they are a valid encoding.
pub open spec fn decoding(s: Seq<u8>) -> Option<MessageView> {
    fields_from(s, 0, empty_view())
}

/// Relies on `String::from_utf8`: it accepts exactly the valid UTF-8 byte
/// sequences, and the string holds the characters that they encode.
#[verifier::external_body]
fn utf8_string(bytes: Vec<u8>) -> (r: Option<String>)
    ensures
        r is Some <==> valid_utf8(bytes@),
        r matches Some(s) ==> s@ == decode_utf8(bytes@),
{
    String::from_utf8(bytes).ok()
}

/// Copies the bytes from `start` up to `end`.
pub fn copy_range(b: &[u8], start: usize, end: usize) -> (r: Vec<u8>)
    requires
        start <= end <= b@.len(),
    ensures
        r@ == b@.subrange(start as int, end as int),
{
    let mut out: Vec<u8> = Vec::new();
    let mut i: usize = start;
    while i < end
        invariant
            start <= i <= end,
            end <= b@.len(),
            out@ == b@.subrange(start as int, i as int),
        decreases end - i,
    {
        out.push(b[i]);
        assert(out@ =~= b@.subrange(start as int, i as int + 1));
        i = i + 1;
    }
    out
}

/// Decodes the text of a length-delimited field.
pub fn read_text(b: &[u8], f: RawField) -> (r: Option<String>)
    requires
        f.start <= f.end <= b@.len(),
    ensures
        match text_of(b@, f) {
            Some(t) => r matches Some(s) && s@ == t,
            None => r is None,
        },
{
    utf8_string(copy_range(b, f.start, f.end))
}

impl UniversalConnectivityMessage {
    /// Encodes the message: `r@ == encoding(self@)`.
    pub fn encode(&self) -> (r: Vec<u8>)
        ensures
            r@ == encoding(self@),
    {
        let mut out: Vec<u8> = Vec::new();
        let from = self.from.as_str();
        if !from.is_empty() {
            put_len_field(&mut out, 1, from.as_bytes());
        }
        let message = self.message.as_str();
        if !message.is_empty() {
            put_len_field(&mut out, 2, message.as_bytes());
        }
        let ts = to_bits(self.timestamp);
        if ts != 0 {
            put_varint_field(&mut out, 3, ts);
        }
        let kind = to_bits(self.message_type as i64);
        if kind != 0 {
            put_varint_field(&mut out, 4, kind);
        }
        assert(out@ =~= encoding(self@));
        out
    }

    /// Decodes a message: `Some` exactly when the bytes are a valid encoding,
    /// holding the message they encode.
    pub fn decode(b: &[u8]) -> (r: Option<UniversalConnectivityMessage>)
        ensures
            match decoding(b@) {
                Some(v) => r matches Some(m) && m@ == v,
                None => r is None,
            },
    {
        let mut m = UniversalConnectivityMessage {
            from: String::new(),
            message: String::new(),
            timestamp: 0,
            message_type: 0,
        };
        let mut pos: usize = 0;
        assert(m@ == empty_view());
        while pos < b.len()
            invariant
                pos <= b@.len(),
                fields_from(b@, pos as int, m@) == decoding(b@),
            decreases b@.len() - pos,
        {
            let f = match read_field(b, pos, b.len()) {
                Some(f) => f,
                None => return None,
            };
            if f.number == 1 || f.number == 2 {
                if f.wire_type != 2 {
                    return None;
                }
                let t = match read_text(b, f) {
                    Some(t) => t,
                    None => return None,
                };
                if f.number == 1 {
                    m.from = t;
                } else {
                    m.message = t;
                }
            } else if f.number == 3 {
                if f.wire_type != 0 {
                    return None;
                }
                m.timestamp = from_bits(f.value);
            } else if f.number == 4 {
                if f.wire_type != 0 {
                    return None;
                }
                let t = from_bits(f.value);
                if t < i32::MIN as i64 || t > i32::MAX as i64 {
                    return None;
                }
                m.message_type = t as i32;
            }
            pos = f.end;
        }
        Some(m)
    }
}

proof fn lemma_bits_round_trip(t: i64)
    ensures
        i64_of(i64_bits(t)) == t,
        (i64_bits(t) == 0) == (t == 0),
{
}

proof fn lemma_text_step(s: Seq<u8>, pos: int, number: u64, t: Seq<char>, m: MessageView)
    requires
        number == 1 || number == 2,
        s.len() <= usize::MAX,
        0 <= pos,
        pos + text_field(number, t).len() <= s.len(),
        s.subrange(pos, pos + text_field(number, t).len()) == text_field(number, t),
    ensures
        fields_from(s, pos, m) == fields_from(
            s,
            pos + text_field(number, t).len(),
            if t.len() == 0 {
                m
            } else if number == 1 {
                MessageView { from: t, ..m }
            } else {
                MessageView { message: t, ..m }
            },
        ),
{
    if t.len() > 0 {
        let payload = encode_utf8(t);
        lemma_len_field_reads_back(s, pos, s.len() as int, number, payload);
        let f = field_at(s, pos, s.len() as int)->Some_0;
        assert(s.subrange(f.start as int, f.end as int) == payload);
        assert(text_of(s, f) == Some(t));
    }
}

proof fn lemma_int_step(s: Seq<u8>, pos: int, number: u64, v: u64, m: MessageView)
    requires
        number == 3 || number == 4,
        number == 4 ==> i32_of(v) is Some,
        s.len() <= usize::MAX,
        0 <= pos,
        pos + int_field(number, v).len() <= s.len(),
        s.subrange(pos, pos + int_field(number, v).len()) == int_field(number, v),
    ensures
        fields_from(s, pos, m) == fields_from(
            s,
            pos + int_field(number, v).len(),
            if v == 0 {
                m
            } else if number == 3 {
                MessageView { timestamp: i64_of(v), ..m }
            } else {
                MessageView { message_type: i32_of(v)->Some_0, ..m }
            },
        ),
{
    if v != 0 {
        lemma_varint_field_reads_back(s, pos, s.len() as int, number, v);
    }
}

/// Encoding a message and decoding the bytes gives the same message back,
/// whatever its texts (empty ones included) and integers.
pub proof fn lemma_round_trip(m: MessageView)
    requires
        encoding(m).len() <= usize::MAX,
    ensures
        decoding(encoding(m)) == Some(m),
{
    let a = text_field(1, m.from);
    let b = text_field(2, m.message);
    let ts = i64_bits(m.timestamp);
    let kind = i64_bits(m.message_type as i64);
    let c = int_field(3, ts);
    let d = int_field(4, kind);
    let s = encoding(m);
    assert(s == a + b + c + d);
    lemma_bits_round_trip(m.timestamp);
    lemma_bits_round_trip(m.message_type as i64);
    assert(i32_of(kind) == Some(m.message_type));
    let m0 = empty_view();
    let m1 = MessageView { from: m.from, ..m0 };
    let m2 = MessageView { message: m.message, ..m1 };
    let m3 = MessageView { timestamp: m.timestamp, ..m2 };
    assert(m.from.len() == 0 ==> m1 == m0) by {
        if m.from.len() == 0 {
            assert(m.from =~= Seq::<char>::empty());
        }
    }
    assert(m.message.len() == 0 ==> m2 == m1) by {
        if m.message.len() == 0 {
            assert(m.message =~= Seq::<char>::empty());
        }
    }
    assert(s.subrange(0, a.len() as int) =~= a);
    lemma_text_step(s, 0, 1, m.from, m0);
    let p1 = a.len() as int;
    assert(s.subrange(p1, p1 + b.len()) =~= b);
    lemma_text_step(s, p1, 2, m.message, m1);
    let p2 = p1 + b.len();
    assert(s.subrange(p2, p2 + c.len()) =~= c);
    lemma_int_step(s, p2, 3, ts, m2);
    let p3 = p2 + c.len();
    assert(s.subrange(p3, p3 + d.len()) =~= d);
    lemma_int_step(s, p3, 4, kind, m3);
    assert(p3 + d.len() == s.len());
    assert(fields_from(s, s.len() as int, m) == Some(m));
}

/// The text of the test message with sequence number `counter`.
pub open spec fn test_text(peer_id: Seq<char>, counter: u64) -> Seq<char> {
    "Hello from "@ + peer_id + "! ("@ + decimal(counter as nat) + ")"@
}

/// The test message that a chatty node publishes, and the topic it goes to:
/// a chat message from `peer_id` that greets with its sequence number,
/// stamped with `timestamp` (seconds since the Unix epoch).
pub fn create_test_message(peer_id: &str, counter: u64, timestamp: i64) -> (r: (
    String,
    UniversalConnectivityMessage,
))
    ensures
        r.0@ == "universal-connectivity"@,
        r.1.from@ == peer_id@,
        r.1.message@ == test_text(peer_id@, counter),
        r.1.timestamp == timestamp,
        r.1.message_type == MessageType::Chat.spec_code(),
{
    let mut text = String::from_str("Hello from ");
    text.append(peer_id);
    text.append("! (");
    push_decimal(&mut text, counter);
    text.append(")");
    let message = UniversalConnectivityMessage {
        from: String::from_str(peer_id),
        message: text,
        timestamp,
        message_type: MessageType::Chat.code(),
    };
    (String::from_str("universal-connectivity"), message)
}

} // verus!
