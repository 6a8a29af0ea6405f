//! The application message as a tagged union of kinds, each a nested
//! protocol-buffer message: chat (field 1), file (2), real-time data (3) and
//! browser peer discovery (4).
use vstd::prelude::*;
use vstd::utf8::encode_utf8;
use crate::message::{copy_range, int_field, read_text, text_field, text_of};
use crate::wire::{
    field_at, len_field, put_len_field, put_varint_field, read_field, RawField,
    lemma_len_field_reads_back, lemma_varint_field_reads_back,
};

verus! {

broadcast use vstd::utf8::encode_utf8_decode_utf8, vstd::utf8::encode_utf8_valid_utf8;

#[derive(Clone, Debug)]
pub struct ChatMessage {
    pub message: String,
}

#[derive(Clone, Debug)]
pub struct FileMessage {
    pub name: String,
    pub size: u64,
    pub data: Vec<u8>,
}

#[derive(Clone, Debug)]
pub struct WebrtcMessage {
    pub data: String,
}

#[derive(Clone, Debug)]
pub struct BrowserPeerDiscoveryMessage {
    pub peer_id: String,
    pub multiaddrs: Vec<String>,
}

/// The kinds of application message.
#[derive(Clone, Debug)]
pub enum Message {
    Chat(ChatMessage),
    File(FileMessage),
    Webrtc(WebrtcMessage),
    BrowserPeerDiscovery(BrowserPeerDiscoveryMessage),
}

/// An application message; it may carry no kind at all.
#[derive(Clone, Debug)]
pub struct UniversalConnectivityMessage {
    pub message: Option<Message>,
}

/// The content of a message of each kind.
pub ghost enum ContentView {
    Chat(Seq<char>),
    File(Seq<char>, u64, Seq<u8>),
    Webrtc(Seq<char>),
    BrowserPeerDiscovery(Seq<char>, Seq<Seq<char>>),
}

pub open spec fn texts(v: Seq<String>) -> Seq<Seq<char>> {
    v.map_values(|s: String| s@)
}

impl View for Message {
    type V = ContentView;

    open spec fn view(&self) -> ContentView {
        match self {
            Message::Chat(c) => ContentView::Chat(c.message@),
            Message::File(f) => ContentView::File(f.name@, f.size, f.data@),
            Message::Webrtc(w) => ContentView::Webrtc(w.data@),
            Message::BrowserPeerDiscovery(d) => ContentView::BrowserPeerDiscovery(
                d.peer_id@,
                texts(d.multiaddrs@),
            ),
        }
    }
}

impl View for UniversalConnectivityMessage {
    type V = Option<ContentView>;

    open spec fn view(&self) -> Option<ContentView> {
        match self.message {
            Some(m) => Some(m@),
            None => None,
        }
    }
}

/// A bytes field, left out when empty.
pub open spec fn bytes_field(number: u64, b: Seq<u8>) -> Seq<u8> {
    if b.len() == 0 {
        Seq::empty()
    } else {
        len_field(number, b)
    }
}

/// One text field 2 for each address, in order; empty ones included.
pub open spec fn addrs_encoding(addrs: Seq<Seq<char>>) -> Seq<u8>
    decreases addrs.len(),
{
    if addrs.len() == 0 {
        Seq::empty()
    } else {
        addrs_encoding(addrs.drop_last()) + len_field(2, encode_utf8(addrs.last()))
    }
}

/// The encoding of the nested message of one kind.
pub open spec fn body_encoding(c: ContentView) -> Seq<u8> {
    match c {
        ContentView::Chat(t) => text_field(1, t),
        ContentView::File(name, size, data) => text_field(1, name) + int_field(2, size)
            + bytes_field(3, data),
        ContentView::Webrtc(t) => text_field(1, t),
        ContentView::BrowserPeerDiscovery(peer, addrs) => text_field(1, peer) + addrs_encoding(
            addrs,
        ),
    }
}

pub open spec fn kind_number(c: ContentView) -> u64 {
    match c {
        ContentView::Chat(_) => 1,
        ContentView::File(..) => 2,
        ContentView::Webrtc(_) => 3,
        ContentView::BrowserPeerDiscovery(..) => 4,
    }
}

/// The encoding of a message: nothing for a message without a kind, else the
/// nested message in the field of its kind.
pub open spec fn envelope_encoding(m: Option<ContentView>) -> Seq<u8> {
    match m {
        None => Seq::empty(),
        Some(c) => len_field(kind_number(c), body_encoding(c)),
    }
}

/// Decoding of a body with one text field (chat, real-time data).
pub open spec fn text_body(s: Seq<u8>, pos: int, end: int, acc: Seq<char>) -> Option<Seq<char>>
    decreases end - pos,
{
    if pos >= end {
        Some(acc)
    } else {
        match field_at(s, pos, end) {
            None => None,
            Some(f) => if f.end <= pos || f.end > end {
                None
            } else if f.number == 1 {
                if f.wire_type != 2 {
                    None
                } else {
                    match text_of(s, f) {
                        Some(t) => text_body(s, f.end as int, end, t),
                        None => None,
                    }
                }
            } else {
                text_body(s, f.end as int, end, acc)
            },
        }
    }
}

/// Decoding of a file body: name, size, data.
pub open spec fn file_body(s: Seq<u8>, pos: int, end: int, acc: (Seq<char>, u64, Seq<u8>)) -> Option<
    (Seq<char>, u64, Seq<u8>),
>
    decreases end - pos,
{
    if pos >= end {
        Some(acc)
    } else {
        match field_at(s, pos, end) {
            None => None,
            Some(f) => if f.end <= pos || f.end > end {
                None
            } else if f.number == 1 {
                if f.wire_type != 2 {
                    None
                } else {
                    match text_of(s, f) {
                        Some(t) => file_body(s, f.end as int, end, (t, acc.1, acc.2)),
                        None => None,
                    }
                }
            } else if f.number == 2 {
                if f.wire_type != 0 {
                    None
                } else {
                    file_body(s, f.end as int, end, (acc.0, f.value, acc.2))
                }
            } else if f.number == 3 {
                if f.wire_type != 2 {
                    None
                } else {
                    file_body(
                        s,
                        f.end as int,
                        end,
                        (acc.0, acc.1, s.subrange(f.start as int, f.end as int)),
                    )
                }
            } else {
                file_body(s, f.end as int, end, acc)
            },
        }
    }
}

/// Decoding of a peer discovery body: peer id, and addresses in order.
pub open spec fn discovery_body(s: Seq<u8>, pos: int, end: int, acc: (Seq<char>, Seq<Seq<char>>)) -> Option<
    (Seq<char>, Seq<Seq<char>>),
>
    decreases end - pos,
{
    if pos >= end {
        Some(acc)
    } else {
        match field_at(s, pos, end) {
            None => None,
            Some(f) => if f.end <= pos || f.end > end {
                None
            } else if f.number == 1 || f.number == 2 {
                if f.wire_type != 2 {
                    None
                } else {
                    match text_of(s, f) {
                        Some(t) => if f.number == 1 {
                            discovery_body(s, f.end as int, end, (t, acc.1))
                        } else {
                            discovery_body(s, f.end as int, end, (acc.0, acc.1.push(t)))
                        },
                        None => None,
                    }
                }
            } else {
                discovery_body(s, f.end as int, end, acc)
            },
        }
    }
}

/// The content of a kind's nested message, if it decodes.
pub open spec fn body_of(s: Seq<u8>, f: RawField) -> Option<ContentView> {
    let (a, b) = (f.start as int, f.end as int);
    if f.number == 1 {
        match text_body(s, a, b, Seq::empty()) {
            Some(t) => Some(ContentView::Chat(t)),
            None => None,
        }
    } else if f.number == 2 {
        match file_body(s, a, b, (Seq::empty(), 0, Seq::empty())) {
            Some((n, z, d)) => Some(ContentView::File(n, z, d)),
            None => None,
        }
    } else if f.number == 3 {
        match text_body(s, a, b, Seq::empty()) {
            Some(t) => Some(ContentView::Webrtc(t)),
            None => None,
        }
    } else {
        match discovery_body(s, a, b, (Seq::empty(), Seq::empty())) {
            Some((p, l)) => Some(ContentView::BrowserPeerDiscovery(p, l)),
            None => None,
        }
    }
}

/// Decoding of a message: the kind field seen last wins; unknown fields are
/// skipped.
pub open spec fn envelope_body(s: Seq<u8>, pos: int, acc: Option<ContentView>) -> Option<
    Option<ContentView>,
>
    decreases s.len() - pos,
{
    if pos >= s.len() {
        Some(acc)
    } else {
        match field_at(s, pos, s.len() as int) {
            None => None,
            Some(f) => if f.end <= pos || f.end > s.len() {
                None
            } else if 1 <= f.number <= 4 {
                if f.wire_type != 2 {
                    None
                } else {
                    match body_of(s, f) {
                        Some(c) => envelope_body(s, f.end as int, Some(c)),
                        None => None,
                    }
                }
            } else {
                envelope_body(s, f.end as int, acc)
            },
        }
    }
}

pub open spec fn envelope_decoding(s: Seq<u8>) -> Option<Option<ContentView>> {
    envelope_body(s, 0, None)
}

/// The chat message that greets the peers once the first one connects.
pub fn welcome_message() -> (r: UniversalConnectivityMessage)
    ensures
        r@ == Some(ContentView::Chat("Hello from the Universal Connectivity checker!"@)),
{
    UniversalConnectivityMessage {
        message: Some(
            Message::Chat(
                ChatMessage {
                    message: String::from_str("Hello from the Universal Connectivity checker!"),
                },
            ),
        ),
    }
}

fn decode_text_body(b: &[u8], start: usize, end: usize) -> (r: Option<String>)
    requires
        start <= end <= b@.len(),
    ensures
        match text_body(b@, start as int, end as int, Seq::empty()) {
            Some(t) => r matches Some(x) && x@ == t,
            None => r is None,
        },
{
    let mut acc = String::new();
    let mut pos = start;
    while pos < end
        invariant
            start <= pos <= end <= b@.len(),
            text_body(b@, pos as int, end as int, acc@) == text_body(
                b@,
                start as int,
                end as int,
                Seq::empty(),
            ),
        decreases end - pos,
    {
        let f = match read_field(b, pos, end) {
            Some(f) => f,
            None => return None,
        };
        if f.number == 1 {
            if f.wire_type != 2 {
                return None;
            }
            acc = match read_text(b, f) {
                Some(t) => t,
                None => return None,
            };
        }
        pos = f.end;
    }
    Some(acc)
}

fn decode_file_body(b: &[u8], start: usize, end: usize) -> (r: Option<FileMessage>)
    requires
        start <= end <= b@.len(),
    ensures
        match file_body(b@, start as int, end as int, (Seq::empty(), 0, Seq::empty())) {
            Some((n, z, d)) => r matches Some(x) && x.name@ == n && x.size == z && x.data@ == d,
            None => r is None,
        },
{
    let mut acc = FileMessage { name: String::new(), size: 0, data: Vec::new() };
    let mut pos = start;
    assert(acc.data@ =~= Seq::<u8>::empty());
    while pos < end
        invariant
            start <= pos <= end <= b@.len(),
            file_body(b@, pos as int, end as int, (acc.name@, acc.size, acc.data@)) == file_body(
                b@,
                start as int,
                end as int,
                (Seq::empty(), 0, Seq::empty()),
            ),
        decreases end - pos,
    {
        let f = match read_field(b, pos, end) {
            Some(f) => f,
            None => return None,
        };
        if f.number == 1 {
            if f.wire_type != 2 {
                return None;
            }
            acc.name = match read_text(b, f) {
                Some(t) => t,
                None => return None,
            };
        } else if f.number == 2 {
            if f.wire_type != 0 {
                return None;
            }
            acc.size = f.value;
        } else if f.number == 3 {
            if f.wire_type != 2 {
                return None;
            }
            acc.data = copy_range(b, f.start, f.end);
        }
        pos = f.end;
    }
    Some(acc)
}

fn decode_discovery_body(b: &[u8], start: usize, end: usize) -> (r: Option<
    BrowserPeerDiscoveryMessage,
>)
    requires
        start <= end <= b@.len(),
    ensures
        match discovery_body(b@, start as int, end as int, (Seq::empty(), Seq::empty())) {
            Some((p, l)) => r matches Some(x) && x.peer_id@ == p && texts(x.multiaddrs@) == l,
            None => r is None,
        },
{
    let mut acc = BrowserPeerDiscoveryMessage { peer_id: String::new(), multiaddrs: Vec::new() };
    let mut pos = start;
    assert(texts(acc.multiaddrs@) =~= Seq::<Seq<char>>::empty());
    while pos < end
        invariant
            start <= pos <= end <= b@.len(),
            discovery_body(b@, pos as int, end as int, (acc.peer_id@, texts(acc.multiaddrs@)))
                == discovery_body(b@, start as int, end as int, (Seq::empty(), Seq::empty())),
        decreases end - pos,
    {
        let f = match read_field(b, pos, end) {
            Some(f) => f,
            None => return None,
        };
        if f.number == 1 || f.number == 2 {
            if f.wire_type != 2 {
                return None;
            }
            let t = match read_text(b, f) {
                Some(t) => t,
                None => return None,
            };
            if f.number == 1 {
                acc.peer_id = t;
            } else {
                let ghost before = acc.multiaddrs@;
                acc.multiaddrs.push(t);
                assert(texts(acc.multiaddrs@) =~= texts(before).push(t@));
            }
        }
        pos = f.end;
    }
    Some(acc)
}

fn decode_kind(b: &[u8], f: RawField) -> (r: Option<Message>)
    requires
        f.start <= f.end <= b@.len(),
        1 <= f.number <= 4,
    ensures
        match body_of(b@, f) {
            Some(c) => r matches Some(x) && x@ == c,
            None => r is None,
        },
{
    if f.number == 1 {
        match decode_text_body(b, f.start, f.end) {
            Some(t) => Some(Message::Chat(ChatMessage { message: t })),
            None => None,
        }
    } else if f.number == 2 {
        match decode_file_body(b, f.start, f.end) {
            Some(x) => Some(Message::File(x)),
            None => None,
        }
    } else if f.number == 3 {
        match decode_text_body(b, f.start, f.end) {
            Some(t) => Some(Message::Webrtc(WebrtcMessage { data: t })),
            None => None,
        }
    } else {
        match decode_discovery_body(b, f.start, f.end) {
            Some(x) => Some(Message::BrowserPeerDiscovery(x)),
            None => None,
        }
    }
}

fn put_text_field(out: &mut Vec<u8>, number: u64, t: &String)
    requires
        1 <= number <= 4,
    ensures
        final(out)@ == old(out)@ + text_field(number, t@),
{
    let t = t.as_str();
    if !t.is_empty() {
        put_len_field(out, number, t.as_bytes());
    } else {
        assert(old(out)@ + text_field(number, t@) =~= old(out)@);
    }
}

impl Message {
    /// The encoding of this kind's nested message.
    pub fn encode_body(&self) -> (r: Vec<u8>)
        ensures
            r@ == body_encoding(self@),
    {
        let mut out: Vec<u8> = Vec::new();
        match self {
            Message::Chat(c) => {
                put_text_field(&mut out, 1, &c.message);
            },
            Message::File(f) => {
                put_text_field(&mut out, 1, &f.name);
                if f.size != 0 {
                    put_varint_field(&mut out, 2, f.size);
                }
                if f.data.len() != 0 {
                    put_len_field(&mut out, 3, f.data.as_slice());
                }
            },
            Message::Webrtc(w) => {
                put_text_field(&mut out, 1, &w.data);
            },
            Message::BrowserPeerDiscovery(d) => {
                put_text_field(&mut out, 1, &d.peer_id);
                let ghost head = out@;
                let mut i: usize = 0;
                assert(texts(d.multiaddrs@).subrange(0, 0) =~= Seq::<Seq<char>>::empty());
                while i < d.multiaddrs.len()
                    invariant
                        i <= d.multiaddrs@.len(),
                        out@ == head + addrs_encoding(texts(d.multiaddrs@).subrange(0, i as int)),
                    decreases d.multiaddrs@.len() - i,
                {
                    let a = d.multiaddrs[i].as_str();
                    let ghost cur = texts(d.multiaddrs@).subrange(0, i as int + 1);
                    assert(cur.drop_last() =~= texts(d.multiaddrs@).subrange(0, i as int));
                    assert(cur.last() == a@);
                    put_len_field(&mut out, 2, a.as_bytes());
                    assert(out@ =~= head + addrs_encoding(cur));
                    i = i + 1;
                }
                assert(texts(d.multiaddrs@).subrange(0, d.multiaddrs@.len() as int) =~= texts(
                    d.multiaddrs@,
                ));
            },
        }
        assert(out@ =~= body_encoding(self@));
        out
    }

    fn number(&self) -> (r: u64)
        ensures
            r == kind_number(self@),
    {
        match self {
            Message::Chat(_) => 1,
            Message::File(_) => 2,
            Message::Webrtc(_) => 3,
            Message::BrowserPeerDiscovery(_) => 4,
        }
    }
}

impl UniversalConnectivityMessage {
    /// Encodes the message: `r@ == envelope_encoding(self@)`.
    pub fn encode(&self) -> (r: Vec<u8>)
        ensures
            r@ == envelope_encoding(self@),
    {
        let mut out: Vec<u8> = Vec::new();
        match &self.message {
            None => {},
            Some(m) => {
                let body = m.encode_body();
                put_len_field(&mut out, m.number(), body.as_slice());
            },
        }
        assert(out@ =~= envelope_encoding(self@));
        out
    }

    /// Decodes a message: `Some` exactly when the bytes are a valid encoding,
    /// holding the message they encode.
    pub fn decode(b: &[u8]) -> (r: Option<UniversalConnectivityMessage>)
        ensures
            match envelope_decoding(b@) {
                Some(v) => r matches Some(m) && m@ == v,
                None => r is None,
            },
    {
        let mut acc = UniversalConnectivityMessage { message: None };
        let mut pos: usize = 0;
        while pos < b.len()
            invariant
                pos <= b@.len(),
                envelope_body(b@, pos as int, acc@) == envelope_decoding(b@),
            decreases b@.len() - pos,
        {
            let f = match read_field(b, pos, b.len()) {
                Some(f) => f,
                None => return None,
            };
            if 1 <= f.number && f.number <= 4 {
                if f.wire_type != 2 {
                    return None;
                }
                match decode_kind(b, f) {
                    Some(m) => {
                        acc.message = Some(m);
                    },
                    None => return None,
                }
            }
            pos = f.end;
        }
        Some(acc)
    }
}

proof fn lemma_split(s: Seq<u8>, pos: int, x: Seq<u8>, y: Seq<u8>)
    requires
        0 <= pos,
        pos + x.len() + y.len() <= s.len(),
        s.subrange(pos, pos + x.len() + y.len()) == x + y,
    ensures
        s.subrange(pos, pos + x.len()) == x,
        s.subrange(pos + x.len(), pos + x.len() + y.len()) == y,
{
    assert(s.subrange(pos, pos + x.len()) =~= x) by {
        assert forall|j: int| 0 <= j < x.len() implies s.subrange(pos, pos + x.len())[j] == x[j] by {
            assert(s.subrange(pos, pos + x.len() + y.len())[j] == (x + y)[j]);
        }
    }
    assert(s.subrange(pos + x.len(), pos + x.len() + y.len()) =~= y) by {
        assert forall|j: int| 0 <= j < y.len() implies s.subrange(
            pos + x.len(),
            pos + x.len() + y.len(),
        )[j] == y[j] by {
            assert(s.subrange(pos, pos + x.len() + y.len())[x.len() + j] == (x + y)[x.len() + j]);
            assert(s.subrange(pos, pos + x.len() + y.len())[x.len() + j] == s[pos + x.len() + j]);
            assert(s.subrange(pos + x.len(), pos + x.len() + y.len())[j] == s[pos + x.len() + j]);
        }
    }
}

proof fn lemma_text_at(s: Seq<u8>, pos: int, end: int, number: u64, t: Seq<char>)
    requires
        1 <= number <= 4,
        s.len() <= usize::MAX,
        0 <= pos,
        pos + len_field(number, encode_utf8(t)).len() <= end <= s.len(),
        s.subrange(pos, pos + len_field(number, encode_utf8(t)).len()) == len_field(
            number,
            encode_utf8(t),
        ),
    ensures
        field_at(s, pos, end) matches Some(f) && f.number == number && f.wire_type == 2 && f.end
            == pos + len_field(number, encode_utf8(t)).len() && text_of(s, f) == Some(t)
            && f.start <= f.end,
{
    lemma_len_field_reads_back(s, pos, end, number, encode_utf8(t));
}

proof fn lemma_text_body(s: Seq<u8>, pos: int, end: int, t: Seq<char>)
    requires
        s.len() <= usize::MAX,
        0 <= pos,
        end == pos + text_field(1, t).len(),
        end <= s.len(),
        s.subrange(pos, end) == text_field(1, t),
    ensures
        text_body(s, pos, end, Seq::empty()) == Some(t),
{
    if t.len() == 0 {
        assert(t =~= Seq::<char>::empty());
    } else {
        lemma_text_at(s, pos, end, 1, t);
        assert(text_body(s, end, end, t) == Some(t));
    }
}

proof fn lemma_file_body(s: Seq<u8>, pos: int, end: int, name: Seq<char>, size: u64, data: Seq<u8>)
    requires
        s.len() <= usize::MAX,
        0 <= pos,
        end == pos + body_encoding(ContentView::File(name, size, data)).len(),
        end <= s.len(),
        s.subrange(pos, end) == body_encoding(ContentView::File(name, size, data)),
    ensures
        file_body(s, pos, end, (Seq::empty(), 0, Seq::empty())) == Some((name, size, data)),
{
    let a = text_field(1, name);
    let b = int_field(2, size);
    let c = bytes_field(3, data);
    assert(body_encoding(ContentView::File(name, size, data)) == a + b + c);
    lemma_split(s, pos, a + b, c);
    lemma_split(s, pos, a, b);
    let p1 = pos + a.len();
    let p2 = p1 + b.len();
    let acc1 = (name, 0u64, Seq::<u8>::empty());
    let acc2 = (name, size, Seq::<u8>::empty());
    if name.len() == 0 {
        assert(name =~= Seq::<char>::empty());
    } else {
        lemma_text_at(s, pos, end, 1, name);
    }
    assert(file_body(s, pos, end, (Seq::empty(), 0, Seq::empty())) == file_body(s, p1, end, acc1));
    if size != 0 {
        lemma_varint_field_reads_back(s, p1, end, 2, size);
    }
    assert(file_body(s, p1, end, acc1) == file_body(s, p2, end, acc2));
    if data.len() == 0 {
        assert(data =~= Seq::<u8>::empty());
        assert(p2 == end);
    } else {
        lemma_len_field_reads_back(s, p2, end, 3, data);
        assert(file_body(s, end, end, (name, size, data)) == Some((name, size, data)));
    }
}

proof fn lemma_addrs_front(addrs: Seq<Seq<char>>)
    requires
        addrs.len() > 0,
    ensures
        addrs_encoding(addrs) == len_field(2, encode_utf8(addrs[0])) + addrs_encoding(
            addrs.drop_first(),
        ),
    decreases addrs.len(),
{
    if addrs.len() == 1 {
        let x = len_field(2, encode_utf8(addrs[0]));
        assert(addrs.drop_last() =~= Seq::<Seq<char>>::empty());
        assert(addrs.drop_first() =~= Seq::<Seq<char>>::empty());
        assert(addrs_encoding(addrs.drop_last()) == Seq::<u8>::empty());
        assert(addrs_encoding(addrs.drop_first()) == Seq::<u8>::empty());
        assert(addrs.last() == addrs[0]);
        assert(addrs_encoding(addrs) == Seq::<u8>::empty() + x);
        assert(Seq::<u8>::empty() + x =~= x);
        assert(x + Seq::<u8>::empty() =~= x);
    } else {
        let init = addrs.drop_last();
        lemma_addrs_front(init);
        assert(init.drop_first() =~= addrs.drop_first().drop_last());
        assert(addrs.drop_first().last() == addrs.last());
        assert(init[0] == addrs[0]);
        assert(addrs_encoding(addrs) =~= len_field(2, encode_utf8(addrs[0])) + addrs_encoding(
            addrs.drop_first(),
        ));
    }
}

proof fn lemma_addrs_body(
    s: Seq<u8>,
    pos: int,
    end: int,
    peer: Seq<char>,
    seen: Seq<Seq<char>>,
    addrs: Seq<Seq<char>>,
)
    requires
        s.len() <= usize::MAX,
        0 <= pos,
        end == pos + addrs_encoding(addrs).len(),
        end <= s.len(),
        s.subrange(pos, end) == addrs_encoding(addrs),
    ensures
        discovery_body(s, pos, end, (peer, seen)) == Some((peer, seen + addrs)),
    decreases addrs.len(),
{
    if addrs.len() == 0 {
        assert(seen + addrs =~= seen);
    } else {
        lemma_addrs_front(addrs);
        let first = len_field(2, encode_utf8(addrs[0]));
        let rest = addrs_encoding(addrs.drop_first());
        lemma_split(s, pos, first, rest);
        lemma_text_at(s, pos, end, 2, addrs[0]);
        let p1 = pos + first.len();
        lemma_addrs_body(s, p1, end, peer, seen.push(addrs[0]), addrs.drop_first());
        assert(seen.push(addrs[0]) + addrs.drop_first() =~= seen + addrs);
    }
}

proof fn lemma_discovery_body(s: Seq<u8>, pos: int, end: int, peer: Seq<char>, addrs: Seq<Seq<char>>)
    requires
        s.len() <= usize::MAX,
        0 <= pos,
        end == pos + body_encoding(ContentView::BrowserPeerDiscovery(peer, addrs)).len(),
        end <= s.len(),
        s.subrange(pos, end) == body_encoding(ContentView::BrowserPeerDiscovery(peer, addrs)),
    ensures
        discovery_body(s, pos, end, (Seq::empty(), Seq::empty())) == Some((peer, addrs)),
{
    let a = text_field(1, peer);
    let b = addrs_encoding(addrs);
    lemma_split(s, pos, a, b);
    let p1 = pos + a.len();
    if peer.len() == 0 {
        assert(peer =~= Seq::<char>::empty());
    } else {
        lemma_text_at(s, pos, end, 1, peer);
    }
    assert(discovery_body(s, pos, end, (Seq::empty(), Seq::empty())) == discovery_body(
        s,
        p1,
        end,
        (peer, Seq::empty()),
    ));
    lemma_addrs_body(s, p1, end, peer, Seq::empty(), addrs);
    assert(Seq::<Seq<char>>::empty() + addrs =~= addrs);
}

proof fn lemma_body_of(s: Seq<u8>, f: RawField, c: ContentView)
    requires
        s.len() <= usize::MAX,
        f.start <= f.end <= s.len(),
        f.number == kind_number(c),
        f.end == f.start + body_encoding(c).len(),
        s.subrange(f.start as int, f.end as int) == body_encoding(c),
    ensures
        body_of(s, f) == Some(c),
{
    let (a, e) = (f.start as int, f.end as int);
    match c {
        ContentView::Chat(t) => lemma_text_body(s, a, e, t),
        ContentView::File(name, size, data) => lemma_file_body(s, a, e, name, size, data),
        ContentView::Webrtc(t) => lemma_text_body(s, a, e, t),
        ContentView::BrowserPeerDiscovery(p, l) => lemma_discovery_body(s, a, e, p, l),
    }
}

/// Encoding a message of any kind and decoding the bytes gives the same
/// message back: empty texts, empty and large binary payloads, and messages
/// without a kind included.
pub proof fn lemma_envelope_round_trip(m: Option<ContentView>)
    requires
        envelope_encoding(m).len() <= usize::MAX,
    ensures
        envelope_decoding(envelope_encoding(m)) == Some(m),
{
    let s = envelope_encoding(m);
    if let Some(c) = m {
        let body = body_encoding(c);
        let n = kind_number(c);
        assert(s.subrange(0, s.len() as int) =~= s);
        lemma_len_field_reads_back(s, 0, s.len() as int, n, body);
        let f = field_at(s, 0, s.len() as int)->Some_0;
        lemma_body_of(s, f, c);
        assert(envelope_body(s, f.end as int, Some(c)) == Some(Some(c)));
    }
}

} // verus!
