use crate::buffer::{buf_bytes, take_front};
use crate::message::{message_of_tag, valid_tag, Message, MessageView};
use crate::pattern::Pattern;
use crate::text::{decode_lossy, text_of};
use bytes::BytesMut;
use vstd::prelude::*;
use vstd::utf8::encode_utf8;

verus! {

// A frame on the wire, integers big-endian:
//      [tag: 1][namespace length: 2][namespace]
// and for an event after that
//      [payload length: 4][payload]

/// Why encoding or decoding failed.
#[derive(Clone, Copy, Debug, PartialEq, Eq)]
pub enum CodecError {
    /// The namespace takes more bytes than its 2-byte length field can count.
    OversizedNamespace,
    /// The payload takes more bytes than its 4-byte length field can count.
    OversizedData,
    /// A frame starts with a byte that is no tag.
    UnknownTag,
}

impl CodecError {
    /// A one-line description of the failure.
    pub fn description(&self) -> (r: &'static str)
        ensures
            *self == CodecError::OversizedNamespace ==> r@
                == "Namespace length cannot be greater than a u16"@,
            *self == CodecError::OversizedData ==> r@
                == "Data length cannot be greater than a u32"@,
            *self == CodecError::UnknownTag ==> r@ == "Unknown Message discriminant"@,
    {
        match self {
            CodecError::OversizedNamespace => "Namespace length cannot be greater than a u16",
            CodecError::OversizedData => "Data length cannot be greater than a u32",
            CodecError::UnknownTag => "Unknown Message discriminant",
        }
    }
}

/// `n` as two bytes, most significant first.
pub open spec fn be16_bytes(n: nat) -> Seq<u8> {
    seq![(n / 0x100) as u8, (n % 0x100) as u8]
}

/// `n` as four bytes, most significant first.
pub open spec fn be32_bytes(n: nat) -> Seq<u8> {
    seq![
        (n / 0x1000000) as u8,
        ((n / 0x10000) % 0x100) as u8,
        ((n / 0x100) % 0x100) as u8,
        (n % 0x100) as u8,
    ]
}

/// The big-endian integer in the two bytes of `s` at `i`.
pub open spec fn read_be16(s: Seq<u8>, i: int) -> nat {
    s[i] as nat * 0x100 + s[i + 1] as nat
}

/// The big-endian integer in the four bytes of `s` at `i`.
pub open spec fn read_be32(s: Seq<u8>, i: int) -> nat {
    s[i] as nat * 0x1000000 + s[i + 1] as nat * 0x10000 + s[i + 2] as nat * 0x100 + s[i
        + 3] as nat
}

/// Whether the namespace and payload of `m` fit their length fields.
pub open spec fn fits_frame(m: MessageView) -> bool {
    encode_utf8(m.namespace()).len() <= 0xffff && encode_utf8(m.payload()).len() <= 0xffff_ffff
}

/// The frame that encodes `m`.
pub open spec fn frame_of(m: MessageView) -> Seq<u8> {
    let ns = encode_utf8(m.namespace());
    let head = seq![m.tag()] + be16_bytes(ns.len()) + ns;
    if m is Event {
        let data = encode_utf8(m.payload());
        head + be32_bytes(data.len()) + data
    } else {
        head
    }
}

/// The namespace length that the frame at the front of `p` gives.
pub open spec fn ns_len_field(p: Seq<u8>) -> int {
    read_be16(p, 1) as int
}

/// The payload length that the event frame at the front of `p` gives.
pub open spec fn data_len_field(p: Seq<u8>) -> int {
    read_be32(p, 3 + ns_len_field(p)) as int
}

/// `p` starts with a byte that is no tag.
pub open spec fn bad_tag(p: Seq<u8>) -> bool {
    p.len() >= 1 && !valid_tag(p[0])
}

/// The length of the frame at the front of `p`, once its length fields are there.
pub open spec fn frame_len(p: Seq<u8>) -> int {
    if p[0] == 4 {
        7 + ns_len_field(p) + data_len_field(p)
    } else {
        3 + ns_len_field(p)
    }
}

/// `p` starts with a whole frame.
pub open spec fn frame_complete(p: Seq<u8>) -> bool {
    &&& p.len() >= 3
    &&& valid_tag(p[0])
    &&& p.len() >= 3 + ns_len_field(p)
    &&& p[0] == 4 ==> p.len() >= 7 + ns_len_field(p)
    &&& p.len() >= frame_len(p)
}

/// The message of the whole frame at the front of `p`.
pub open spec fn frame_message(p: Seq<u8>) -> MessageView {
    let l1 = ns_len_field(p);
    message_of_tag(
        p[0],
        text_of(p.subrange(3, 3 + l1)),
        text_of(p.subrange(7 + l1, frame_len(p))),
    )
}

/// How many bytes of `p`, the start of a frame that is not yet whole, make up
/// fields that are whole.
pub open spec fn fields_read(p: Seq<u8>) -> int {
    if p.len() < 1 {
        0
    } else if p.len() < 3 {
        1
    } else if p.len() < 3 + ns_len_field(p) {
        3
    } else if p.len() < 7 + ns_len_field(p) {
        3 + ns_len_field(p)
    } else {
        7 + ns_len_field(p)
    }
}

/// What one call of `Codec::decode` owes, where `p` is the start of the
/// frame in progress followed by what the buffer held, `r` the result, and
/// `c` and `rest` what the codec and the buffer hold after the call.
pub open spec fn decode_outcome(
    p: Seq<u8>,
    r: Result<Option<Message>, CodecError>,
    c: Seq<u8>,
    rest: Seq<u8>,
) -> bool {
    if bad_tag(p) {
        &&& r == Err::<Option<Message>, CodecError>(CodecError::UnknownTag)
        &&& c == Seq::<u8>::empty()
        &&& rest == p.skip(1)
    } else if frame_complete(p) {
        &&& r matches Ok(Some(m)) && m@ == frame_message(p)
        &&& c == Seq::<u8>::empty()
        &&& rest == p.skip(frame_len(p))
    } else {
        &&& r matches Ok(None)
        &&& c == p.take(fields_read(p))
        &&& rest == p.skip(fields_read(p))
    }
}

/// Which field of a frame the decoder waits for, with the fields read so far.
enum DecodeState {
    AwaitingTag,
    AwaitingNamespaceLength(u8),
    AwaitingNamespace(u8, u16),
    AwaitingPayloadLength(String),
    AwaitingPayload(String, u32),
}

/// The state matches `c`, the bytes of the frame read so far.
spec fn state_matches(state: DecodeState, c: Seq<u8>) -> bool {
    match state {
        DecodeState::AwaitingTag => c.len() == 0,
        DecodeState::AwaitingNamespaceLength(tag) => c.len() == 1 && c[0] == tag && valid_tag(tag),
        DecodeState::AwaitingNamespace(tag, len) => {
            &&& c.len() == 3
            &&& c[0] == tag
            &&& valid_tag(tag)
            &&& len == ns_len_field(c)
        },
        DecodeState::AwaitingPayloadLength(ns) => {
            &&& c.len() >= 3
            &&& c[0] == 4
            &&& c.len() == 3 + ns_len_field(c)
            &&& ns@ == text_of(c.subrange(3, 3 + ns_len_field(c)))
        },
        DecodeState::AwaitingPayload(ns, len) => {
            &&& c.len() >= 3
            &&& c[0] == 4
            &&& c.len() == 7 + ns_len_field(c)
            &&& ns@ == text_of(c.subrange(3, 3 + ns_len_field(c)))
            &&& len == data_len_field(c)
        },
    }
}

/// Encodes messages into frames, and decodes frames as their bytes arrive.
pub struct Codec {
    state: DecodeState,
    consumed: Ghost<Seq<u8>>,
}

impl Codec {
    /// The bytes of the frame in progress that decoding has taken from its buffer.
    pub closed spec fn pending(&self) -> Seq<u8> {
        self.consumed@
    }

    /// The decoding state matches the bytes of the frame read so far.
    pub closed spec fn wf(&self) -> bool {
        state_matches(self.state, self.consumed@)
    }

    /// A codec that waits for the first byte of a frame.
    pub fn new() -> (r: Codec)
        ensures
            r.wf(),
            r.pending() == Seq::<u8>::empty(),
    {
        Codec { state: DecodeState::AwaitingTag, consumed: Ghost(Seq::empty()) }
    }
}

impl Codec {
    /// Appends the frame of `message` to `dst`. Both lengths are checked before
    /// any byte is written, so on failure `dst` is left as it was.
    pub fn encode(&mut self, message: Message, dst: &mut BytesMut) -> (r: Result<(), CodecError>)
        requires
            buf_bytes(*old(dst)).len() + frame_of(message@).len() <= usize::MAX,
        ensures
            *final(self) == *old(self),
            encode_utf8(message@.namespace()).len() > 0xffff ==> r == Err::<(), CodecError>(
                CodecError::OversizedNamespace,
            ),
            encode_utf8(message@.namespace()).len() <= 0xffff && encode_utf8(message@.payload()).len()
                > 0xffff_ffff ==> r == Err::<(), CodecError>(CodecError::OversizedData),
            fits_frame(message@) ==> r is Ok,
            r is Ok ==> buf_bytes(*final(dst)) == buf_bytes(*old(dst)) + frame_of(message@),
            r is Err ==> buf_bytes(*final(dst)) == buf_bytes(*old(dst)),
    {
        let ns = message.namespace().as_str().as_bytes();
        let ns_len = ns.len();
        if ns_len > 0xffff {
            return Err(CodecError::OversizedNamespace);
        }
        if let Message::Event(_, data) = &message {
            if data.as_str().as_bytes().len() > 0xffff_ffff {
                return Err(CodecError::OversizedData);
            }
        }
        let tag = message.poor_mans_discriminant();
        let mut head: Vec<u8> = Vec::new();
        head.push(tag);
        head.push((ns_len / 0x100) as u8);
        head.push((ns_len % 0x100) as u8);
        assert(head@ =~= seq![message@.tag()] + be16_bytes(ns_len as nat));
        dst.extend_from_slice(head.as_slice());
        dst.extend_from_slice(ns);
        if let Message::Event(_, data) = &message {
            let data = data.as_str().as_bytes();
            let data_len = data.len();
            let mut len_field: Vec<u8> = Vec::new();
            len_field.push((data_len / 0x1000000) as u8);
            len_field.push(((data_len / 0x10000) % 0x100) as u8);
            len_field.push(((data_len / 0x100) % 0x100) as u8);
            len_field.push((data_len % 0x100) as u8);
            assert(len_field@ =~= be32_bytes(data_len as nat));
            dst.extend_from_slice(len_field.as_slice());
            dst.extend_from_slice(data);
        }
        Ok(())
    }

    /// Reads what it can of one frame from the front of `src`. Returns
    /// `Ok(None)` while the frame is not whole, holding the fields read so far
    /// for the next call; the message once it is whole; `UnknownTag` where the
    /// frame starts with a byte that is no tag, which is then taken.
    pub fn decode(&mut self, src: &mut BytesMut) -> (r: Result<Option<Message>, CodecError>)
        requires
            old(self).wf(),
        ensures
            final(self).wf(),
            decode_outcome(
                old(self).pending() + buf_bytes(*old(src)),
                r,
                final(self).pending(),
                buf_bytes(*final(src)),
            ),
    {
        let ghost p = self.consumed@ + buf_bytes(*src);
        if matches!(self.state, DecodeState::AwaitingTag) {
            if let Some(r) = self.read_tag(src, Ghost(p)) {
                return r;
            }
        }
        if matches!(self.state, DecodeState::AwaitingNamespaceLength(_)) {
            if let Some(r) = self.read_namespace_length(src, Ghost(p)) {
                return r;
            }
        }
        if matches!(self.state, DecodeState::AwaitingNamespace(_, _)) {
            if let Some(r) = self.read_namespace(src, Ghost(p)) {
                return r;
            }
        }
        if matches!(self.state, DecodeState::AwaitingPayloadLength(_)) {
            if let Some(r) = self.read_payload_length(src, Ghost(p)) {
                return r;
            }
        }
        self.read_payload(src, Ghost(p))
    }

    /// Reads the tag; `None` when it was read and is valid.
    fn read_tag(&mut self, src: &mut BytesMut, Ghost(p): Ghost<Seq<u8>>) -> (r: Option<
        Result<Option<Message>, CodecError>,
    >)
        requires
            old(self).wf(),
            old(self).state is AwaitingTag,
            old(self).consumed@ + buf_bytes(*old(src)) == p,
        ensures
            final(self).wf(),
            r matches Some(res) ==> decode_outcome(p, res, final(self).consumed@, buf_bytes(*final(src))),
            r is None ==> final(self).state is AwaitingNamespaceLength && final(self).consumed@ + buf_bytes(*final(src)) == p,
    {
        assert(self.consumed@ =~= Seq::<u8>::empty());
        assert(p =~= buf_bytes(*src));
        if src.len() < 1 {
            assert(p.take(0) =~= self.consumed@);
            assert(p.skip(0) =~= p);
            return Some(Ok(None));
        }
        let b = take_front(src, 1);
        let tag = b[0];
        assert(p[0] == tag);
        assert(buf_bytes(*src) =~= p.skip(1));
        if !Message::test_poor_mans_discriminant(&tag) {
            return Some(Err(CodecError::UnknownTag));
        }
        self.consumed = Ghost(b@);
        self.state = DecodeState::AwaitingNamespaceLength(tag);
        assert(self.consumed@ + buf_bytes(*src) =~= p);
        None
    }

    /// Reads the namespace length; `None` when it was read.
    fn read_namespace_length(&mut self, src: &mut BytesMut, Ghost(p): Ghost<Seq<u8>>) -> (r: Option<
        Result<Option<Message>, CodecError>,
    >)
        requires
            old(self).wf(),
            old(self).state is AwaitingNamespaceLength,
            old(self).consumed@ + buf_bytes(*old(src)) == p,
        ensures
            final(self).wf(),
            r matches Some(res) ==> decode_outcome(p, res, final(self).consumed@, buf_bytes(*final(src))),
            r is None ==> final(self).state is AwaitingNamespace && final(self).consumed@ + buf_bytes(*final(src)) == p,
    {
        let ghost c0 = self.consumed@;
        assert(p[0] == c0[0]);
        if src.len() < 2 {
            assert(p.take(1) =~= c0);
            assert(p.skip(1) =~= buf_bytes(*src));
            return Some(Ok(None));
        }
        let tag = match self.state {
            DecodeState::AwaitingNamespaceLength(tag) => tag,
            _ => 0,
        };
        let b = take_front(src, 2);
        let len = b[0] as u16 * 0x100 + b[1] as u16;
        self.consumed = Ghost(self.consumed@ + b@);
        self.state = DecodeState::AwaitingNamespace(tag, len);
        assert(self.consumed@ + buf_bytes(*src) =~= p);
        None
    }

    /// Reads the namespace, which ends the frame unless it is an event;
    /// `None` when an event goes on with its payload.
    fn read_namespace(&mut self, src: &mut BytesMut, Ghost(p): Ghost<Seq<u8>>) -> (r: Option<
        Result<Option<Message>, CodecError>,
    >)
        requires
            old(self).wf(),
            old(self).state is AwaitingNamespace,
            old(self).consumed@ + buf_bytes(*old(src)) == p,
        ensures
            final(self).wf(),
            r matches Some(res) ==> decode_outcome(p, res, final(self).consumed@, buf_bytes(*final(src))),
            r is None ==> final(self).state is AwaitingPayloadLength && final(self).consumed@ + buf_bytes(*final(src)) == p,
    {
        let ghost c0 = self.consumed@;
        assert(p[0] == c0[0] && p[1] == c0[1] && p[2] == c0[2]);
        let (tag, len) = match self.state {
            DecodeState::AwaitingNamespace(tag, len) => (tag, len),
            _ => (0, 0),
        };
        if src.len() < len as usize {
            assert(p.take(3) =~= c0);
            assert(p.skip(3) =~= buf_bytes(*src));
            return Some(Ok(None));
        }
        let b = take_front(src, len as usize);
        let namespace = decode_lossy(b.as_slice());
        assert(p.subrange(3, 3 + len) =~= b@);
        if tag != 4 {
            self.consumed = Ghost(Seq::empty());
            self.state = DecodeState::AwaitingTag;
            assert(buf_bytes(*src) =~= p.skip(frame_len(p)));
            return Some(Ok(Some(Message::from_poor_mans_discriminant(tag, Pattern::from_string(namespace), None))));
        }
        self.consumed = Ghost(self.consumed@ + b@);
        assert(self.consumed@.subrange(3, 3 + len) =~= b@);
        self.state = DecodeState::AwaitingPayloadLength(namespace);
        assert(self.consumed@ + buf_bytes(*src) =~= p);
        None
    }

    /// Reads the payload length of an event; `None` when it was read.
    fn read_payload_length(&mut self, src: &mut BytesMut, Ghost(p): Ghost<Seq<u8>>) -> (r: Option<
        Result<Option<Message>, CodecError>,
    >)
        requires
            old(self).wf(),
            old(self).state is AwaitingPayloadLength,
            old(self).consumed@ + buf_bytes(*old(src)) == p,
        ensures
            final(self).wf(),
            r matches Some(res) ==> decode_outcome(p, res, final(self).consumed@, buf_bytes(*final(src))),
            r is None ==> final(self).state is AwaitingPayload && final(self).consumed@ + buf_bytes(*final(src)) == p,
    {
        let ghost c0 = self.consumed@;
        assert(p[0] == c0[0] && p[1] == c0[1] && p[2] == c0[2]);
        assert(ns_len_field(p) == ns_len_field(c0));
        if src.len() < 4 {
            assert(p.take(c0.len() as int) =~= c0);
            assert(p.skip(c0.len() as int) =~= buf_bytes(*src));
            return Some(Ok(None));
        }
        let mut state = DecodeState::AwaitingTag;
        core::mem::swap(&mut self.state, &mut state);
        let namespace = match state {
            DecodeState::AwaitingPayloadLength(namespace) => namespace,
            _ => String::new(),
        };
        let b = take_front(src, 4);
        let len = b[0] as u32 * 0x1000000 + b[1] as u32 * 0x10000 + b[2] as u32 * 0x100 + b[3] as u32;
        self.consumed = Ghost(self.consumed@ + b@);
        assert(ns_len_field(self.consumed@) == ns_len_field(c0));
        assert(self.consumed@.subrange(3, 3 + ns_len_field(c0)) =~= c0.subrange(3, 3 + ns_len_field(c0)));
        assert(data_len_field(self.consumed@) == len);
        self.state = DecodeState::AwaitingPayload(namespace, len);
        assert(self.consumed@ + buf_bytes(*src) =~= p);
        None
    }

    /// Reads the payload of an event, which ends the frame.
    fn read_payload(&mut self, src: &mut BytesMut, Ghost(p): Ghost<Seq<u8>>) -> (r: Result<Option<Message>, CodecError>)
        requires
            old(self).wf(),
            old(self).state is AwaitingPayload,
            old(self).consumed@ + buf_bytes(*old(src)) == p,
        ensures
            final(self).wf(),
            decode_outcome(p, r, final(self).consumed@, buf_bytes(*final(src))),
    {
        let ghost c0 = self.consumed@;
        let ghost l1 = ns_len_field(c0);
        assert(p[0] == c0[0] && p[1] == c0[1] && p[2] == c0[2]);
        assert(ns_len_field(p) == l1);
        assert(p[3 + l1] == c0[3 + l1] && p[4 + l1] == c0[4 + l1] && p[5 + l1] == c0[5 + l1] && p[6 + l1] == c0[6 + l1]);
        assert(data_len_field(p) == data_len_field(c0));
        let mut state = DecodeState::AwaitingTag;
        core::mem::swap(&mut self.state, &mut state);
        let (namespace, len) = match state {
            DecodeState::AwaitingPayload(namespace, len) => (namespace, len),
            _ => (String::new(), 0),
        };
        if src.len() < len as usize {
            self.state = DecodeState::AwaitingPayload(namespace, len);
            assert(p.take(c0.len() as int) =~= c0);
            assert(p.skip(c0.len() as int) =~= buf_bytes(*src));
            return Ok(None);
        }
        let b = take_front(src, len as usize);
        let data = decode_lossy(b.as_slice());
        assert(p.subrange(3, 3 + l1) =~= c0.subrange(3, 3 + l1));
        assert(p.subrange(7 + l1, frame_len(p)) =~= b@);
        assert(buf_bytes(*src) =~= p.skip(frame_len(p)));
        self.consumed = Ghost(Seq::empty());
        Ok(Some(Message::Event(Pattern::from_string(namespace), data)))
    }
}

impl Default for Codec {
    fn default() -> (r: Codec)
        ensures
            r.wf(),
            r.pending() == Seq::<u8>::empty(),
    {
        Codec::new()
    }
}

} // verus!

verus! {

proof fn lemma_be16(n: nat)
    requires
        n <= 0xffff,
    ensures
        read_be16(be16_bytes(n), 0) == n,
{
    assert((n / 0x100) as u8 as nat == n / 0x100);
    assert((n % 0x100) as u8 as nat == n % 0x100);
}

proof fn lemma_be32(n: nat)
    requires
        n <= 0xffff_ffff,
    ensures
        read_be32(be32_bytes(n), 0) == n,
{
    assert((n / 0x1000000) as u8 as nat == n / 0x1000000);
    assert(((n / 0x10000) % 0x100) as u8 as nat == (n / 0x10000) % 0x100);
    assert(((n / 0x100) % 0x100) as u8 as nat == (n / 0x100) % 0x100);
    assert((n % 0x100) as u8 as nat == n % 0x100);
    assert(n == (n / 0x1000000) * 0x1000000 + ((n / 0x10000) % 0x100) * 0x10000 + ((n / 0x100)
        % 0x100) * 0x100 + n % 0x100) by (nonlinear_arith)
        requires
            n <= 0xffff_ffff,
    ;
}

/// The length fields of the frame of `m` give the namespace and payload
/// lengths, wherever the frame is followed by more bytes, and its text fields
/// decode to the namespace and payload of `m`.
proof fn lemma_frame_fields(m: MessageView, q: Seq<u8>)
    requires
        fits_frame(m),
        q.len() >= 3,
        forall|i: int| 0 <= i < q.len() && i < frame_of(m).len() ==> q[i] == frame_of(m)[i],
    ensures
        q[0] == m.tag(),
        ns_len_field(q) == encode_utf8(m.namespace()).len(),
        text_of(encode_utf8(m.namespace())) == m.namespace(),
        text_of(encode_utf8(m.payload())) == m.payload(),
        m is Event && q.len() >= 7 + ns_len_field(q) ==> data_len_field(q) == encode_utf8(
            m.payload(),
        ).len(),
        frame_of(m).len() == if m is Event {
            7 + encode_utf8(m.namespace()).len() + encode_utf8(m.payload()).len()
        } else {
            3 + encode_utf8(m.namespace()).len()
        },
{
    broadcast use vstd::utf8::encode_utf8_valid_utf8, vstd::utf8::encode_utf8_decode_utf8;

    let f = frame_of(m);
    let ns = encode_utf8(m.namespace());
    let data = encode_utf8(m.payload());
    lemma_be16(ns.len());
    assert(f[0] == m.tag());
    assert(q[1] == be16_bytes(ns.len())[0] && q[2] == be16_bytes(ns.len())[1]);
    if m is Event && q.len() >= 7 + ns_len_field(q) {
        lemma_be32(data.len());
        let o = 3 + ns.len() as int;
        assert(f.subrange(o, o + 4) =~= be32_bytes(data.len()));
        assert(q[o + 0] == f[o + 0] && q[o + 1] == f[o + 1] && q[o + 2] == f[o + 2] && q[o + 3]
            == f[o + 3]);
    }
}

/// Round trip: the frame of a message that fits, followed by any bytes,
/// decodes to that message and takes exactly the frame's bytes.
pub proof fn lemma_round_trip(m: MessageView, rest: Seq<u8>)
    requires
        fits_frame(m),
    ensures
        !bad_tag(frame_of(m) + rest),
        frame_complete(frame_of(m) + rest),
        frame_len(frame_of(m) + rest) == frame_of(m).len(),
        frame_message(frame_of(m) + rest) == m,
        (frame_of(m) + rest).skip(frame_len(frame_of(m) + rest)) == rest,
{
    let f = frame_of(m);
    let q = f + rest;
    let ns = encode_utf8(m.namespace());
    let data = encode_utf8(m.payload());
    lemma_frame_fields(m, q);
    let l1 = ns.len() as int;
    assert(q.subrange(3, 3 + l1) =~= ns);
    if m is Event {
        assert(q.subrange(7 + l1, frame_len(q)) =~= data);
    }
    assert(q.skip(f.len() as int) =~= rest);
}

/// Partial delivery: on every proper prefix of a frame that fits, decoding
/// waits for more bytes and keeps every byte it has seen, so where the frame
/// is cut does not change what it decodes to once it is whole.
pub proof fn lemma_partial_delivery(m: MessageView, k: int)
    requires
        fits_frame(m),
        0 <= k < frame_of(m).len(),
    ensures
        !bad_tag(frame_of(m).take(k)),
        !frame_complete(frame_of(m).take(k)),
        0 <= fields_read(frame_of(m).take(k)) <= k,
        frame_of(m).take(k).take(fields_read(frame_of(m).take(k))) + frame_of(m).take(k).skip(
            fields_read(frame_of(m).take(k)),
        ) == frame_of(m).take(k),
{
    let f = frame_of(m);
    let q = f.take(k);
    if k >= 1 {
        assert(q[0] == f[0]);
    }
    if k >= 3 {
        lemma_frame_fields(m, q);
    }
    let n = fields_read(q);
    assert(q.take(n) + q.skip(n) =~= q);
}

/// Two frames back to back decode one after the other: the first call gives
/// the first message and leaves exactly the second frame, which then gives
/// the second message and leaves nothing.
pub proof fn lemma_two_frames(m1: MessageView, m2: MessageView)
    requires
        fits_frame(m1),
        fits_frame(m2),
    ensures
        frame_complete(frame_of(m1) + frame_of(m2)),
        frame_message(frame_of(m1) + frame_of(m2)) == m1,
        (frame_of(m1) + frame_of(m2)).skip(frame_len(frame_of(m1) + frame_of(m2))) == frame_of(m2),
        frame_complete(frame_of(m2)),
        frame_message(frame_of(m2)) == m2,
        frame_of(m2).skip(frame_len(frame_of(m2))) == Seq::<u8>::empty(),
{
    lemma_round_trip(m1, frame_of(m2));
    lemma_round_trip(m2, Seq::empty());
    assert(frame_of(m2) + Seq::<u8>::empty() =~= frame_of(m2));
}

} // verus!
