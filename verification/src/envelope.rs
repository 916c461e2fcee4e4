//! Envelopes of the Connect streaming protocol: a flag byte, the length of the
//! message in four bytes, most significant first, and the message.
use vstd::prelude::*;

verus! {

#[verifier::external_type_specification]
#[verifier::external_body]
pub struct ExBytesMut(bytes::BytesMut);

#[verifier::external_type_specification]
#[verifier::external_body]
pub struct ExBytes(bytes::Bytes);

/// The bytes that a `BytesMut` holds.
pub uninterp spec fn bytes_held(buffer: bytes::BytesMut) -> Seq<u8>;

/// The bytes that a `Bytes` holds.
pub uninterp spec fn frozen_bytes(frozen: bytes::Bytes) -> Seq<u8>;

/// `BytesMut::with_capacity`: a buffer with nothing in it.
#[verifier::external_body]
fn buffer_with_capacity(capacity: usize) -> (buffer: bytes::BytesMut)
    requires
        capacity <= isize::MAX,
    ensures
        bytes_held(buffer) == Seq::<u8>::empty(),
{
    bytes::BytesMut::with_capacity(capacity)
}

/// `BufMut::put_u8` of `BytesMut`: appends a byte.
#[verifier::external_body]
fn put_u8(buffer: &mut bytes::BytesMut, n: u8)
    requires
        bytes_held(*old(buffer)).len() + 1 <= isize::MAX,
    ensures
        bytes_held(*final(buffer)) == bytes_held(*old(buffer)).push(n),
{
    bytes::BufMut::put_u8(buffer, n)
}

/// `BufMut::put_u32` of `BytesMut`: appends the four bytes of a number, most
/// significant first.
#[verifier::external_body]
fn put_u32(buffer: &mut bytes::BytesMut, n: u32)
    requires
        bytes_held(*old(buffer)).len() + 4 <= isize::MAX,
    ensures
        bytes_held(*final(buffer)) == bytes_held(*old(buffer)) + big_endian(n),
{
    bytes::BufMut::put_u32(buffer, n)
}

/// `BytesMut::extend_from_slice`: appends bytes.
#[verifier::external_body]
fn extend_from_slice(buffer: &mut bytes::BytesMut, extend: &[u8])
    requires
        bytes_held(*old(buffer)).len() + extend@.len() <= isize::MAX,
    ensures
        bytes_held(*final(buffer)) == bytes_held(*old(buffer)) + extend@,
{
    buffer.extend_from_slice(extend)
}

/// `BytesMut::freeze`: the same bytes, no longer to be changed.
#[verifier::external_body]
fn freeze(buffer: bytes::BytesMut) -> (frozen: bytes::Bytes)
    ensures
        frozen_bytes(frozen) == bytes_held(buffer),
{
    buffer.freeze()
}

/// `BytesMut::len`: how many bytes a buffer holds, which fit `isize`.
#[verifier::external_body]
fn held_len(buffer: &bytes::BytesMut) -> (len: usize)
    ensures
        len == bytes_held(*buffer).len(),
        len <= isize::MAX,
{
    buffer.len()
}

/// Indexing of a `BytesMut` as a slice: the byte at an index.
#[verifier::external_body]
fn byte_at(buffer: &bytes::BytesMut, i: usize) -> (byte: u8)
    requires
        i < bytes_held(*buffer).len(),
    ensures
        byte == bytes_held(*buffer)[i as int],
{
    buffer[i]
}

/// `Buf::advance` of `BytesMut`: drops bytes at the front.
#[verifier::external_body]
fn advance(buffer: &mut bytes::BytesMut, cnt: usize)
    requires
        cnt <= bytes_held(*old(buffer)).len(),
    ensures
        bytes_held(*final(buffer)) == bytes_held(*old(buffer)).skip(cnt as int),
{
    bytes::Buf::advance(buffer, cnt)
}

/// `BytesMut::split_to`: moves bytes at the front into a buffer of their own.
#[verifier::external_body]
fn split_to(buffer: &mut bytes::BytesMut, at: usize) -> (front: bytes::BytesMut)
    requires
        at <= bytes_held(*old(buffer)).len(),
    ensures
        bytes_held(front) == bytes_held(*old(buffer)).take(at as int),
        bytes_held(*final(buffer)) == bytes_held(*old(buffer)).skip(at as int),
{
    buffer.split_to(at)
}

/// The four bytes of a number, most significant first.
pub open spec fn big_endian(n: u32) -> Seq<u8> {
    seq![
        (n / 0x100_0000) as u8,
        (n / 0x1_0000 % 0x100) as u8,
        (n / 0x100 % 0x100) as u8,
        (n % 0x100) as u8,
    ]
}

/// The flag of an envelope: whether it ends the stream.
pub open spec fn envelope_flag(end_stream: bool) -> u8 {
    if end_stream {
        2
    } else {
        0
    }
}

/// The envelope of a message.
pub open spec fn envelope(payload: Seq<u8>, end_stream: bool) -> Seq<u8> {
    seq![envelope_flag(end_stream)] + big_endian((payload.len() % 0x1_0000_0000) as u32) + payload
}

/// Puts a message into an envelope. The length is kept modulo 2^32.
pub fn connect_envelope(payload: &[u8], end_stream: bool) -> (r: bytes::Bytes)
    requires
        5 + payload@.len() <= isize::MAX,
    ensures
        frozen_bytes(r) == envelope(payload@, end_stream),
{
    let len: usize = payload.len();
    let mut buffer = buffer_with_capacity(5 + len);
    put_u8(
        &mut buffer,
        if end_stream {
            2
        } else {
            0
        },
    );
    let kept: u32 = (len as u64 % 0x1_0000_0000) as u32;
    put_u32(&mut buffer, kept);
    extend_from_slice(&mut buffer, payload);
    assert(bytes_held(buffer) =~= envelope(payload@, end_stream));
    freeze(buffer)
}

/// The length that an envelope's header gives its message.
pub open spec fn announced_len(s: Seq<u8>) -> int {
    s[1] * 0x100_0000 + s[2] * 0x1_0000 + s[3] * 0x100 + s[4]
}

/// Whether the first envelope of some bytes is complete.
pub open spec fn holds_frame(s: Seq<u8>) -> bool {
    s.len() >= 5 && s.len() >= 5 + announced_len(s)
}

/// The message of the first envelope, with its flags.
pub open spec fn first_frame(s: Seq<u8>) -> (u8, Seq<u8>) {
    (s[0], s.subrange(5, 5 + announced_len(s)))
}

/// The bytes behind the first envelope.
pub open spec fn behind_frame(s: Seq<u8>) -> Seq<u8> {
    s.skip(5 + announced_len(s))
}

/// The complete envelopes at the front of some bytes.
pub open spec fn frames(s: Seq<u8>) -> Seq<(u8, Seq<u8>)>
    decreases s.len(),
{
    if holds_frame(s) {
        seq![first_frame(s)] + frames(behind_frame(s))
    } else {
        Seq::empty()
    }
}

/// The bytes behind the complete envelopes.
pub open spec fn unframed(s: Seq<u8>) -> Seq<u8>
    decreases s.len(),
{
    if holds_frame(s) {
        unframed(behind_frame(s))
    } else {
        s
    }
}

/// Whether an envelope's flags say that it ends the stream.
pub open spec fn ends_stream(flags: u8) -> bool {
    (flags / 2) % 2 == 1
}

/// A message out of its envelope.
pub struct Frame {
    pub flags: u8,
    pub message: bytes::Bytes,
}

impl View for Frame {
    type V = (u8, Seq<u8>);

    open spec fn view(&self) -> (u8, Seq<u8>) {
        (self.flags, frozen_bytes(self.message))
    }
}

impl Frame {
    /// Tests whether the envelope ended the stream.
    pub fn is_end_stream(&self) -> (r: bool)
        ensures
            r == ends_stream(self.flags),
    {
        let flags: u8 = self.flags;
        assert((flags & 2 != 0) == ((flags / 2) % 2 == 1)) by (bit_vector);
        flags & 2 != 0
    }
}

/// Takes messages out of a stream of envelopes that comes in chunks.
pub struct FrameReader {
    buffered: bytes::BytesMut,
}

impl View for FrameReader {
    type V = Seq<u8>;

    closed spec fn view(&self) -> Seq<u8> {
        bytes_held(self.buffered)
    }
}

impl FrameReader {
    /// A reader that has got nothing yet.
    pub fn new() -> (reader: Self)
        ensures
            reader@ == Seq::<u8>::empty(),
    {
        FrameReader { buffered: buffer_with_capacity(0) }
    }

    /// How many bytes are waiting.
    pub fn waiting(&self) -> (len: usize)
        ensures
            len == self@.len(),
            len <= isize::MAX,
    {
        held_len(&self.buffered)
    }

    /// Puts a chunk behind what is waiting.
    pub fn push(&mut self, chunk: &[u8])
        requires
            old(self)@.len() + chunk@.len() <= isize::MAX,
        ensures
            final(self)@ == old(self)@ + chunk@,
    {
        extend_from_slice(&mut self.buffered, chunk);
    }

    /// Takes the first message, if all of it is there.
    pub fn next_frame(&mut self) -> (r: Option<Frame>)
        ensures
            match r {
                Some(frame) => holds_frame(old(self)@) && frame@ == first_frame(old(self)@)
                    && final(self)@ == behind_frame(old(self)@),
                None => !holds_frame(old(self)@) && final(self)@ == old(self)@,
            },
    {
        let waiting = held_len(&self.buffered);
        if waiting < 5 {
            return None;
        }
        let ghost s = self@;
        let flags = byte_at(&self.buffered, 0);
        let len: u64 = byte_at(&self.buffered, 1) as u64 * 0x100_0000 + byte_at(&self.buffered, 2)
            as u64 * 0x1_0000 + byte_at(&self.buffered, 3) as u64 * 0x100 + byte_at(
            &self.buffered,
            4,
        ) as u64;
        if ((waiting - 5) as u64) < len {
            return None;
        }
        advance(&mut self.buffered, 5);
        let message = split_to(&mut self.buffered, len as usize);
        assert(s.skip(5).take(len as int) =~= s.subrange(5, 5 + len));
        assert(s.skip(5).skip(len as int) =~= s.skip(5 + len));
        Some(Frame { flags, message: freeze(message) })
    }
}

/// The envelopes of messages, one after the other.
pub open spec fn envelopes(messages: Seq<(Seq<u8>, bool)>) -> Seq<u8>
    decreases messages.len(),
{
    if messages.len() == 0 {
        Seq::empty()
    } else {
        envelope(messages[0].0, messages[0].1) + envelopes(messages.skip(1))
    }
}

/// A message comes out of its envelope as it went in, with its flag, whatever
/// bytes stand behind the envelope, and those stay. Lengths of 2^32 and more do
/// not fit an envelope.
pub proof fn law_envelope_gives_the_message_back(
    payload: Seq<u8>,
    end_stream: bool,
    rest: Seq<u8>,
)
    requires
        payload.len() < 0x1_0000_0000,
    ensures
        holds_frame(envelope(payload, end_stream) + rest),
        first_frame(envelope(payload, end_stream) + rest) == (
            envelope_flag(end_stream),
            payload,
        ),
        ends_stream(envelope_flag(end_stream)) == end_stream,
        behind_frame(envelope(payload, end_stream) + rest) == rest,
{
    let n = (payload.len() % 0x1_0000_0000) as u32;
    assert(n == payload.len());
    let s = envelope(payload, end_stream) + rest;
    assert(n / 0x100_0000 < 0x100);
    assert(announced_len(s) == n);
    assert(s.subrange(5, 5 + n) =~= payload);
    assert(s.skip(5 + n) =~= rest);
}

/// Messages that are sent one after the other come out one for one and in
/// order, each with its flag, and nothing is left over.
pub proof fn law_messages_arrive_in_order(messages: Seq<(Seq<u8>, bool)>)
    requires
        forall|i: int| 0 <= i < messages.len() ==> (#[trigger] messages[i]).0.len() < 0x1_0000_0000,
    ensures
        frames(envelopes(messages)) == messages.map_values(
            |m: (Seq<u8>, bool)| (envelope_flag(m.1), m.0),
        ),
        unframed(envelopes(messages)) == Seq::<u8>::empty(),
    decreases messages.len(),
{
    let expected = messages.map_values(|m: (Seq<u8>, bool)| (envelope_flag(m.1), m.0));
    if messages.len() == 0 {
        assert(frames(envelopes(messages)) =~= expected);
    } else {
        let later = messages.skip(1);
        assert forall|i: int| 0 <= i < later.len() implies (#[trigger] later[i]).0.len()
            < 0x1_0000_0000 by {
            assert(later[i] == messages[i + 1]);
        }
        law_messages_arrive_in_order(later);
        law_envelope_gives_the_message_back(messages[0].0, messages[0].1, envelopes(later));
        assert(frames(envelopes(messages)) =~= expected);
    }
}

/// However a stream of envelopes is cut into chunks, the same messages come
/// out of it, and the same bytes are left waiting.
pub proof fn law_frames_ignore_chunks(a: Seq<u8>, b: Seq<u8>)
    ensures
        frames(a + b) == frames(a) + frames(unframed(a) + b),
        unframed(a + b) == unframed(unframed(a) + b),
    decreases a.len(),
{
    if holds_frame(a) {
        assert(announced_len(a + b) == announced_len(a));
        assert(first_frame(a + b).1 =~= first_frame(a).1);
        assert(behind_frame(a + b) =~= behind_frame(a) + b);
        law_frames_ignore_chunks(behind_frame(a), b);
        assert(seq![first_frame(a)] + (frames(behind_frame(a)) + frames(
            unframed(behind_frame(a)) + b,
        )) =~= (seq![first_frame(a)] + frames(behind_frame(a))) + frames(
            unframed(behind_frame(a)) + b,
        ));
    } else {
        assert(Seq::<(u8, Seq<u8>)>::empty() + frames(a + b) =~= frames(a + b));
    }
}

/// An envelope is a flag, two where it ends the stream and else zero, the length
/// of the message in four bytes, the most significant first, and then the
/// message as it is.
pub proof fn law_envelopes_are_flag_length_and_message(payload: Seq<u8>, end_stream: bool)
    ensures
        ({
            let e = envelope(payload, end_stream);
            &&& e.len() == payload.len() + 5
            &&& e[0] == if end_stream {
                2u8
            } else {
                0u8
            }
            &&& e[1] * 0x100_0000 + e[2] * 0x1_0000 + e[3] * 0x100 + e[4] == payload.len()
                % 0x1_0000_0000
            &&& e.skip(5) == payload
        }),
{
    let e = envelope(payload, end_stream);
    let n = (payload.len() % 0x1_0000_0000) as u32;
    assert(n / 0x100_0000 < 0x100);
    assert(e.skip(5) =~= payload);
}

/// The first message of some bytes is there exactly if all the bytes are that
/// its header announces; it is those bytes, with the flags that stand before
/// them, and the bytes behind it stay as they are. A message ends the stream
/// exactly if its flags hold the second bit.
pub proof fn law_frames_are_taken_whole(flags: u8, n: u32, message: Seq<u8>, rest: Seq<u8>, k: int)
    requires
        message.len() == n,
        0 <= k < 5 + n,
    ensures
        ({
            let s = seq![flags] + big_endian(n) + message + rest;
            &&& holds_frame(s)
            &&& first_frame(s) == (flags, message)
            &&& behind_frame(s) == rest
            &&& !holds_frame(s.take(k))
        }),
        big_endian(n).len() == 4,
        big_endian(n)[0] * 0x100_0000 + big_endian(n)[1] * 0x1_0000 + big_endian(n)[2] * 0x100
            + big_endian(n)[3] == n,
        ends_stream(flags) <==> flags & 2 != 0,
{
    let s = seq![flags] + big_endian(n) + message + rest;
    assert(n / 0x100_0000 < 0x100);
    assert(announced_len(s) == n);
    assert(s.subrange(5, 5 + n) =~= message);
    assert(s.skip(5 + n) =~= rest);
    if k >= 5 {
        assert(announced_len(s.take(k)) == n);
    }
    assert((flags & 2 != 0) == ((flags / 2) % 2 == 1)) by (bit_vector);
}

} // verus!
