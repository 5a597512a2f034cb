//! The Xenstore wire format: a 16-byte header (kind, request id,
//! transaction id, payload length, each a `u32` in the machine's byte order)
//! followed by the payload.
use vstd::prelude::*;
use vstd::endian::{endianness, Endian};
use vstd::slice::slice_subrange;
pub use vstd::utf8::{decode_utf8, encode_utf8, valid_utf8};
use vstd::utf8::encode_scalar;

use crate::error::{XsError, XsErrorKind};

verus! {

/// Largest payload that the protocol carries.
pub const XENSTORE_PAYLOAD_MAX: usize = 4096;

/// A header carried a kind number that names no message kind.
#[derive(Clone, Copy, Debug)]
pub struct UnknownMessageType;

/// The kinds of Xenstore messages.
#[derive(Clone, Copy, Debug, PartialEq, Eq, Structural)]
pub enum XsMessageType {
    Control,
    Directory,
    Read,
    GetPerms,
    Watch,
    Unwatch,
    TransactionStart,
    TransactionEnd,
    Introduce,
    Release,
    GetDomainPath,
    Write,
    Mkdir,
    Rm,
    SetPerms,
    WatchEvent,
    Error,
    IsDomainIntroduced,
    Resume,
    SetTarget,
    ResetWatches,
    DirectoryPart,
}

/// The number that stands for a message kind on the wire.
pub open spec fn message_type_code(t: XsMessageType) -> u32 {
    match t {
        XsMessageType::Control => 0,
        XsMessageType::Directory => 1,
        XsMessageType::Read => 2,
        XsMessageType::GetPerms => 3,
        XsMessageType::Watch => 4,
        XsMessageType::Unwatch => 5,
        XsMessageType::TransactionStart => 6,
        XsMessageType::TransactionEnd => 7,
        XsMessageType::Introduce => 8,
        XsMessageType::Release => 9,
        XsMessageType::GetDomainPath => 10,
        XsMessageType::Write => 11,
        XsMessageType::Mkdir => 12,
        XsMessageType::Rm => 13,
        XsMessageType::SetPerms => 14,
        XsMessageType::WatchEvent => 15,
        XsMessageType::Error => 16,
        XsMessageType::IsDomainIntroduced => 17,
        XsMessageType::Resume => 18,
        XsMessageType::SetTarget => 19,
        XsMessageType::ResetWatches => 21,
        XsMessageType::DirectoryPart => 22,
    }
}

/// The message kind that a wire number stands for, if any (20 and numbers
/// above 22 stand for none).
pub open spec fn message_type_of_code(c: u32) -> Option<XsMessageType> {
    if c == 0 { Some(XsMessageType::Control) }
    else if c == 1 { Some(XsMessageType::Directory) }
    else if c == 2 { Some(XsMessageType::Read) }
    else if c == 3 { Some(XsMessageType::GetPerms) }
    else if c == 4 { Some(XsMessageType::Watch) }
    else if c == 5 { Some(XsMessageType::Unwatch) }
    else if c == 6 { Some(XsMessageType::TransactionStart) }
    else if c == 7 { Some(XsMessageType::TransactionEnd) }
    else if c == 8 { Some(XsMessageType::Introduce) }
    else if c == 9 { Some(XsMessageType::Release) }
    else if c == 10 { Some(XsMessageType::GetDomainPath) }
    else if c == 11 { Some(XsMessageType::Write) }
    else if c == 12 { Some(XsMessageType::Mkdir) }
    else if c == 13 { Some(XsMessageType::Rm) }
    else if c == 14 { Some(XsMessageType::SetPerms) }
    else if c == 15 { Some(XsMessageType::WatchEvent) }
    else if c == 16 { Some(XsMessageType::Error) }
    else if c == 17 { Some(XsMessageType::IsDomainIntroduced) }
    else if c == 18 { Some(XsMessageType::Resume) }
    else if c == 19 { Some(XsMessageType::SetTarget) }
    else if c == 21 { Some(XsMessageType::ResetWatches) }
    else if c == 22 { Some(XsMessageType::DirectoryPart) }
    else { None }
}

/// Every kind's number leads back to that kind.
pub proof fn lemma_message_type_code_round_trip(t: XsMessageType)
    ensures
        message_type_of_code(message_type_code(t)) == Some(t),
{
}

impl From<XsMessageType> for u32 {
    fn from(val: XsMessageType) -> (r: u32)
        ensures
            r == message_type_code(val),
    {
        match val {
            XsMessageType::Control => 0,
            XsMessageType::Directory => 1,
            XsMessageType::Read => 2,
            XsMessageType::GetPerms => 3,
            XsMessageType::Watch => 4,
            XsMessageType::Unwatch => 5,
            XsMessageType::TransactionStart => 6,
            XsMessageType::TransactionEnd => 7,
            XsMessageType::Introduce => 8,
            XsMessageType::Release => 9,
            XsMessageType::GetDomainPath => 10,
            XsMessageType::Write => 11,
            XsMessageType::Mkdir => 12,
            XsMessageType::Rm => 13,
            XsMessageType::SetPerms => 14,
            XsMessageType::WatchEvent => 15,
            XsMessageType::Error => 16,
            XsMessageType::IsDomainIntroduced => 17,
            XsMessageType::Resume => 18,
            XsMessageType::SetTarget => 19,
            XsMessageType::ResetWatches => 21,
            XsMessageType::DirectoryPart => 22,
        }
    }
}

impl vstd::std_specs::convert::FromSpecImpl<XsMessageType> for u32 {
    open spec fn obeys_from_spec() -> bool {
        true
    }

    open spec fn from_spec(v: XsMessageType) -> u32 {
        message_type_code(v)
    }
}

impl TryFrom<u32> for XsMessageType {
    type Error = UnknownMessageType;

    fn try_from(value: u32) -> (r: Result<Self, UnknownMessageType>)
        ensures
            r == match message_type_of_code(value) {
                Some(t) => Ok::<XsMessageType, UnknownMessageType>(t),
                None => Err(UnknownMessageType),
            },
    {
        match value {
            0 => Ok(Self::Control),
            1 => Ok(Self::Directory),
            2 => Ok(Self::Read),
            3 => Ok(Self::GetPerms),
            4 => Ok(Self::Watch),
            5 => Ok(Self::Unwatch),
            6 => Ok(Self::TransactionStart),
            7 => Ok(Self::TransactionEnd),
            8 => Ok(Self::Introduce),
            9 => Ok(Self::Release),
            10 => Ok(Self::GetDomainPath),
            11 => Ok(Self::Write),
            12 => Ok(Self::Mkdir),
            13 => Ok(Self::Rm),
            14 => Ok(Self::SetPerms),
            15 => Ok(Self::WatchEvent),
            16 => Ok(Self::Error),
            17 => Ok(Self::IsDomainIntroduced),
            18 => Ok(Self::Resume),
            19 => Ok(Self::SetTarget),
            21 => Ok(Self::ResetWatches),
            22 => Ok(Self::DirectoryPart),
            _ => Err(UnknownMessageType),
        }
    }
}

impl vstd::std_specs::convert::TryFromSpecImpl<u32> for XsMessageType {
    open spec fn obeys_try_from_spec() -> bool {
        true
    }

    open spec fn try_from_spec(v: u32) -> Result<Self, UnknownMessageType> {
        match message_type_of_code(v) {
            Some(t) => Ok(t),
            None => Err(UnknownMessageType),
        }
    }
}

/// A protocol frame.
#[derive(Clone, Debug)]
pub struct XsMessage {
    pub msg_type: XsMessageType,
    pub request_id: u32,
    pub payload: Vec<u8>,
}

/// The value of a message, with its payload as a sequence of bytes.
pub struct XsMessageView {
    pub msg_type: XsMessageType,
    pub request_id: u32,
    pub payload: Seq<u8>,
}

impl View for XsMessage {
    type V = XsMessageView;

    open spec fn view(&self) -> XsMessageView {
        XsMessageView { msg_type: self.msg_type, request_id: self.request_id, payload: self.payload@ }
    }
}

/// The bytes of a `u32`, least significant first.
pub open spec fn le_bytes(v: u32) -> Seq<u8> {
    seq![(v & 0xff) as u8, ((v >> 8) & 0xff) as u8, ((v >> 16) & 0xff) as u8, ((v >> 24) & 0xff) as u8]
}

/// The bytes of a `u32`, most significant first.
pub open spec fn be_bytes(v: u32) -> Seq<u8> {
    seq![((v >> 24) & 0xff) as u8, ((v >> 16) & 0xff) as u8, ((v >> 8) & 0xff) as u8, (v & 0xff) as u8]
}

/// The `u32` of four bytes, the first least significant.
pub open spec fn le_value(b: Seq<u8>) -> u32 {
    (b[0] as u32) | ((b[1] as u32) << 8) | ((b[2] as u32) << 16) | ((b[3] as u32) << 24)
}

/// The four bytes of a `u32` in the machine's byte order.
#[verifier::opaque]
pub open spec fn native_bytes(v: u32) -> Seq<u8> {
    match endianness() {
        Endian::Little => le_bytes(v),
        Endian::Big => be_bytes(v),
    }
}

/// The `u32` whose bytes in the machine's byte order are the four bytes `b`.
#[verifier::opaque]
pub open spec fn native_u32(b: Seq<u8>) -> u32 {
    match endianness() {
        Endian::Little => le_value(b),
        Endian::Big => le_value(b.reverse()),
    }
}

proof fn lemma_le_bytes_of_value(b: Seq<u8>)
    requires
        b.len() == 4,
    ensures
        le_bytes(le_value(b)) == b,
{
    let (b0, b1, b2, b3) = (b[0], b[1], b[2], b[3]);
    let w = (b0 as u32) | ((b1 as u32) << 8) | ((b2 as u32) << 16) | ((b3 as u32) << 24);
    assert((w & 0xff) as u8 == b0 && ((w >> 8) & 0xff) as u8 == b1 && ((w >> 16) & 0xff) as u8
        == b2 && ((w >> 24) & 0xff) as u8 == b3) by (bit_vector)
        requires
            w == (b0 as u32) | ((b1 as u32) << 8) | ((b2 as u32) << 16) | ((b3 as u32) << 24),
    ;
    assert(le_bytes(le_value(b)) =~= b);
}

/// A `u32` is the value of its four bytes in the machine's byte order.
pub proof fn lemma_native_value(v: u32)
    ensures
        native_bytes(v).len() == 4,
        native_u32(native_bytes(v)) == v,
{
    reveal(native_bytes);
    reveal(native_u32);
    assert(((((v & 0xff) as u8) as u32) | ((((v >> 8) & 0xff) as u8) as u32) << 8 | ((((v >> 16)
        & 0xff) as u8) as u32) << 16 | ((((v >> 24) & 0xff) as u8) as u32) << 24) == v)
        by (bit_vector);
    assert(be_bytes(v).reverse() =~= le_bytes(v));
}

/// Four bytes are the bytes, in the machine's byte order, of their value.
pub proof fn lemma_native_bytes_of(b: Seq<u8>)
    requires
        b.len() == 4,
    ensures
        native_bytes(native_u32(b)) == b,
{
    reveal(native_bytes);
    reveal(native_u32);
    lemma_le_bytes_of_value(b);
    lemma_le_bytes_of_value(b.reverse());
    assert(b.reverse().reverse() =~= b);
    assert(be_bytes(le_value(b.reverse())) =~= le_bytes(le_value(b.reverse())).reverse());
}

/// Relies on `u32::to_ne_bytes`: the value's bytes in the machine's byte
/// order, that is `to_le_bytes` on a little-endian machine and
/// `to_be_bytes` on a big-endian one.
#[verifier::external_body]
fn u32_to_native(v: u32) -> (r: [u8; 4])
    ensures
        r@ == native_bytes(v),
{
    v.to_ne_bytes()
}

/// Relies on `u32::from_ne_bytes`: the value whose bytes in the machine's
/// byte order are `b`.
#[verifier::external_body]
fn u32_from_native(b: [u8; 4]) -> (r: u32)
    ensures
        r == native_u32(b@),
{
    u32::from_ne_bytes(b)
}

/// The header and payload of a message sent with transaction id `tx`.
pub open spec fn frame(m: XsMessageView, tx: u32) -> Seq<u8> {
    native_bytes(message_type_code(m.msg_type)) + native_bytes(m.request_id) + native_bytes(tx)
        + native_bytes(m.payload.len() as u32) + m.payload
}

/// The bytes that encode a message: this client always sends transaction id 0.
pub open spec fn encoding(m: XsMessageView) -> Seq<u8> {
    frame(m, 0)
}

/// The `i`-th `u32` field of a header.
pub open spec fn header_field(input: Seq<u8>, i: int) -> u32 {
    native_u32(input.subrange(4 * i, 4 * i + 4))
}

/// What decoding the start of `input` gives: a message, or the kind of the
/// failure (input too short for the header or the payload that it
/// announces; a kind number that names no kind).
pub open spec fn spec_read_from(input: Seq<u8>) -> Result<XsMessageView, XsErrorKind> {
    if input.len() < 16 || input.len() < 16 + header_field(input, 3) {
        Err(XsErrorKind::UnexpectedEof)
    } else {
        match message_type_of_code(header_field(input, 0)) {
            None => Err(XsErrorKind::Unsupported),
            Some(t) => Ok(
                XsMessageView {
                    msg_type: t,
                    request_id: header_field(input, 1),
                    payload: input.subrange(16, 16 + header_field(input, 3)),
                },
            ),
        }
    }
}

/// Decoding the encoding of a message gives the message back, whatever
/// bytes follow it and whatever its transaction id.
pub proof fn lemma_codec_round_trip(m: XsMessageView, tx: u32, rest: Seq<u8>)
    requires
        m.payload.len() <= XENSTORE_PAYLOAD_MAX,
    ensures
        spec_read_from(frame(m, tx) + rest) == Ok::<XsMessageView, XsErrorKind>(m),
{
    lemma_frame_parts(m, tx);
    lemma_native_value(message_type_code(m.msg_type));
    lemma_native_value(m.request_id);
    lemma_native_value(m.payload.len() as u32);
    lemma_message_type_code_round_trip(m.msg_type);
    let f = frame(m, tx);
    let input = f + rest;
    assert(input.subrange(0, 4) =~= f.subrange(0, 4));
    assert(input.subrange(4, 8) =~= f.subrange(4, 8));
    assert(input.subrange(12, 16) =~= f.subrange(12, 16));
    assert(input.subrange(16, 16 + m.payload.len() as int) =~= f.subrange(
        16,
        16 + m.payload.len() as int,
    ));
}

/// Appends `bytes` to `out`.
fn push_bytes(out: &mut Vec<u8>, bytes: &[u8])
    ensures
        final(out)@ == old(out)@ + bytes@,
{
    let mut i: usize = 0;
    while i < bytes.len()
        invariant
            i <= bytes@.len(),
            out@ == old(out)@ + bytes@.subrange(0, i as int),
        decreases bytes@.len() - i,
    {
        out.push(bytes[i]);
        i = i + 1;
        assert(bytes@.subrange(0, i as int) == bytes@.subrange(0, i - 1) + seq![bytes@[i - 1]]);
    }
    assert(bytes@.subrange(0, bytes@.len() as int) == bytes@);
}

/// Reads the `u32` at `start` in the machine's byte order.
fn read_native(input: &[u8], start: usize) -> (r: u32)
    requires
        start + 4 <= input@.len(),
    ensures
        r == native_u32(input@.subrange(start as int, start + 4)),
        forall|v: u32| #[trigger] native_bytes(v) == input@.subrange(start as int, start + 4) ==> v == r,
{
    let b: [u8; 4] = [input[start], input[start + 1], input[start + 2], input[start + 3]];
    assert(b@ =~= input@.subrange(start as int, start + 4));
    let r = u32_from_native(b);
    assert forall|v: u32| #[trigger] native_bytes(v) == b@ implies v == r by {
        lemma_native_value(v);
    }
    r
}

/// Where the fields of a frame stand.
proof fn lemma_frame_parts(m: XsMessageView, tx: u32)
    ensures
        frame(m, tx).len() == 16 + m.payload.len(),
        frame(m, tx).subrange(0, 4) == native_bytes(message_type_code(m.msg_type)),
        frame(m, tx).subrange(4, 8) == native_bytes(m.request_id),
        frame(m, tx).subrange(12, 16) == native_bytes(m.payload.len() as u32),
        frame(m, tx).subrange(16, 16 + m.payload.len() as int) == m.payload,
{
    lemma_native_value(message_type_code(m.msg_type));
    lemma_native_value(m.request_id);
    lemma_native_value(tx);
    lemma_native_value(m.payload.len() as u32);
    let f = frame(m, tx);
    assert(f.subrange(0, 4) =~= native_bytes(message_type_code(m.msg_type)));
    assert(f.subrange(4, 8) =~= native_bytes(m.request_id));
    assert(f.subrange(12, 16) =~= native_bytes(m.payload.len() as u32));
    assert(f.subrange(16, 16 + m.payload.len() as int) =~= m.payload);
}

impl XsMessage {
    /// Appends the encoding of the message to `writer`; a payload over
    /// `XENSTORE_PAYLOAD_MAX` bytes is refused and nothing is written.
    pub fn write_to(&self, writer: &mut Vec<u8>) -> (r: Result<(), XsError>)
        ensures
            self.payload@.len() > XENSTORE_PAYLOAD_MAX ==> (r matches Err(e) && e.kind
                == XsErrorKind::InvalidData) && final(writer)@ == old(writer)@,
            self.payload@.len() <= XENSTORE_PAYLOAD_MAX ==> r is Ok && final(writer)@ == old(
                writer,
            )@ + encoding(self@),
    {
        if self.payload.len() > XENSTORE_PAYLOAD_MAX {
            return Err(XsError::new(XsErrorKind::InvalidData, "Payload is too large (>4096)"));
        }
        let kind = u32_to_native(u32::from(self.msg_type));
        let request_id = u32_to_native(self.request_id);
        let tx_id = u32_to_native(0u32);
        let len = u32_to_native(self.payload.len() as u32);
        push_bytes(writer, &kind);
        push_bytes(writer, &request_id);
        push_bytes(writer, &tx_id);
        push_bytes(writer, &len);
        push_bytes(writer, self.payload.as_slice());
        Ok(())
    }

    /// The payload length that a header announces: after the 16 header
    /// bytes, that many bytes complete the frame.
    pub fn payload_len(header: &[u8]) -> (r: u32)
        requires
            header@.len() >= 16,
        ensures
            r == header_field(header@, 3),
            forall|v: u32| #[trigger] native_bytes(v) == header@.subrange(12, 16) ==> v == r,
    {
        read_native(header, 12)
    }

    /// Decodes the message at the start of `input`. It takes
    /// `16 + payload.len()` bytes; what follows is not read.
    ///
    /// Decoding an encoding gives the message back: when `input` starts with
    /// the frame of a message `m`, whatever its transaction id, the result is `m`.
    pub fn read_from(input: &[u8]) -> (r: Result<XsMessage, XsError>)
        ensures
            match r {
                Ok(m) => spec_read_from(input@) == Ok::<XsMessageView, XsErrorKind>(m@),
                Err(e) => spec_read_from(input@) == Err::<XsMessageView, XsErrorKind>(e.kind),
            },
            forall|m: XsMessageView, tx: u32|
                m.payload.len() <= u32::MAX && 16 + m.payload.len() <= input@.len()
                    && #[trigger] frame(m, tx) == input@.subrange(0, 16 + m.payload.len() as int)
                    ==> spec_read_from(input@) == Ok::<XsMessageView, XsErrorKind>(m),
            input@.len() >= 16 ==> forall|v: u32| #[trigger] native_bytes(v) == input@.subrange(0, 4)
                ==> v == header_field(input@, 0),
            input@.len() >= 16 ==> forall|v: u32| #[trigger] native_bytes(v) == input@.subrange(4, 8)
                ==> v == header_field(input@, 1),
            input@.len() >= 16 ==> forall|v: u32| #[trigger] native_bytes(v) == input@.subrange(12, 16)
                ==> v == header_field(input@, 3),
    {
        if input.len() < 16 {
            return Err(XsError::new(XsErrorKind::UnexpectedEof, "Message header is truncated"));
        }
        let msg_type = read_native(input, 0);
        let request_id = read_native(input, 4);
        let len = read_native(input, 12);
        assert forall|m: XsMessageView, tx: u32|
            m.payload.len() <= u32::MAX && 16 + m.payload.len() <= input@.len()
                && #[trigger] frame(m, tx) == input@.subrange(
                0,
                16 + m.payload.len() as int,
            ) implies spec_read_from(input@) == Ok::<XsMessageView, XsErrorKind>(m) by {
            lemma_frame_parts(m, tx);
            let f = frame(m, tx);
            assert(f.subrange(0, 4) =~= input@.subrange(0, 4));
            assert(f.subrange(4, 8) =~= input@.subrange(4, 8));
            assert(f.subrange(12, 16) =~= input@.subrange(12, 16));
            assert(f.subrange(16, 16 + m.payload.len() as int) =~= input@.subrange(
                16,
                16 + m.payload.len() as int,
            ));
            lemma_message_type_code_round_trip(m.msg_type);
        }
        if ((input.len() - 16) as u64) < (len as u64) {
            return Err(XsError::new(XsErrorKind::UnexpectedEof, "Message payload is truncated"));
        }
        let end = 16 + len as usize;
        let mut payload: Vec<u8> = Vec::new();
        let mut i: usize = 16;
        while i < end
            invariant
                16 <= i <= end <= input@.len(),
                payload@ == input@.subrange(16, i as int),
            decreases end - i,
        {
            payload.push(input[i]);
            i = i + 1;
            assert(input@.subrange(16, i as int) == input@.subrange(16, i - 1) + seq![input@[i - 1]]);
        }
        let t = match XsMessageType::try_from(msg_type) {
            Ok(t) => t,
            Err(_) => {
                return Err(XsError::new(XsErrorKind::Unsupported, "Got unknown message type"));
            },
        };
        Ok(XsMessage { msg_type: t, request_id, payload })
    }
}

#[verifier::external_type_specification]
#[verifier::external_body]
pub struct ExUtf8Error(std::str::Utf8Error);

/// Relies on `std::str::from_utf8`: it accepts exactly the valid UTF-8 byte
/// sequences, and the text it returns is what they encode.
#[verifier::external_body]
fn str_from_utf8<'a>(b: &'a [u8]) -> (r: Result<&'a str, std::str::Utf8Error>)
    ensures
        r is Ok <==> valid_utf8(b@),
        r matches Ok(s) ==> s@ == decode_utf8(b@),
{
    std::str::from_utf8(b)
}

/// The bytes of a string followed by its NUL terminator.
pub open spec fn nul_terminated(s: Seq<char>) -> Seq<u8> {
    encode_utf8(s) + seq![0u8]
}

/// The payload that carries a list of strings: each one NUL-terminated.
pub open spec fn nul_join(strs: Seq<Seq<char>>) -> Seq<u8>
    decreases strs.len(),
{
    if strs.len() == 0 {
        seq![]
    } else {
        nul_join(strs.drop_last()) + nul_terminated(strs.last())
    }
}

/// Drops one NUL from the end of `b`, if `b` ends with one.
pub open spec fn strip_nul(b: Seq<u8>) -> Seq<u8> {
    if b.len() > 0 && b.last() == 0 {
        b.drop_last()
    } else {
        b
    }
}

/// Splitting `b` at each NUL: the pieces closed by a NUL so far, and the
/// piece still open after the last NUL.
pub open spec fn nul_split(b: Seq<u8>) -> (Seq<Seq<u8>>, Seq<u8>)
    decreases b.len(),
{
    if b.len() == 0 {
        (seq![], seq![])
    } else {
        let (done, open_piece) = nul_split(b.drop_last());
        if b.last() == 0 {
            (done.push(open_piece), seq![])
        } else {
            (done, open_piece.push(b.last()))
        }
    }
}

/// The strings of a list payload, as bytes: each NUL closes one, and a last
/// piece without a NUL counts when it is not empty.
pub open spec fn nul_pieces(b: Seq<u8>) -> Seq<Seq<u8>> {
    let (done, open_piece) = nul_split(b);
    if open_piece.len() == 0 {
        done
    } else {
        done.push(open_piece)
    }
}

/// A list payload read as strings: `None` when a piece is not valid UTF-8.
pub open spec fn spec_parse_list(b: Seq<u8>) -> Option<Seq<Seq<char>>> {
    let pieces = nul_pieces(b);
    if forall|i: int| 0 <= i < pieces.len() ==> valid_utf8(#[trigger] pieces[i]) {
        Some(pieces.map_values(|p: Seq<u8>| decode_utf8(p)))
    } else {
        None
    }
}

/// Reads a NUL-terminated string; the terminator may be missing. An empty
/// buffer holds no string at all, which differs from the empty string.
fn parse_nul_string(buffer: &[u8]) -> (r: Result<Option<&str>, std::str::Utf8Error>)
    ensures
        buffer@.len() == 0 ==> r matches Ok(None),
        buffer@.len() > 0 ==> (r is Ok <==> valid_utf8(strip_nul(buffer@))),
        buffer@.len() > 0 ==> (r matches Ok(Some(s)) <==> r is Ok),
        r matches Ok(Some(s)) ==> s@ == decode_utf8(strip_nul(buffer@)),
{
    if buffer.len() == 0 {
        Ok(None)
    } else {
        let mut end = buffer.len();
        if buffer[end - 1] == 0 {
            end = end - 1;
        }
        let text = slice_subrange(buffer, 0, end);
        assert(text@ =~= strip_nul(buffer@));
        match str_from_utf8(text) {
            Ok(s) => Ok(Some(s)),
            Err(e) => Err(e),
        }
    }
}

impl XsMessage {
    /// A message whose payload is `s` with its NUL terminator.
    pub fn from_string(msg_type: XsMessageType, request_id: u32, s: &str) -> (r: Self)
        ensures
            r.msg_type == msg_type,
            r.request_id == request_id,
            r.payload@ == nul_terminated(s@),
    {
        let mut payload: Vec<u8> = Vec::new();
        push_bytes(&mut payload, s.as_bytes());
        payload.push(0);
        XsMessage { msg_type, request_id, payload }
    }

    /// A message whose payload is the list `strings`, each NUL-terminated.
    pub fn from_string_slice(msg_type: XsMessageType, request_id: u32, strings: &[&str]) -> (r:
        Self)
        ensures
            r.msg_type == msg_type,
            r.request_id == request_id,
            r.payload@ == nul_join(strings@.map_values(|s: &str| s@)),
    {
        let mut payload: Vec<u8> = Vec::new();
        let mut i: usize = 0;
        while i < strings.len()
            invariant
                i <= strings@.len(),
                payload@ == nul_join(strings@.subrange(0, i as int).map_values(|s: &str| s@)),
            decreases strings@.len() - i,
        {
            let ghost before = payload@;
            push_bytes(&mut payload, strings[i].as_bytes());
            payload.push(0);
            i = i + 1;
            assert(strings@.subrange(0, i as int).map_values(|s: &str| s@).drop_last()
                =~= strings@.subrange(0, i - 1).map_values(|s: &str| s@));
            assert(payload@ =~= before + nul_terminated(strings@[i - 1]@));
        }
        assert(strings@.subrange(0, strings@.len() as int) =~= strings@);
        XsMessage { msg_type, request_id, payload }
    }

    /// The payload read as one NUL-terminated string (`None` when it is empty).
    pub fn parse_payload_str(&self) -> (r: Result<Option<&str>, std::str::Utf8Error>)
        ensures
            self.payload@.len() == 0 ==> r matches Ok(None),
            self.payload@.len() > 0 ==> (r is Ok <==> valid_utf8(strip_nul(self.payload@))),
            self.payload@.len() > 0 ==> (r matches Ok(Some(s)) <==> r is Ok),
            r matches Ok(Some(s)) ==> s@ == decode_utf8(strip_nul(self.payload@)),
    {
        parse_nul_string(self.payload.as_slice())
    }

    /// The payload read as a list of NUL-terminated strings; it fails when one
    /// of them is not valid UTF-8.
    pub fn parse_payload_list(&self) -> (r: Result<Vec<&str>, std::str::Utf8Error>)
        ensures
            r is Ok <==> forall|i: int|
                0 <= i < nul_pieces(self.payload@).len() ==> valid_utf8(
                    #[trigger] nul_pieces(self.payload@)[i],
                ),
            r matches Ok(v) ==> v@.len() == nul_pieces(self.payload@).len() && forall|i: int|
                0 <= i < v@.len() ==> #[trigger] v@[i]@ == decode_utf8(nul_pieces(self.payload@)[i]),
            r matches Ok(v) ==> spec_parse_list(self.payload@) == Some(v@.map_values(|s: &str| s@)),
    {
        let b = self.payload.as_slice();
        assert(b@ == self.payload@);
        let mut v: Vec<&str> = Vec::new();
        let mut start: usize = 0;
        let mut i: usize = 0;
        while i < b.len()
            invariant
                b@ == self.payload@,
                start <= i <= b@.len(),
                nul_split(b@.subrange(0, i as int)) == (
                    nul_split(b@.subrange(0, i as int)).0,
                    b@.subrange(start as int, i as int),
                ),
                v@.len() == nul_split(b@.subrange(0, i as int)).0.len(),
                forall|j: int|
                    0 <= j < v@.len() ==> valid_utf8(
                        #[trigger] nul_split(b@.subrange(0, i as int)).0[j],
                    ) && v@[j]@ == decode_utf8(nul_split(b@.subrange(0, i as int)).0[j]),
            decreases b@.len() - i,
        {
            let ghost prev = b@.subrange(0, i as int);
            assert(b@.subrange(0, i + 1).drop_last() =~= prev);
            if b[i] == 0 {
                let piece = slice_subrange(b, start, i);
                match str_from_utf8(piece) {
                    Ok(s) => {
                        v.push(s);
                    },
                    Err(e) => {
                        let ghost cur = b@.subrange(0, i as int + 1);
                        assert(cur.last() == 0);
                        assert(nul_split(cur).0 == nul_split(prev).0.push(nul_split(prev).1));
                        proof {
                            lemma_nul_split_prefix(b@, i as int + 1);
                        }
                        assert(nul_split(cur).0.len() == v@.len() + 1);
                        assert(nul_split(b@).0.len() > v@.len());
                        assert(nul_split(b@).0[v@.len() as int] == piece@);
                        assert(nul_pieces(b@)[v@.len() as int] == piece@);
                        assert(!valid_utf8(nul_pieces(self.payload@)[v@.len() as int]));
                        return Err(e);
                    },
                }
                start = i + 1;
            }
            i = i + 1;
            assert(b@.subrange(start as int, i as int) =~= if b@[i - 1] == 0 {
                seq![]
            } else {
                b@.subrange(start as int, i - 1).push(b@[i - 1])
            });
        }
        assert(b@.subrange(0, b@.len() as int) =~= b@);
        if start < b.len() {
            let piece = slice_subrange(b, start, b.len());
            match str_from_utf8(piece) {
                Ok(s) => {
                    v.push(s);
                },
                Err(e) => {
                    assert(nul_pieces(b@)[v@.len() as int] == piece@);
                    return Err(e);
                },
            }
        }
        assert(v@.map_values(|s: &str| s@) =~= nul_pieces(b@).map_values(|p: Seq<u8>| decode_utf8(p)));
        Ok(v)
    }
}

/// The pieces closed by a NUL within a prefix of `b` are the first pieces of `b`.
proof fn lemma_nul_split_prefix(b: Seq<u8>, k: int)
    requires
        0 <= k <= b.len(),
    ensures
        nul_split(b.subrange(0, k)).0.len() <= nul_split(b).0.len(),
        forall|j: int|
            0 <= j < nul_split(b.subrange(0, k)).0.len() ==> #[trigger] nul_split(b).0[j]
                == nul_split(b.subrange(0, k)).0[j],
    decreases b.len() - k,
{
    if k < b.len() {
        lemma_nul_split_prefix(b, k + 1);
        assert(b.subrange(0, k + 1).drop_last() =~= b.subrange(0, k));
    } else {
        assert(b.subrange(0, k) =~= b);
    }
}

/// Whether two strings hold the same characters.
fn same_text(a: &str, b: &str) -> (r: bool)
    ensures
        r == (a@ == b@),
{
    let x = a.as_bytes();
    let y = b.as_bytes();
    proof {
        vstd::utf8::encode_utf8_decode_utf8(a@);
        vstd::utf8::encode_utf8_decode_utf8(b@);
    }
    if x.len() != y.len() {
        return false;
    }
    let mut i: usize = 0;
    while i < x.len()
        invariant
            x@ == encode_utf8(a@),
            y@ == encode_utf8(b@),
            x@.len() == y@.len(),
            i <= x@.len(),
            forall|j: int| 0 <= j < i ==> x@[j] == y@[j],
        decreases x@.len() - i,
    {
        if x[i] != y[i] {
            return false;
        }
        i = i + 1;
    }
    assert(x@ =~= y@);
    true
}

/// The error kind that the daemon's error name stands for.
pub open spec fn error_kind_of_name(name: Seq<char>) -> XsErrorKind {
    if name == "EINVAL"@ || name == "ENOTEMPTY"@ {
        XsErrorKind::InvalidInput
    } else if name == "EACCES"@ || name == "EPERM"@ || name == "EROFS"@ {
        XsErrorKind::PermissionDenied
    } else if name == "EEXIST"@ || name == "EISDIR"@ || name == "EBUSY"@ {
        XsErrorKind::AlreadyExists
    } else if name == "ENOENT"@ {
        XsErrorKind::NotFound
    } else if name == "ENOMEM"@ || name == "ENOSPC"@ {
        XsErrorKind::OutOfMemory
    } else if name == "ENOSYS"@ {
        XsErrorKind::Unsupported
    } else if name == "EAGAIN"@ {
        XsErrorKind::WouldBlock
    } else if name == "EISCONN"@ {
        XsErrorKind::AddrInUse
    } else if name == "E2BIG"@ {
        XsErrorKind::InvalidData
    } else {
        XsErrorKind::Other
    }
}

/// The error kind for a daemon error name.
pub fn error_kind_from_name(name: &str) -> (r: XsErrorKind)
    ensures
        r == error_kind_of_name(name@),
{
    if same_text(name, "EINVAL") || same_text(name, "ENOTEMPTY") {
        XsErrorKind::InvalidInput
    } else if same_text(name, "EACCES") || same_text(name, "EPERM") || same_text(name, "EROFS") {
        XsErrorKind::PermissionDenied
    } else if same_text(name, "EEXIST") || same_text(name, "EISDIR") || same_text(name, "EBUSY") {
        XsErrorKind::AlreadyExists
    } else if same_text(name, "ENOENT") {
        XsErrorKind::NotFound
    } else if same_text(name, "ENOMEM") || same_text(name, "ENOSPC") {
        XsErrorKind::OutOfMemory
    } else if same_text(name, "ENOSYS") {
        XsErrorKind::Unsupported
    } else if same_text(name, "EAGAIN") {
        XsErrorKind::WouldBlock
    } else if same_text(name, "EISCONN") {
        XsErrorKind::AddrInUse
    } else if same_text(name, "E2BIG") {
        XsErrorKind::InvalidData
    } else {
        XsErrorKind::Other
    }
}

/// The kind of the error that an `Error` payload reports.
pub open spec fn error_kind_of_payload(p: Seq<u8>) -> XsErrorKind {
    if p.len() > 0 && valid_utf8(strip_nul(p)) {
        error_kind_of_name(decode_utf8(strip_nul(p)))
    } else {
        XsErrorKind::Other
    }
}

/// `e` is the error that an `Error` payload reports: the kind that its
/// error name stands for, with the name itself as the message when the
/// payload holds a readable name.
pub open spec fn is_daemon_error(e: XsError, p: Seq<u8>) -> bool {
    &&& e.kind == error_kind_of_payload(p)
    &&& p.len() > 0 && valid_utf8(strip_nul(p)) ==> e.message@ == decode_utf8(strip_nul(p))
}

impl XsMessage {
    /// The error that an `Error` message reports: the kind that its error
    /// name stands for, with the name as the message. A payload that holds
    /// no readable name gives an `Other` error.
    pub fn parse_error(&self) -> (r: XsError)
        requires
            self.msg_type == XsMessageType::Error,
        ensures
            is_daemon_error(r, self.payload@),
    {
        match self.parse_payload_str() {
            Ok(Some(name)) => XsError::new(error_kind_from_name(name), name),
            _ => XsError::new(XsErrorKind::Other, "Got invalid error code from error payload"),
        }
    }
}

/// No byte of the encoding of a scalar other than zero is zero.
proof fn lemma_scalar_has_no_nul(v: u32)
    requires
        v != 0,
    ensures
        forall|i: int| 0 <= i < encode_scalar(v).len() ==> encode_scalar(v)[i] != 0,
{
    assert(v <= 0x7F ==> (v & 0x7F) as u8 != 0u8) by (bit_vector)
        requires
            v != 0u32,
    ;
    assert((0xC0u8 | ((v >> 6u32) & 0x1Fu32) as u8) != 0u8) by (bit_vector);
    assert((0xE0u8 | ((v >> 12u32) & 0x0Fu32) as u8) != 0u8) by (bit_vector);
    assert((0xF0u8 | ((v >> 18u32) & 0x7u32) as u8) != 0u8) by (bit_vector);
    assert((0x80u8 | (v & 0x3Fu32) as u8) != 0u8) by (bit_vector);
    assert((0x80u8 | ((v >> 6u32) & 0x3Fu32) as u8) != 0u8) by (bit_vector);
    assert((0x80u8 | ((v >> 12u32) & 0x3Fu32) as u8) != 0u8) by (bit_vector);
}

/// Text without a NUL character encodes to bytes without a zero.
proof fn lemma_encoding_has_no_nul(s: Seq<char>)
    requires
        forall|j: int| 0 <= j < s.len() ==> s[j] != '\0',
    ensures
        forall|i: int| 0 <= i < encode_utf8(s).len() ==> encode_utf8(s)[i] != 0,
    decreases s.len(),
{
    if s.len() > 0 {
        let c = s[0];
        if c as u32 == 0 {
            vstd::utf8::char_u32_cast(c, 0);
            vstd::utf8::char_u32_cast('\0', 0);
        }
        lemma_scalar_has_no_nul(c as u32);
        lemma_encoding_has_no_nul(s.drop_first());
        let e = encode_scalar(c as u32);
        let rest = encode_utf8(s.drop_first());
        assert forall|i: int| 0 <= i < encode_utf8(s).len() implies encode_utf8(s)[i] != 0 by {
            if i >= e.len() {
                assert(encode_utf8(s)[i] == rest[i - e.len()]);
            }
        }
    }
}

/// Bytes without a NUL only extend the open piece.
proof fn lemma_nul_split_extend(x: Seq<u8>, y: Seq<u8>)
    requires
        forall|i: int| 0 <= i < y.len() ==> y[i] != 0,
    ensures
        nul_split(x + y) == (nul_split(x).0, nul_split(x).1 + y),
    decreases y.len(),
{
    if y.len() == 0 {
        assert(x + y =~= x);
        assert(nul_split(x).1 + y =~= nul_split(x).1);
    } else {
        lemma_nul_split_extend(x, y.drop_last());
        assert((x + y).drop_last() =~= x + y.drop_last());
        assert(nul_split(x).1 + y.drop_last() + seq![y.last()] =~= nul_split(x).1 + y);
    }
}

/// Splitting the payload of a list of NUL-free strings gives back their encodings.
proof fn lemma_nul_split_join(strs: Seq<Seq<char>>)
    requires
        forall|i: int, j: int| 0 <= i < strs.len() && 0 <= j < strs[i].len() ==> strs[i][j] != '\0',
    ensures
        nul_split(nul_join(strs)) == (strs.map_values(|s: Seq<char>| encode_utf8(s)), Seq::<u8>::empty()),
    decreases strs.len(),
{
    if strs.len() == 0 {
        assert(strs.map_values(|s: Seq<char>| encode_utf8(s)) =~= Seq::<Seq<u8>>::empty());
    } else {
        let init = strs.drop_last();
        let last = strs.last();
        assert forall|i: int, j: int| 0 <= i < init.len() && 0 <= j < init[i].len() implies init[i][j]
            != '\0' by {
            assert(init[i] == strs[i]);
        }
        lemma_nul_split_join(init);
        assert forall|j: int| 0 <= j < last.len() implies last[j] != '\0' by {
            assert(last == strs[strs.len() - 1]);
        }
        lemma_encoding_has_no_nul(last);
        lemma_nul_split_extend(nul_join(init), encode_utf8(last));
        let body = nul_join(init) + encode_utf8(last);
        assert(nul_join(strs) =~= body + seq![0u8]);
        assert((body + seq![0u8]).drop_last() =~= body);
        assert(Seq::<u8>::empty() + encode_utf8(last) =~= encode_utf8(last));
        assert(strs.map_values(|s: Seq<char>| encode_utf8(s)) =~= init.map_values(
            |s: Seq<char>| encode_utf8(s),
        ).push(encode_utf8(last)));
    }
}

/// Reading the encodings of strings back gives the strings.
proof fn lemma_parse_encodings(strs: Seq<Seq<char>>, b: Seq<u8>)
    requires
        nul_pieces(b) == strs.map_values(|s: Seq<char>| encode_utf8(s)),
    ensures
        spec_parse_list(b) == Some(strs),
{
    let pieces = nul_pieces(b);
    assert forall|i: int| 0 <= i < pieces.len() implies valid_utf8(#[trigger] pieces[i]) by {
        vstd::utf8::encode_utf8_valid_utf8(strs[i]);
    }
    assert forall|i: int| 0 <= i < strs.len() implies pieces.map_values(
        |p: Seq<u8>| decode_utf8(p),
    )[i] == strs[i] by {
        vstd::utf8::encode_utf8_decode_utf8(strs[i]);
    }
    assert(pieces.map_values(|p: Seq<u8>| decode_utf8(p)) =~= strs);
}

/// A list of strings without NUL characters, each NUL-terminated, parses
/// back to the list. The last terminator may be left out, as long as the
/// last string is not empty: both payloads parse alike.
pub proof fn lemma_string_list_round_trip(strs: Seq<Seq<char>>)
    requires
        strs.len() > 0,
        forall|i: int, j: int| 0 <= i < strs.len() && 0 <= j < strs[i].len() ==> strs[i][j] != '\0',
    ensures
        spec_parse_list(nul_join(strs)) == Some(strs),
        strs.last().len() > 0 ==> spec_parse_list(nul_join(strs).drop_last()) == Some(strs),
{
    lemma_nul_split_join(strs);
    lemma_parse_encodings(strs, nul_join(strs));
    if strs.last().len() > 0 {
        let init = strs.drop_last();
        let last = strs.last();
        assert forall|i: int, j: int| 0 <= i < init.len() && 0 <= j < init[i].len() implies init[i][j]
            != '\0' by {
            assert(init[i] == strs[i]);
        }
        lemma_nul_split_join(init);
        assert forall|j: int| 0 <= j < last.len() implies last[j] != '\0' by {
            assert(last == strs[strs.len() - 1]);
        }
        lemma_encoding_has_no_nul(last);
        lemma_nul_split_extend(nul_join(init), encode_utf8(last));
        assert(nul_join(strs).drop_last() =~= nul_join(init) + encode_utf8(last));
        assert(Seq::<u8>::empty() + encode_utf8(last) =~= encode_utf8(last));
        vstd::utf8::encode_utf8_first_scalar(last);
        assert(encode_utf8(last).len() > 0);
        assert(strs.map_values(|s: Seq<char>| encode_utf8(s)) =~= init.map_values(
            |s: Seq<char>| encode_utf8(s),
        ).push(encode_utf8(last)));
        lemma_parse_encodings(strs, nul_join(strs).drop_last());
    }
}

} // verus!
