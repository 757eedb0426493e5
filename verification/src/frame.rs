//! Frames, their opcodes and close codes, and the codec that carries them
//! over the wire.

use crate::buffer::{buffered, contents, put_slice};
use crate::endian::{
    be_bytes, be_value, lemma_be_bytes_len, read_u16, read_u64, width_limit, write_uint,
};
use crate::text::{from_utf8_lossy, text_of};
use bytes::BytesMut;
use vstd::prelude::*;
use vstd::slice::{slice_subrange, slice_to_vec};
use vstd::utf8::encode_utf8;

verus! {

/// The purpose of a frame, as carried in the low four bits of its first byte.
#[derive(Debug, Clone, Copy, PartialEq, Eq, Structural)]
pub enum Opcode {
    Continue,
    Text,
    Binary,
    Close,
    Ping,
    Pong,
    Other(u8),
}

impl Opcode {
    /// The opcode that a byte stands for. A byte without a name of its own
    /// is kept as it is.
    pub open spec fn of_byte(b: u8) -> Opcode {
        if b == 0x00 {
            Opcode::Continue
        } else if b == 0x01 {
            Opcode::Text
        } else if b == 0x02 {
            Opcode::Binary
        } else if b == 0x08 {
            Opcode::Close
        } else if b == 0x09 {
            Opcode::Ping
        } else if b == 0xA0 {
            Opcode::Pong
        } else {
            Opcode::Other(b)
        }
    }

    /// The byte that stands for an opcode.
    pub open spec fn byte(self) -> u8 {
        match self {
            Opcode::Continue => 0x00,
            Opcode::Text => 0x01,
            Opcode::Binary => 0x02,
            Opcode::Close => 0x08,
            Opcode::Ping => 0x09,
            Opcode::Pong => 0xA0,
            Opcode::Other(other) => other,
        }
    }
}

impl From<u8> for Opcode {
    fn from(lh: u8) -> (op: Self) {
        match lh {
            0x00 => Self::Continue,
            0x01 => Self::Text,
            0x02 => Self::Binary,
            0x08 => Self::Close,
            0x09 => Self::Ping,
            0xA0 => Self::Pong,
            _ => Self::Other(lh),
        }
    }
}

impl vstd::std_specs::convert::FromSpecImpl<u8> for Opcode {
    open spec fn obeys_from_spec() -> bool {
        true
    }

    open spec fn from_spec(lh: u8) -> Opcode {
        Opcode::of_byte(lh)
    }
}

impl From<Opcode> for u8 {
    fn from(op: Opcode) -> (b: Self) {
        match op {
            Opcode::Continue => 0x00,
            Opcode::Text => 0x01,
            Opcode::Binary => 0x02,
            Opcode::Close => 0x08,
            Opcode::Ping => 0x09,
            Opcode::Pong => 0xA0,
            Opcode::Other(other) => other,
        }
    }
}

impl vstd::std_specs::convert::FromSpecImpl<Opcode> for u8 {
    open spec fn obeys_from_spec() -> bool {
        true
    }

    open spec fn from_spec(op: Opcode) -> u8 {
        op.byte()
    }
}

/// Why a connection was closed, as a close frame may say in two bytes.
#[derive(Debug, Clone, Copy, PartialEq, Eq, Structural)]
pub enum CloseCode {
    NormalClosure,
    GoingAway,
    ProtocolError,
    UnsupportedData,
    NoStatusRcvd,
    AbnormalClosure,
    InvalidFramePayloadData,
    PolicyViolation,
    MsgTooBig,
    MandatoryExt,
    InternalServerError,
    TlsHandshake,
    Other(u16),
}

impl CloseCode {
    /// The close code that a number stands for. A number without a name of
    /// its own is kept as it is.
    pub open spec fn of_code(code: u16) -> CloseCode {
        if code == 1000 {
            CloseCode::NormalClosure
        } else if code == 1001 {
            CloseCode::GoingAway
        } else if code == 1002 {
            CloseCode::ProtocolError
        } else if code == 1003 {
            CloseCode::UnsupportedData
        } else if code == 1005 {
            CloseCode::NoStatusRcvd
        } else if code == 1006 {
            CloseCode::AbnormalClosure
        } else if code == 1007 {
            CloseCode::InvalidFramePayloadData
        } else if code == 1008 {
            CloseCode::PolicyViolation
        } else if code == 1009 {
            CloseCode::MsgTooBig
        } else if code == 1010 {
            CloseCode::MandatoryExt
        } else if code == 1011 {
            CloseCode::InternalServerError
        } else if code == 1015 {
            CloseCode::TlsHandshake
        } else {
            CloseCode::Other(code)
        }
    }

    /// The number that stands for a close code.
    pub open spec fn code(self) -> u16 {
        match self {
            CloseCode::NormalClosure => 1000,
            CloseCode::GoingAway => 1001,
            CloseCode::ProtocolError => 1002,
            CloseCode::UnsupportedData => 1003,
            CloseCode::NoStatusRcvd => 1005,
            CloseCode::AbnormalClosure => 1006,
            CloseCode::InvalidFramePayloadData => 1007,
            CloseCode::PolicyViolation => 1008,
            CloseCode::MsgTooBig => 1009,
            CloseCode::MandatoryExt => 1010,
            CloseCode::InternalServerError => 1011,
            CloseCode::TlsHandshake => 1015,
            CloseCode::Other(other) => other,
        }
    }
}

impl From<u16> for CloseCode {
    fn from(lh: u16) -> (code: Self) {
        match lh {
            1000 => Self::NormalClosure,
            1001 => Self::GoingAway,
            1002 => Self::ProtocolError,
            1003 => Self::UnsupportedData,
            1005 => Self::NoStatusRcvd,
            1006 => Self::AbnormalClosure,
            1007 => Self::InvalidFramePayloadData,
            1008 => Self::PolicyViolation,
            1009 => Self::MsgTooBig,
            1010 => Self::MandatoryExt,
            1011 => Self::InternalServerError,
            1015 => Self::TlsHandshake,
            _ => Self::Other(lh),
        }
    }
}

impl vstd::std_specs::convert::FromSpecImpl<u16> for CloseCode {
    open spec fn obeys_from_spec() -> bool {
        true
    }

    open spec fn from_spec(lh: u16) -> CloseCode {
        CloseCode::of_code(lh)
    }
}

impl From<CloseCode> for u16 {
    fn from(code: CloseCode) -> (n: Self) {
        match code {
            CloseCode::NormalClosure => 1000,
            CloseCode::GoingAway => 1001,
            CloseCode::ProtocolError => 1002,
            CloseCode::UnsupportedData => 1003,
            CloseCode::NoStatusRcvd => 1005,
            CloseCode::AbnormalClosure => 1006,
            CloseCode::InvalidFramePayloadData => 1007,
            CloseCode::PolicyViolation => 1008,
            CloseCode::MsgTooBig => 1009,
            CloseCode::MandatoryExt => 1010,
            CloseCode::InternalServerError => 1011,
            CloseCode::TlsHandshake => 1015,
            CloseCode::Other(other) => other,
        }
    }
}

impl vstd::std_specs::convert::FromSpecImpl<CloseCode> for u16 {
    open spec fn obeys_from_spec() -> bool {
        true
    }

    open spec fn from_spec(code: CloseCode) -> u16 {
        code.code()
    }
}

/// No byte and no number is lost in its name: the byte of the opcode that
/// a byte stands for is that byte, and the number of the close code that a
/// number stands for is that number.
pub proof fn lemma_codes_keep_their_value(b: u8, code: u16)
    ensures
        Opcode::of_byte(b).byte() == b,
        CloseCode::of_code(code).code() == code,
{
}

/// One unit of transfer: control bits, an opcode, and a payload of
/// `length` bytes, with the text that the payload spells.
#[derive(Debug)]
pub struct Frame {
    fin: bool,
    rsv1: bool,
    rsv2: bool,
    rsv3: bool,
    pub opcode: Opcode,
    masked: bool,
    length: u64,
    pub reason: Option<u32>,
    key: Vec<u8>,
    data: Vec<u8>,
    pub message: String,
}

/// What a frame holds, as plain values.
pub struct FrameView {
    pub fin: bool,
    pub rsv1: bool,
    pub rsv2: bool,
    pub rsv3: bool,
    pub opcode: Opcode,
    pub masked: bool,
    pub length: u64,
    pub reason: Option<u32>,
    pub key: Seq<u8>,
    pub data: Seq<u8>,
    pub message: Seq<char>,
}

impl FrameView {
    /// A final, unmasked text frame without a payload.
    pub open spec fn blank() -> FrameView {
        FrameView {
            fin: true,
            rsv1: false,
            rsv2: false,
            rsv3: false,
            opcode: Opcode::Text,
            masked: false,
            length: 0,
            reason: None,
            key: seq![0u8, 0u8, 0u8, 0u8],
            data: Seq::empty(),
            message: Seq::empty(),
        }
    }

    /// A final, unmasked text frame whose payload is `text` in UTF-8.
    pub open spec fn text(text: Seq<char>) -> FrameView {
        FrameView {
            length: encode_utf8(text).len() as u64,
            data: encode_utf8(text),
            message: text,
            ..FrameView::blank()
        }
    }

    /// The masking key has four bytes, the payload has as many bytes as
    /// `length` says, and the text is the text of the payload.
    pub open spec fn wf(self) -> bool {
        &&& self.key.len() == 4
        &&& self.data.len() == self.length
        &&& self.message == text_of(self.data)
    }
}

impl View for Frame {
    type V = FrameView;

    closed spec fn view(&self) -> FrameView {
        FrameView {
            fin: self.fin,
            rsv1: self.rsv1,
            rsv2: self.rsv2,
            rsv3: self.rsv3,
            opcode: self.opcode,
            masked: self.masked,
            length: self.length,
            reason: self.reason,
            key: self.key@,
            data: self.data@,
            message: self.message@,
        }
    }
}

impl Default for Frame {
    /// A final, unmasked text frame without a payload.
    fn default() -> (frame: Self)
        ensures
            frame@ == FrameView::blank(),
            frame@.wf(),
    {
        Frame {
            fin: true,
            rsv1: false,
            rsv2: false,
            rsv3: false,
            opcode: Opcode::Text,
            masked: false,
            length: 0,
            reason: None,
            key: vec![0, 0, 0, 0],
            data: Vec::new(),
            message: String::new(),
        }
    }
}

impl Frame {
    /// A text frame that carries `message`.
    pub fn new(message: String) -> (frame: Self)
        ensures
            frame@ == FrameView::text(message@),
            frame@.wf(),
    {
        let data = slice_to_vec(message.as_str().as_bytes());
        proof {
            vstd::utf8::encode_utf8_valid_utf8(message@);
            vstd::utf8::encode_utf8_decode_utf8(message@);
        }
        Frame { length: data.len() as u64, data, message, ..Default::default() }
    }

    /// A ping frame without a payload.
    pub fn ping() -> (frame: Self)
        ensures
            frame@ == (FrameView { opcode: Opcode::Ping, ..FrameView::blank() }),
            frame@.wf(),
    {
        Frame { opcode: Opcode::Ping, ..Default::default() }
    }

    /// A pong frame without a payload.
    pub fn pong() -> (frame: Self)
        ensures
            frame@ == (FrameView { opcode: Opcode::Pong, ..FrameView::blank() }),
            frame@.wf(),
    {
        Frame { opcode: Opcode::Pong, ..Default::default() }
    }

    /// Whether this frame completes a message.
    pub fn fin(&self) -> (fin: bool)
        ensures
            fin == self@.fin,
    {
        self.fin
    }

    /// The first reserved bit.
    pub fn rsv1(&self) -> (bit: bool)
        ensures
            bit == self@.rsv1,
    {
        self.rsv1
    }

    /// The second reserved bit.
    pub fn rsv2(&self) -> (bit: bool)
        ensures
            bit == self@.rsv2,
    {
        self.rsv2
    }

    /// The third reserved bit.
    pub fn rsv3(&self) -> (bit: bool)
        ensures
            bit == self@.rsv3,
    {
        self.rsv3
    }

    /// The opcode.
    pub fn opcode(&self) -> (opcode: Opcode)
        ensures
            opcode == self@.opcode,
    {
        self.opcode
    }

    /// Whether the payload came masked.
    pub fn masked(&self) -> (masked: bool)
        ensures
            masked == self@.masked,
    {
        self.masked
    }

    /// The declared length of the payload.
    pub fn length(&self) -> (length: u64)
        ensures
            length == self@.length,
    {
        self.length
    }

    /// The status code of a close frame that carries one.
    pub fn reason(&self) -> (reason: Option<u32>)
        ensures
            reason == self@.reason,
    {
        self.reason
    }

    /// The masking key.
    pub fn key(&self) -> (key: &[u8])
        ensures
            key@ == self@.key,
    {
        self.key.as_slice()
    }

    /// The payload, unmasked.
    pub fn data(&self) -> (data: &[u8])
        ensures
            data@ == self@.data,
    {
        self.data.as_slice()
    }

    /// The text of the frame.
    pub fn get_msg(&self) -> (text: String)
        ensures
            text@ == self@.message,
    {
        self.message.clone()
    }
}

/// `data` with each byte combined by exclusive or with the byte of `key`
/// that falls to it when the key is repeated along the data. With an empty
/// key nothing comes out.
pub open spec fn mutated(data: Seq<u8>, key: Seq<u8>) -> Seq<u8> {
    if key.len() == 0 {
        Seq::empty()
    } else {
        Seq::new(data.len(), |i: int| data[i] ^ key[i % key.len() as int])
    }
}

/// Masking is its own inverse: what was masked with a key comes back when
/// it is masked with that key again.
pub proof fn lemma_mutate_twice(data: Seq<u8>, key: Seq<u8>)
    requires
        key.len() > 0,
    ensures
        mutated(mutated(data, key), key) == data,
{
    let once = mutated(data, key);
    let twice = mutated(once, key);
    assert forall|i: int| 0 <= i < data.len() implies twice[i] == data[i] by {
        let d = data[i];
        let k = key[i % key.len() as int];
        assert((d ^ k) ^ k == d) by (bit_vector);
    }
    assert(twice =~= data);
}

/// Why buffered bytes that begin like a masked frame are not one.
#[derive(Debug, Clone, Copy, PartialEq, Eq, Structural)]
pub enum DecodeError {
    /// The bytes end inside the extended length field.
    MalformedLength,
    /// The frame declares more than the bytes hold: the masking key, the
    /// close reason or the payload is cut short.
    Truncated,
}

/// Whether the frame that `bytes` begin with is masked.
pub open spec fn mask_bit(bytes: Seq<u8>) -> bool {
    bytes[1] & 0x80 != 0
}

/// The seven-bit length field of the frame that `bytes` begin with.
pub open spec fn length_code(bytes: Seq<u8>) -> u8 {
    bytes[1] & 0x7f
}

/// Where the masking key begins: behind the two leading bytes and the
/// extended length field, if there is one.
pub open spec fn key_start(bytes: Seq<u8>) -> int {
    if length_code(bytes) == 126 {
        4
    } else if length_code(bytes) == 127 {
        10
    } else {
        2
    }
}

/// The payload length that the frame declares.
pub open spec fn declared_length(bytes: Seq<u8>) -> nat {
    if length_code(bytes) == 126 {
        be_value(bytes.subrange(2, 4))
    } else if length_code(bytes) == 127 {
        be_value(bytes.subrange(2, 10))
    } else {
        length_code(bytes) as nat
    }
}

/// Whether a two-byte close reason stands between the masking key and the
/// payload: in a close frame that declares a payload.
pub open spec fn carries_reason(bytes: Seq<u8>) -> bool {
    Opcode::of_byte(bytes[0] & 0x0f) == Opcode::Close && declared_length(bytes) > 0
}

/// Where the payload begins.
pub open spec fn payload_start(bytes: Seq<u8>) -> int {
    key_start(bytes) + 4 + if carries_reason(bytes) {
        2int
    } else {
        0int
    }
}

/// The frame that `bytes` begin with, where they hold all of it.
pub open spec fn frame_in(bytes: Seq<u8>) -> FrameView {
    let key = bytes.subrange(key_start(bytes), key_start(bytes) + 4);
    let payload = bytes.subrange(
        payload_start(bytes),
        payload_start(bytes) + declared_length(bytes),
    );
    let data = mutated(payload, key);
    FrameView {
        fin: bytes[0] & 0x80 != 0,
        rsv1: bytes[0] & 0x40 != 0,
        rsv2: bytes[0] & 0x20 != 0,
        rsv3: bytes[0] & 0x10 != 0,
        opcode: Opcode::of_byte(bytes[0] & 0x0f),
        masked: true,
        length: declared_length(bytes) as u64,
        reason: if carries_reason(bytes) {
            Some(be_value(bytes.subrange(key_start(bytes) + 4, key_start(bytes) + 6)) as u32)
        } else {
            None
        },
        key,
        data,
        message: text_of(data),
    }
}

/// What decoding makes of the buffered `bytes`: no frame yet, where there
/// are fewer than two bytes or the frame is not masked; an error, where a
/// masked frame is cut short; else the frame.
pub open spec fn decoded(bytes: Seq<u8>) -> Result<Option<FrameView>, DecodeError> {
    if bytes.len() < 2 {
        Ok(None)
    } else if !mask_bit(bytes) {
        Ok(None)
    } else if bytes.len() < key_start(bytes) {
        Err(DecodeError::MalformedLength)
    } else if bytes.len() < payload_start(bytes) + declared_length(bytes) {
        Err(DecodeError::Truncated)
    } else {
        Ok(Some(frame_in(bytes)))
    }
}

/// What came of decoding, the frame as plain values.
pub open spec fn shown(r: Result<Option<Frame>, DecodeError>) -> Result<
    Option<FrameView>,
    DecodeError,
> {
    match r {
        Ok(Some(frame)) => Ok(Some(frame@)),
        Ok(None) => Ok(None),
        Err(e) => Err(e),
    }
}

/// What decoding leaves in the buffer: everything while it waits for the
/// two leading bytes and after an error, else nothing.
pub open spec fn left_by_decode(bytes: Seq<u8>) -> Seq<u8> {
    if bytes.len() < 2 || decoded(bytes) is Err {
        bytes
    } else {
        Seq::empty()
    }
}

/// A buffer with fewer than two bytes holds no frame yet, and waits for
/// more as it is.
pub proof fn lemma_decode_waits(bytes: Seq<u8>)
    requires
        bytes.len() < 2,
    ensures
        decoded(bytes) == Ok::<Option<FrameView>, DecodeError>(None),
        left_by_decode(bytes) == bytes,
{
}

/// A frame whose mask bit is clear yields no frame, and nothing of it
/// stays in the buffer.
pub proof fn lemma_decode_drops_unmasked(bytes: Seq<u8>)
    requires
        bytes.len() >= 2,
        !mask_bit(bytes),
    ensures
        decoded(bytes) == Ok::<Option<FrameView>, DecodeError>(None),
        left_by_decode(bytes) == Seq::<u8>::empty(),
{
}

/// A masked frame that declares more than is buffered is an error: where
/// the bytes end inside the length field, and where they end before the
/// masking key, the close reason and the declared payload do.
pub proof fn lemma_decode_rejects_cut_frame(bytes: Seq<u8>)
    requires
        bytes.len() >= 2,
        mask_bit(bytes),
        bytes.len() < key_start(bytes) || bytes.len() < payload_start(bytes) + declared_length(
            bytes,
        ),
    ensures
        decoded(bytes) is Err,
        left_by_decode(bytes) == bytes,
{
}

/// A final text frame that is masked and declares no payload, followed by
/// its four-byte key, is decoded to a frame with an empty text.
pub proof fn lemma_decode_empty_text(key: Seq<u8>)
    requires
        key.len() == 4,
    ensures
        decoded(seq![0x81u8, 0x80u8] + key) matches Ok(Some(frame)) && frame.message
            == Seq::<char>::empty() && frame.data == Seq::<u8>::empty() && frame.opcode
            == Opcode::Text && frame.fin && frame.key == key && frame.reason is None,
{
    assert(0x80u8 & 0x80u8 != 0 && 0x80u8 & 0x7fu8 == 0 && 0x81u8 & 0x80u8 != 0 && 0x81u8 & 0x0fu8
        == 1) by (bit_vector);
}

/// Why a frame was not written.
#[derive(Debug, Clone, Copy, PartialEq, Eq, Structural)]
pub enum EncodeError {
    /// The buffer cannot grow by the bytes of the frame.
    BufferFull,
}

/// The first byte of a frame on the wire: the final bit, the three
/// reserved bits and the opcode's byte.
pub open spec fn leading_byte(frame: FrameView) -> u8 {
    (if frame.fin {
        0x80u8
    } else {
        0u8
    }) | (if frame.rsv1 {
        0x40u8
    } else {
        0u8
    }) | (if frame.rsv2 {
        0x20u8
    } else {
        0u8
    }) | (if frame.rsv3 {
        0x10u8
    } else {
        0u8
    }) | frame.opcode.byte()
}

/// The length of a payload of `n` bytes on the wire, with the mask bit
/// clear: one byte below 126, else 126 and two bytes up to 65535, else 127
/// and eight bytes.
pub open spec fn length_field(n: nat) -> Seq<u8> {
    if n < 126 {
        seq![n as u8]
    } else if n <= 65535 {
        seq![126u8] + be_bytes(n, 2)
    } else {
        seq![127u8] + be_bytes(n, 8)
    }
}

/// A frame on the wire, from server to client: never masked, the payload
/// as it is.
pub open spec fn wire_bytes(frame: FrameView) -> Seq<u8> {
    seq![leading_byte(frame)] + length_field(frame.data.len()) + frame.data
}

/// A payload of 70000 bytes goes out behind the length code 127 and the
/// eight bytes that spell 70000, as it is.
pub proof fn lemma_wire_of_70000_bytes(frame: FrameView)
    requires
        frame.data.len() == 70000,
    ensures
        wire_bytes(frame) == seq![
            leading_byte(frame),
            127u8,
            0u8,
            0u8,
            0u8,
            0u8,
            0u8,
            0x01u8,
            0x11u8,
            0x70u8,
        ] + frame.data,
        frame.opcode == Opcode::Text && frame.fin && !frame.rsv1 && !frame.rsv2 && !frame.rsv3
            ==> leading_byte(frame) == 0x81,
{
    reveal_with_fuel(be_bytes, 9);
    assert(0x80u8 | 0u8 | 0u8 | 0u8 | 0x01u8 == 0x81u8) by (bit_vector);
}

/// The codec between frames and their bytes on the wire.
#[derive(Debug)]
pub struct WebsocketFrame;

impl WebsocketFrame {
    /// Masks or unmasks `data` with `key`.
    pub fn mutate(data: &[u8], key: &[u8]) -> (out: Vec<u8>)
        ensures
            out@ == mutated(data@, key@),
    {
        let mut out: Vec<u8> = Vec::new();
        if key.len() == 0 {
            return out;
        }
        let mut i: usize = 0;
        while i < data.len()
            invariant
                i <= data@.len(),
                key@.len() > 0,
                out@.len() == i,
                forall|j: int| 0 <= j < i ==> out@[j] == data@[j] ^ key@[j % key@.len() as int],
            decreases data@.len() - i,
        {
            out.push(data[i] ^ key[i % key.len()]);
            i += 1;
        }
        out
    }

    /// Takes one frame out of the buffered bytes.
    ///
    /// With fewer than two bytes buffered there is no frame yet and the
    /// buffer stays as it is. A frame that is not masked is dropped with
    /// everything buffered. A masked frame that the buffer does not hold
    /// whole is an error, and the buffer stays as it is. Else the frame
    /// comes out and the buffer is emptied, whatever followed the frame.
    pub fn decode(&mut self, src: &mut BytesMut) -> (r: Result<Option<Frame>, DecodeError>)
        ensures
            shown(r) == decoded(buffered(*old(src))),
            r matches Ok(Some(frame)) ==> frame@.wf(),
            buffered(*final(src)) == left_by_decode(buffered(*old(src))),
    {
        let bytes = contents(src);
        let len = bytes.len();
        if len < 2 {
            return Ok(None);
        }
        let first = bytes[0];
        let second = bytes[1];

        let fin = first & 0x80 != 0;
        let rsv1 = first & 0x40 != 0;
        let rsv2 = first & 0x20 != 0;
        let rsv3 = first & 0x10 != 0;
        let opcode: Opcode = Opcode::from(first & 0x0f);
        let masked = second & 0x80 != 0;

        if !masked {
            src.clear();
            return Ok(None);
        }

        let code = second & 0x7f;
        let mut pos: usize = 2;
        let length: u64 = if code == 126 {
            if len < 4 {
                return Err(DecodeError::MalformedLength);
            }
            pos = 4;
            let field = slice_subrange(bytes, 2, 4);
            assert(field@.subrange(0, 2) == bytes@.subrange(2, 4));
            read_u16(field) as u64
        } else if code == 127 {
            if len < 10 {
                return Err(DecodeError::MalformedLength);
            }
            pos = 10;
            let field = slice_subrange(bytes, 2, 10);
            assert(field@.subrange(0, 8) == bytes@.subrange(2, 10));
            read_u64(field)
        } else {
            code as u64
        };

        if len - pos < 4 {
            return Err(DecodeError::Truncated);
        }
        let key = slice_to_vec(slice_subrange(bytes, pos, pos + 4));
        pos += 4;

        let reason = match opcode {
            Opcode::Close => {
                if length > 0 {
                    if len - pos < 2 {
                        return Err(DecodeError::Truncated);
                    }
                    let field = slice_subrange(bytes, pos, pos + 2);
                    assert(field@.subrange(0, 2) == bytes@.subrange(pos as int, pos + 2));
                    pos += 2;
                    Some(read_u16(field) as u32)
                } else {
                    None
                }
            },
            _ => None,
        };

        if length > (len - pos) as u64 {
            return Err(DecodeError::Truncated);
        }
        let data = slice_subrange(bytes, pos, pos + length as usize);
        let decoded = WebsocketFrame::mutate(data, key.as_slice());
        let message = from_utf8_lossy(decoded.as_slice());

        let item = Frame {
            fin,
            rsv1,
            rsv2,
            rsv3,
            opcode,
            masked,
            length,
            reason,
            key,
            data: decoded,
            message,
        };
        src.clear();

        Ok(Some(item))
    }

    /// Appends the frame's bytes to the buffer.
    ///
    /// The frame goes out unmasked whatever its own mask flag says, and in
    /// one piece. Where the buffer cannot take its bytes, nothing is
    /// written.
    pub fn encode(&mut self, frame: Frame, buf: &mut BytesMut) -> (r: Result<(), EncodeError>)
        ensures
            r is Ok <==> buffered(*old(buf)).len() + wire_bytes(frame@).len() <= isize::MAX,
            r is Ok ==> buffered(*final(buf)) == buffered(*old(buf)) + wire_bytes(frame@),
            r is Err ==> buffered(*final(buf)) == buffered(*old(buf)),
    {
        let fin: u8 = if frame.fin {
            0x80
        } else {
            0
        };
        let rsv1: u8 = if frame.rsv1 {
            0x40
        } else {
            0
        };
        let rsv2: u8 = if frame.rsv2 {
            0x20
        } else {
            0
        };
        let rsv3: u8 = if frame.rsv3 {
            0x10
        } else {
            0
        };
        let one = fin | rsv1 | rsv2 | rsv3 | u8::from(frame.opcode);

        let len = frame.data.len();
        let width: usize = if len < 126 {
            0
        } else if len <= 65535 {
            2
        } else {
            8
        };
        let two: u8 = if len < 126 {
            len as u8
        } else if len <= 65535 {
            126
        } else {
            127
        };
        proof {
            lemma_be_bytes_len(len as nat, width as nat);
        }

        let held = contents(buf).len();
        let limit = isize::MAX as usize;
        if len > limit - 2 - width || held > limit - 2 - width - len {
            return Err(EncodeError::BufferFull);
        }
        buf.reserve(2 + width + len);

        let head: Vec<u8> = vec![one, two];
        put_slice(buf, head.as_slice());
        if width > 0 {
            proof {
                reveal_with_fuel(width_limit, 9);
            }
            let extended = write_uint(len as u64, width);
            put_slice(buf, extended.as_slice());
        }
        put_slice(buf, frame.data.as_slice());
        Ok(())
    }
}

} // verus!
