//! The opening handshake: from the bytes of the client's HTTP request to
//! the text of the server's answer.

use crate::text::{from_utf8_lossy, text_of};
use crypto::digest::Digest;
use crypto::sha1::Sha1;
use vstd::prelude::*;
use vstd::slice::slice_subrange;
use vstd::utf8::encode_utf8;

verus! {

/// The most bytes of a request that are looked at. What follows them is
/// left unread.
pub const MAX_REQUEST_LEN: usize = 1024;

/// The most header fields that a request may hold.
pub const MAX_HEADERS: usize = 16;

/// The name of the header field that holds the client's key, in lower case.
pub const KEY_HEADER: &'static str = "sec-websocket-key";

/// The fixed text that is joined to the client's key before hashing.
pub const GUID: &'static str = "258EAFA5-E914-47DA-95CA-C5AB0DC85B11";

/// The most bytes that are hashed at once.
pub const MAX_HASHED_LEN: u64 = 0x1fff_ffff_ffff_ffff;

/// The answer up to the accept value.
pub const RESPONSE_HEAD: &'static str =
    "HTTP/1.1 101 Switching Protocols\r\nUpgrade: websocket\r\nConnection: Upgrade\r\nSec-WebSocket-Accept: ";

/// The answer behind the accept value: the end of its line, and the blank
/// line that ends the answer.
pub const RESPONSE_TAIL: &'static str = "\r\n\r\n";

/// One header field of a request: its name and its value, as bytes.
#[derive(Debug)]
pub struct HeaderField {
    pub name: Vec<u8>,
    pub value: Vec<u8>,
}

/// Why a request was not answered.
#[derive(Debug, Clone, Copy, PartialEq, Eq, Structural)]
pub enum HandshakeError {
    /// The bytes are not an HTTP request.
    Malformed,
    /// The request ends before its head does, and more of it may follow.
    Incomplete,
    /// The head of the request does not end within the bytes that are
    /// looked at.
    RequestTooLarge,
    /// No header field holds the client's key.
    MissingHandshakeKey,
    /// The client's key is too long to be hashed.
    KeyTooLong,
}

/// What parsing makes of the bytes of a request.
#[derive(Debug)]
pub enum ParsedRequest {
    /// A whole request head, with its header fields in their order.
    Complete(Vec<HeaderField>),
    /// The beginning of a request, which ends before its head does.
    Partial,
    /// Not a request, or one with too many header fields.
    Invalid,
}

/// What a parsed request holds, as plain values: each header field is a
/// name and a value.
pub enum ParsedRequestView {
    Complete(Seq<(Seq<u8>, Seq<u8>)>),
    Partial,
    Invalid,
}

/// `httparse::Error`, the parser's reason for turning bytes down. It is
/// handed on as it is and never looked into.
#[verifier::external_type_specification]
#[verifier::external_body]
pub struct ExParseError(httparse::Error);

/// What an HTTP/1.x request parser that admits `max_headers` header fields
/// makes of `bytes`.
pub uninterp spec fn parsed_request(bytes: Seq<u8>, max_headers: nat) -> ParsedRequestView;

/// The SHA-1 digest of `input`.
pub uninterp spec fn sha1_digest(input: Seq<u8>) -> Seq<u8>;

/// `input` in base64, with the standard alphabet and padding.
pub uninterp spec fn base64_text(input: Seq<u8>) -> Seq<char>;

/// An answer or an error, the answer as plain text.
pub open spec fn shown(r: Result<String, HandshakeError>) -> Result<Seq<char>, HandshakeError> {
    match r {
        Ok(text) => Ok(text@),
        Err(e) => Err(e),
    }
}

/// The names and values of header fields, as plain values.
pub open spec fn fields(headers: Seq<HeaderField>) -> Seq<(Seq<u8>, Seq<u8>)> {
    Seq::new(headers.len(), |i: int| (headers[i].name@, headers[i].value@))
}

impl View for ParsedRequest {
    type V = ParsedRequestView;

    open spec fn view(&self) -> ParsedRequestView {
        match *self {
            ParsedRequest::Complete(headers) => ParsedRequestView::Complete(fields(headers@)),
            ParsedRequest::Partial => ParsedRequestView::Partial,
            ParsedRequest::Invalid => ParsedRequestView::Invalid,
        }
    }
}

/// `httparse::Request::parse`, with room for `max_headers` header fields:
/// the header fields of a whole request head, nothing for a request that
/// is cut short, or the parser's error. The room is allocated at once, so
/// the number of fields is kept small.
#[verifier::external_body]
pub(crate) fn parse_request(bytes: &[u8], max_headers: usize) -> (r: Result<
    Option<Vec<HeaderField>>,
    httparse::Error,
>)
    requires
        max_headers <= u16::MAX,
    ensures
        match r {
            Ok(Some(headers)) => parsed_request(bytes@, max_headers as nat)
                == ParsedRequestView::Complete(fields(headers@)),
            Ok(None) => parsed_request(bytes@, max_headers as nat) == ParsedRequestView::Partial,
            Err(_) => parsed_request(bytes@, max_headers as nat) == ParsedRequestView::Invalid,
        },
{
    let mut headers = vec![httparse::EMPTY_HEADER; max_headers];
    let mut request = httparse::Request::new(&mut headers);
    match request.parse(bytes) {
        Ok(httparse::Status::Complete(_)) => Ok(Some(request.headers.iter().map(|h| HeaderField {
            name: h.name.as_bytes().to_vec(),
            value: h.value.to_vec(),
        }).collect())),
        Ok(httparse::Status::Partial) => Ok(None),
        Err(e) => Err(e),
    }
}

/// `Sha1` of rust-crypto, fed once and read once: the digest of `input`,
/// which has twenty bytes. The crate panics where the length of the input
/// in bits does not fit in 64 bits.
#[verifier::external_body]
pub(crate) fn sha1(input: &[u8]) -> (digest: Vec<u8>)
    requires
        input@.len() <= MAX_HASHED_LEN,
    ensures
        digest@ == sha1_digest(input@),
        digest@.len() == 20,
{
    let mut hasher = Sha1::new();
    hasher.input(input);
    let mut digest = vec![0u8; hasher.output_bytes()];
    hasher.result(&mut digest);
    digest
}

/// `base64::encode`: `input` in base64. The crate panics where the length
/// of the text does not fit in memory.
#[verifier::external_body]
pub(crate) fn base64_encode(input: &[u8]) -> (text: String)
    requires
        4 * (input@.len() / 3 + 1) <= isize::MAX,
    ensures
        text@ == base64_text(input@),
{
    base64::encode(input)
}

/// The accept value that answers the client's key: the base64 text of the
/// SHA-1 digest of the key joined with the fixed text.
pub open spec fn accept_text(key: Seq<char>) -> Seq<char> {
    base64_text(sha1_digest(encode_utf8(key + GUID@)))
}

/// Whether a key can be hashed: joined with the fixed text it has no more
/// than `MAX_HASHED_LEN` bytes.
pub open spec fn hashable(key: Seq<char>) -> bool {
    encode_utf8(key + GUID@).len() <= MAX_HASHED_LEN
}

/// The accept value that answers the client's key, where the key can be
/// hashed.
fn accept_key_where_hashable(key: &str) -> (accept: Option<String>)
    ensures
        match accept {
            Some(text) => hashable(key@) && text@ == accept_text(key@),
            None => !hashable(key@),
        },
{
    let mut input = String::from_str(key);
    input.append(GUID);
    let bytes = input.as_str().as_bytes();
    if bytes.len() as u64 > MAX_HASHED_LEN {
        return None;
    }
    let digest = sha1(bytes);
    Some(base64_encode(digest.as_slice()))
}

/// The accept value that answers the client's key.
pub fn accept_key(key: &str) -> (accept: String)
    requires
        hashable(key@),
    ensures
        accept@ == accept_text(key@),
{
    accept_key_where_hashable(key).unwrap()
}

/// The answer that carries the accept value `accept`.
pub open spec fn response_text(accept: Seq<char>) -> Seq<char> {
    RESPONSE_HEAD@ + accept + RESPONSE_TAIL@
}

/// The answer that carries the accept value `accept`: the status line, the
/// two upgrade headers, the accept header and a blank line.
pub fn response(accept: &str) -> (answer: String)
    ensures
        answer@ == response_text(accept@),
{
    let mut answer = String::from_str(RESPONSE_HEAD);
    answer.append(accept);
    answer.append(RESPONSE_TAIL);
    answer
}

/// An upper-case ASCII letter as its lower-case letter, any other byte as
/// it is.
pub open spec fn lower(b: u8) -> u8 {
    if 0x41 <= b && b <= 0x5a {
        (b + 0x20) as u8
    } else {
        b
    }
}

/// Whether `name` is the name of the key header, whatever the case of its
/// letters.
pub open spec fn names_key(name: Seq<u8>) -> bool {
    let want = encode_utf8(KEY_HEADER@);
    &&& name.len() == want.len()
    &&& forall|i: int| 0 <= i < name.len() ==> lower(#[trigger] name[i]) == want[i]
}

/// The value of the last header field that is named as the key header is,
/// if there is one.
pub open spec fn key_value(headers: Seq<(Seq<u8>, Seq<u8>)>) -> Option<Seq<u8>>
    decreases headers.len(),
{
    if headers.len() == 0 {
        None
    } else if names_key(headers.last().0) {
        Some(headers.last().1)
    } else {
        key_value(headers.drop_last())
    }
}

/// The client's key among the header fields, as text.
pub open spec fn client_key(headers: Seq<(Seq<u8>, Seq<u8>)>) -> Option<Seq<char>> {
    match key_value(headers) {
        Some(value) => Some(text_of(value)),
        None => None,
    }
}

/// The answer to a request with these header fields: the response that
/// carries the accept value for the client's key, or the error that the
/// key is missing or too long.
pub open spec fn answer_text(headers: Seq<(Seq<u8>, Seq<u8>)>) -> Result<
    Seq<char>,
    HandshakeError,
> {
    match client_key(headers) {
        Some(key) => if hashable(key) {
            Ok(response_text(accept_text(key)))
        } else {
            Err(HandshakeError::KeyTooLong)
        },
        None => Err(HandshakeError::MissingHandshakeKey),
    }
}

/// The answer to a parsed request, of which `filled` says whether it
/// filled all the room that is looked at. A request that is cut short is
/// too large where it did, and incomplete where it did not.
pub open spec fn handshake_result(parsed: ParsedRequestView, filled: bool) -> Result<
    Seq<char>,
    HandshakeError,
> {
    match parsed {
        ParsedRequestView::Complete(headers) => answer_text(headers),
        ParsedRequestView::Partial => if filled {
            Err(HandshakeError::RequestTooLarge)
        } else {
            Err(HandshakeError::Incomplete)
        },
        ParsedRequestView::Invalid => Err(HandshakeError::Malformed),
    }
}

/// The part of a request that is looked at: its first `MAX_REQUEST_LEN`
/// bytes.
pub open spec fn looked_at(request: Seq<u8>) -> Seq<u8> {
    if request.len() > MAX_REQUEST_LEN {
        request.subrange(0, MAX_REQUEST_LEN as int)
    } else {
        request
    }
}

/// What is made of the bytes of a request: the answer to what parsing
/// makes of the part that is looked at.
pub open spec fn outcome(request: Seq<u8>) -> Result<Seq<char>, HandshakeError> {
    handshake_result(
        parsed_request(looked_at(request), MAX_HEADERS as nat),
        request.len() >= MAX_REQUEST_LEN,
    )
}

fn is_key_name(name: &[u8]) -> (found: bool)
    ensures
        found == names_key(name@),
{
    let want = KEY_HEADER.as_bytes();
    if name.len() != want.len() {
        return false;
    }
    let mut i: usize = 0;
    while i < name.len()
        invariant
            i <= name@.len(),
            name@.len() == want@.len(),
            want@ == encode_utf8(KEY_HEADER@),
            forall|j: int| 0 <= j < i ==> lower(#[trigger] name@[j]) == want@[j],
        decreases name@.len() - i,
    {
        let b = name[i];
        let folded = if 0x41 <= b && b <= 0x5a {
            b + 0x20
        } else {
            b
        };
        if folded != want[i] {
            return false;
        }
        i += 1;
    }
    true
}

/// The client's key among the header fields: the value of the last field
/// that is named `Sec-WebSocket-Key`, in any case of letters, as text.
pub fn websocket_key(headers: &Vec<HeaderField>) -> (key: Option<String>)
    ensures
        match key {
            Some(text) => client_key(fields(headers@)) == Some(text@),
            None => client_key(fields(headers@)) is None,
        },
{
    let ghost all = fields(headers@);
    let mut i: usize = headers.len();
    assert(all.subrange(0, i as int) == all);
    while i > 0
        invariant
            i <= headers@.len(),
            all == fields(headers@),
            key_value(all) == key_value(all.subrange(0, i as int)),
        decreases i,
    {
        i -= 1;
        proof {
            let upto = all.subrange(0, i + 1);
            assert(upto.drop_last() == all.subrange(0, i as int));
        }
        if is_key_name(headers[i].name.as_slice()) {
            return Some(from_utf8_lossy(headers[i].value.as_slice()));
        }
    }
    None
}

/// Answers a request with these header fields.
pub fn answer(headers: &Vec<HeaderField>) -> (r: Result<String, HandshakeError>)
    ensures
        shown(r) == answer_text(fields(headers@)),
{
    match websocket_key(headers) {
        Some(key) => match accept_key_where_hashable(key.as_str()) {
            Some(accept) => Ok(response(accept.as_str())),
            None => Err(HandshakeError::KeyTooLong),
        },
        None => Err(HandshakeError::MissingHandshakeKey),
    }
}

/// Answers a parsed request, of which `filled` says whether it filled all
/// the room that is looked at.
pub fn conclude(parsed: ParsedRequest, filled: bool) -> (r: Result<String, HandshakeError>)
    ensures
        shown(r) == handshake_result(parsed@, filled),
{
    match parsed {
        ParsedRequest::Complete(headers) => answer(&headers),
        ParsedRequest::Partial => if filled {
            Err(HandshakeError::RequestTooLarge)
        } else {
            Err(HandshakeError::Incomplete)
        },
        ParsedRequest::Invalid => Err(HandshakeError::Malformed),
    }
}

/// Answers the bytes of a client's request.
///
/// Only the first `MAX_REQUEST_LEN` bytes are looked at, and at most
/// `MAX_HEADERS` header fields are admitted. What follows a whole request
/// head is ignored. The answer is the text to send back; without one,
/// nothing is to be sent.
pub fn respond(request: &[u8]) -> (r: Result<String, HandshakeError>)
    ensures
        shown(r) == outcome(request@),
{
    let filled = request.len() >= MAX_REQUEST_LEN;
    let head = if request.len() > MAX_REQUEST_LEN {
        slice_subrange(request, 0, MAX_REQUEST_LEN)
    } else {
        request
    };
    let parsed = match parse_request(head, MAX_HEADERS) {
        Ok(Some(headers)) => ParsedRequest::Complete(headers),
        Ok(None) => ParsedRequest::Partial,
        Err(_) => ParsedRequest::Invalid,
    };
    conclude(parsed, filled)
}

} // verus!
