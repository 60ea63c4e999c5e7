use crate::text::{
    ascii_chars, ascii_string, decimal_bytes, decimal_string, find_from, lemma_find_from_first,
    lemma_find_from_none, matches_at, split_from, contains_char, lemma_split_first, lowercase_starts_with, split,
    split_str, starts_with, str_eq, to_ascii_lowercase, trim, trim_end, trim_start, trim_str,
    is_unicode_whitespace,
};
use crate::buffer::{bytes_mut_as_slice, bytes_mut_contents, bytes_mut_write_str};
use crate::tunnel::{EstablishTunnelResult, HttpTunnelTarget};
use bytes::BytesMut;
use std::sync::Arc;
use vstd::prelude::*;
use vstd::slice::*;
use vstd::string::*;

verus! {

/// Bytes that a client sent ahead of the tunnel, to be delivered to the target
/// once it is connected.
#[derive(Clone)]
pub struct Nugget {
    data: Arc<Vec<u8>>,
}

impl View for Nugget {
    type V = Seq<u8>;

    closed spec fn view(&self) -> Seq<u8> {
        self.data@
    }
}

/// `<Arc<Vec<u8>> as Clone>::clone`: a second handle on the same bytes.
#[verifier::external_body]
fn arc_clone_bytes(a: &Arc<Vec<u8>>) -> (r: Arc<Vec<u8>>)
    ensures
        r@ == a@,
{
    a.clone()
}

impl Nugget {
    pub fn new(v: Vec<u8>) -> (r: Nugget)
        ensures
            r@ == v@,
    {
        Nugget { data: Arc::new(v) }
    }

    pub fn data(&self) -> (r: Arc<Vec<u8>>)
        ensures
            r@ == self@,
    {
        arc_clone_bytes(&self.data)
    }
}

/// A reasonable value to limit possible header size.
pub const MAX_HTTP_REQUEST_SIZE: usize = 16384;

/// The bytes a request may hold: printable ASCII, tab, line feed and carriage return.
pub open spec fn is_legal_byte(b: u8) -> bool {
    (32 <= b <= 126) || b == 9 || b == 10 || b == 13
}

/// Every byte of `request` may stand in a request.
pub open spec fn all_legal(request: Seq<u8>) -> bool {
    forall|i: int| 0 <= i < request.len() ==> is_legal_byte(#[trigger] request[i])
}

/// The method a tunnel request must use.
pub open spec fn connect_method() -> Seq<char> {
    "CONNECT"@
}

/// The protocol version a tunnel request must name.
pub open spec fn http_version() -> Seq<char> {
    "HTTP/1.1"@
}

/// The header that names the destination host, lowercased.
pub open spec fn host_header() -> Seq<char> {
    "host:"@
}

/// A line of a request that is the `Host` header, in any letter case.
pub open spec fn is_host_line(line: Seq<char>) -> bool {
    starts_with(to_ascii_lowercase(line), host_header())
}

/// The first `Host` header line among `lines`.
pub open spec fn first_host_line(lines: Seq<Seq<char>>) -> Option<Seq<char>>
    decreases lines.len(),
{
    if lines.len() == 0 {
        None
    } else if is_host_line(lines[0]) {
        Some(lines[0])
    } else {
        first_host_line(lines.drop_first())
    }
}

/// The port a host without one gets: 443 for an `https://` endpoint, in any
/// letter case, 80 otherwise.
pub open spec fn default_port(endpoint: Seq<char>) -> Seq<char> {
    if starts_with(to_ascii_lowercase(endpoint), "https://"@) {
        ":443"@
    } else {
        ":80"@
    }
}

/// `host`, with the default port for `endpoint` appended when it has no `:`.
pub open spec fn with_default_port(host: Seq<char>, endpoint: Seq<char>) -> Seq<char> {
    if host.contains(':') {
        host
    } else {
        host + default_port(endpoint)
    }
}

/// The destination that the first `Host` header among `lines` names, trimmed,
/// with a default port when it has none.
pub open spec fn spec_extract_destination_host(lines: Seq<Seq<char>>, endpoint: Seq<char>) -> Option<
    Seq<char>,
> {
    match first_host_line(lines) {
        Some(line) => Some(with_default_port(trim(line.skip(host_header().len() as int)), endpoint)),
        None => None,
    }
}

/// Checks of a request line's method: only `CONNECT` is allowed, and it
/// carries no nugget.
pub open spec fn spec_validate_method(method: Seq<char>) -> Result<bool, EstablishTunnelResult> {
    if method == connect_method() {
        Ok(false)
    } else {
        Err(EstablishTunnelResult::OperationNotAllowed)
    }
}

/// Checks of a request line's version: only `HTTP/1.1` is accepted.
pub open spec fn spec_validate_version(version: Seq<char>) -> Result<(), EstablishTunnelResult> {
    if version == http_version() {
        Ok(())
    } else {
        Err(EstablishTunnelResult::BadRequest)
    }
}

/// A request line split on spaces: exactly three items, method, target and
/// version, are accepted; then the method and the version are checked.
pub open spec fn spec_parse_request_line(line: Seq<char>) -> Result<
    (Seq<char>, Seq<char>, Seq<char>, bool),
    EstablishTunnelResult,
> {
    let items = split(line, " "@);
    if items.len() != 3 {
        Err(EstablishTunnelResult::BadRequest)
    } else {
        match spec_validate_method(items[0]) {
            Err(e) => Err(e),
            Ok(has_nugget) => match spec_validate_version(items[2]) {
                Err(e) => Err(e),
                Ok(_) => Ok((items[0], items[1], items[2], has_nugget)),
            },
        }
    }
}

/// The lines of a request.
pub open spec fn request_lines(request: Seq<u8>) -> Seq<Seq<char>> {
    split(ascii_chars(request), "\r\n"@)
}

/// What a tunnel request parses to: its destination and the nugget it
/// carries, or the answer that refuses it.
pub open spec fn spec_parse(request: Seq<u8>) -> Result<
    (Seq<char>, Option<Seq<u8>>),
    EstablishTunnelResult,
> {
    if request.len() >= MAX_HTTP_REQUEST_SIZE {
        Err(EstablishTunnelResult::BadRequest)
    } else if !all_legal(request) {
        Err(EstablishTunnelResult::BadRequest)
    } else {
        let lines = request_lines(request);
        match spec_parse_request_line(lines[0]) {
            Err(e) => Err(e),
            Ok((_, uri, _, has_nugget)) => if has_nugget {
                let host = match spec_extract_destination_host(lines.drop_first(), uri) {
                    Some(host) => host,
                    None => uri,
                };
                Ok((host, Some(request)))
            } else {
                Ok((uri, None))
            },
        }
    }
}

/// A parsed request as a value: its destination and its nugget's bytes.
pub type RequestView = (Seq<char>, Option<Seq<u8>>);

/// A parsed request line as a value: method, target, version and whether a
/// nugget follows.
pub type RequestLineView = (Seq<char>, Seq<char>, Seq<char>, bool);

/// A parsed `CONNECT` request.
pub struct HttpConnectRequest {
    pub uri: String,
    pub nugget: Option<Nugget>,
}

impl View for HttpConnectRequest {
    type V = (Seq<char>, Option<Seq<u8>>);

    open spec fn view(&self) -> (Seq<char>, Option<Seq<u8>>) {
        (self.uri@, crate::tunnel::nugget_bytes(self.nugget))
    }
}

impl HttpConnectRequest {
    /// Parses a `CONNECT` request.
    pub fn parse(http_request: &[u8]) -> (r: Result<HttpConnectRequest, EstablishTunnelResult>)
        ensures
            match r {
                Ok(req) => spec_parse(http_request@) == Ok::<_, EstablishTunnelResult>(req@),
                Err(e) => spec_parse(http_request@) == Err::<RequestView, EstablishTunnelResult>(e),
            },
    {
        broadcast use vstd::string::group_string_axioms;

        match Self::validate_request_size(http_request) {
            Ok(()) => {},
            Err(e) => return Err(e),
        }
        match Self::validate_legal_characters(http_request) {
            Ok(()) => {},
            Err(e) => return Err(e),
        }
        let http_request_as_string = ascii_string(slice_to_vec(http_request));
        proof {
            reveal_strlit("\r\n");
        }
        let lines = split_str(http_request_as_string.as_str(), "\r\n");
        proof {
            lemma_split_first(ascii_chars(http_request@), "\r\n"@);
            assert(lines@.map_values(|x: &str| x@)[0] == lines@[0]@);
        }
        let request_line = match Self::parse_request_line(lines[0]) {
            Ok(items) => items,
            Err(e) => return Err(e),
        };
        let has_nugget = request_line.3;
        if has_nugget {
            let rest = slice_subrange(lines.as_slice(), 1, lines.len());
            proof {
                assert(rest@.map_values(|x: &str| x@) =~= lines@.map_values(|x: &str| x@).drop_first());
            }
            let uri = match Self::extract_destination_host(rest, request_line.1) {
                Some(host) => host,
                None => request_line.1.to_string(),
            };
            return Ok(
                HttpConnectRequest { uri, nugget: Some(Nugget::new(slice_to_vec(http_request))) },
            );
        }
        Ok(HttpConnectRequest { uri: request_line.1.to_string(), nugget: None })
    }

    /// The destination named by the first `Host` header line among `lines`,
    /// with a default port when it names none.
    pub fn extract_destination_host(lines: &[&str], endpoint: &str) -> (r: Option<String>)
        ensures
            match r {
                Some(host) => spec_extract_destination_host(lines@.map_values(|l: &str| l@), endpoint@)
                    == Some(host@),
                None => spec_extract_destination_host(lines@.map_values(|l: &str| l@), endpoint@) is None,
            },
    {
        let ghost all = lines@.map_values(|l: &str| l@);
        let n = lines.len();
        let mut i: usize = 0;
        assert(all.skip(0) =~= all);
        while i < n
            invariant
                n == lines@.len(),
                all == lines@.map_values(|l: &str| l@),
                i <= n,
                first_host_line(all.skip(i as int)) == first_host_line(all),
            decreases n - i,
        {
            let line = lines[i];
            if lowercase_starts_with(line, "host:") {
                assert(all.skip(i as int)[0] == line@);
                proof {
                    reveal_strlit("host:");
                }
                let value = line.substring_char(5, line.unicode_len());
                let host = trim_str(value);
                let mut owned = host.to_string();
                if !contains_char(host, ':') {
                    if lowercase_starts_with(endpoint, "https://") {
                        owned.append(":443");
                    } else {
                        owned.append(":80");
                    }
                }
                return Some(owned);
            }
            assert(all.skip(i as int).drop_first() =~= all.skip(i + 1));
            i = i + 1;
        }
        None
    }

    /// Splits a request line into its method, target and version, and checks them.
    pub fn parse_request_line(request_line: &str) -> (r: Result<
        (&str, &str, &str, bool),
        EstablishTunnelResult,
    >)
        ensures
            match r {
                Ok((m, u, v, h)) => spec_parse_request_line(request_line@) == Ok::<_, EstablishTunnelResult>((m@, u@, v@, h)),
                Err(e) => spec_parse_request_line(request_line@) == Err::<RequestLineView, EstablishTunnelResult>(e),
            },
    {
        proof {
            reveal_strlit(" ");
        }
        let request_line_items = split_str(request_line, " ");
        match Self::validate_well_formed(request_line, request_line_items.as_slice()) {
            Ok(()) => {},
            Err(e) => return Err(e),
        }
        let method = request_line_items[0];
        let uri = request_line_items[1];
        let version = request_line_items[2];
        proof {
            let items = request_line_items@.map_values(|x: &str| x@);
            assert(items[0] == method@ && items[1] == uri@ && items[2] == version@);
        }
        let has_nugget = match Self::validate_method(method) {
            Ok(h) => h,
            Err(e) => return Err(e),
        };
        match Self::validate_version(version) {
            Ok(()) => {},
            Err(e) => return Err(e),
        }
        Ok((method, uri, version, has_nugget))
    }

    pub fn validate_version(version: &str) -> (r: Result<(), EstablishTunnelResult>)
        ensures
            r == spec_validate_version(version@),
    {
        if !str_eq(version, "HTTP/1.1") {
            return Err(EstablishTunnelResult::BadRequest);
        }
        return Ok(());
    }

    pub fn validate_method(method: &str) -> (r: Result<bool, EstablishTunnelResult>)
        ensures
            r == spec_validate_method(method@),
    {
        if !str_eq(method, "CONNECT") {
            return Err(EstablishTunnelResult::OperationNotAllowed);
        }
        return Ok(false);
    }

    pub fn validate_well_formed(request_line: &str, request_line_items: &[&str]) -> (r: Result<
        (),
        EstablishTunnelResult,
    >)
        ensures
            r == (if request_line_items@.len() != 3 {
                Err(EstablishTunnelResult::BadRequest)
            } else {
                Ok(())
            }),
    {
        if request_line_items.len() != 3 {
            return Err(EstablishTunnelResult::BadRequest);
        }
        return Ok(());
    }

    pub fn validate_request_size(http_request: &[u8]) -> (r: Result<(), EstablishTunnelResult>)
        ensures
            r == (if http_request@.len() >= MAX_HTTP_REQUEST_SIZE {
                Err(EstablishTunnelResult::BadRequest)
            } else {
                Ok(())
            }),
    {
        if http_request.len() >= MAX_HTTP_REQUEST_SIZE {
            return Err(EstablishTunnelResult::BadRequest);
        }
        return Ok(());
    }

    pub fn validate_legal_characters(http_request: &[u8]) -> (r: Result<(), EstablishTunnelResult>)
        ensures
            r == (if all_legal(http_request@) {
                Ok(())
            } else {
                Err(EstablishTunnelResult::BadRequest)
            }),
    {
        let n = http_request.len();
        let mut i: usize = 0;
        while i < n
            invariant
                n == http_request@.len(),
                i <= n,
                forall|t: int| 0 <= t < i ==> is_legal_byte(#[trigger] http_request@[t]),
            decreases n - i,
        {
            let b = http_request[i];
            if !((32 <= b && b <= 126) || b == 9 || b == 10 || b == 13) {
                return Err(EstablishTunnelResult::BadRequest);
            }
            i = i + 1;
        }
        Ok(())
    }
}

/// The bytes that end a request's header.
pub open spec fn request_end_marker() -> Seq<u8> {
    seq![13u8, 10u8, 13u8, 10u8]
}

/// A buffer holds a whole request: it ends with an empty line, or it is too
/// large to wait for more.
pub open spec fn request_complete(buffer: Seq<u8>) -> bool {
    ||| buffer.len() >= MAX_HTTP_REQUEST_SIZE
    ||| (buffer.len() >= 4 && buffer.skip(buffer.len() - 4) == request_end_marker())
}

/// Whether the buffer holds a whole request.
pub fn got_http_request(buffer: &BytesMut) -> (r: bool)
    ensures
        r == request_complete(bytes_mut_contents(*buffer)),
{
    let bytes = bytes_mut_as_slice(buffer);
    let n = bytes.len();
    if n >= MAX_HTTP_REQUEST_SIZE {
        return true;
    }
    if n < 4 {
        return false;
    }
    let r = bytes[n - 4] == 13 && bytes[n - 3] == 10 && bytes[n - 2] == 13 && bytes[n - 1] == 10;
    assert(r == (bytes@.skip(n - 4) =~= request_end_marker()));
    r
}

/// What decoding a buffer gives: nothing while the request is incomplete,
/// else the destination of the parsed request or the answer that refuses it.
pub open spec fn spec_decode(buffer: Seq<u8>) -> Result<Option<Seq<char>>, EstablishTunnelResult> {
    if !request_complete(buffer) {
        Ok(None)
    } else {
        match spec_parse(buffer) {
            Ok((uri, _)) => Ok(Some(uri)),
            Err(e) => Err(e),
        }
    }
}

/// A decoding result as a value: the decoded target's address.
pub open spec fn decoded_view(r: Result<Option<HttpTunnelTarget>, EstablishTunnelResult>) -> Result<
    Option<Seq<char>>,
    EstablishTunnelResult,
> {
    match r {
        Ok(Some(t)) => Ok(Some(t.target())),
        Ok(None) => Ok(None),
        Err(e) => Err(e),
    }
}

/// The status code that answers a tunnel request.
pub open spec fn status_code(item: EstablishTunnelResult) -> nat {
    match item {
        EstablishTunnelResult::Success => 200,
        EstablishTunnelResult::OkWithNugget => 200,
        EstablishTunnelResult::BadRequest => 400,
        EstablishTunnelResult::Forbidden => 403,
        EstablishTunnelResult::OperationNotAllowed => 405,
        EstablishTunnelResult::RequestTimeout => 408,
        EstablishTunnelResult::TooManyRequests => 429,
        EstablishTunnelResult::ServerError => 500,
        EstablishTunnelResult::BadGateway => 502,
        EstablishTunnelResult::GatewayTimeout => 504,
    }
}

/// The reason phrase that follows the status code.
pub open spec fn reason_phrase(item: EstablishTunnelResult) -> Seq<char> {
    match item {
        EstablishTunnelResult::Success => "OK"@,
        EstablishTunnelResult::OkWithNugget => "OK"@,
        EstablishTunnelResult::BadRequest => "BAD_REQUEST"@,
        EstablishTunnelResult::Forbidden => "FORBIDDEN"@,
        EstablishTunnelResult::OperationNotAllowed => "NOT_ALLOWED"@,
        EstablishTunnelResult::RequestTimeout => "TIMEOUT"@,
        EstablishTunnelResult::TooManyRequests => "TOO_MANY_REQUESTS"@,
        EstablishTunnelResult::ServerError => "SERVER_ERROR"@,
        EstablishTunnelResult::BadGateway => "BAD_GATEWAY"@,
        EstablishTunnelResult::GatewayTimeout => "GATEWAY_TIMEOUT"@,
    }
}

/// The response that answers a tunnel request: `HTTP/1.1 <code> <reason>`
/// followed by an empty line.
pub open spec fn response_line(item: EstablishTunnelResult) -> Seq<char> {
    "HTTP/1.1 "@ + ascii_chars(decimal_bytes(status_code(item))) + " "@ + reason_phrase(item)
        + "\r\n\r\n"@
}

/// The bytes of ASCII text, one byte per character.
pub open spec fn ascii_bytes(s: Seq<char>) -> Seq<u8> {
    s.map_values(|c: char| c as u8)
}

/// The bytes of the response that answers a tunnel request.
pub open spec fn response_bytes(item: EstablishTunnelResult) -> Seq<u8> {
    ascii_bytes(response_line(item))
}

/// Writing a response did not fit in the buffer.
#[derive(Clone, Copy, Debug, PartialEq, Eq, Structural)]
pub struct EncodeError;

fn status_code_of(item: EstablishTunnelResult) -> (r: u16)
    ensures
        r == status_code(item),
{
    match item {
        EstablishTunnelResult::Success => 200,
        EstablishTunnelResult::OkWithNugget => 200,
        EstablishTunnelResult::BadRequest => 400,
        EstablishTunnelResult::Forbidden => 403,
        EstablishTunnelResult::OperationNotAllowed => 405,
        EstablishTunnelResult::RequestTimeout => 408,
        EstablishTunnelResult::TooManyRequests => 429,
        EstablishTunnelResult::ServerError => 500,
        EstablishTunnelResult::BadGateway => 502,
        EstablishTunnelResult::GatewayTimeout => 504,
    }
}

fn reason_phrase_of(item: EstablishTunnelResult) -> (r: &'static str)
    ensures
        r@ == reason_phrase(item),
        r.is_ascii(),
{
    proof {
        reveal_strlit("OK");
        reveal_strlit("BAD_REQUEST");
        reveal_strlit("FORBIDDEN");
        reveal_strlit("NOT_ALLOWED");
        reveal_strlit("TIMEOUT");
        reveal_strlit("TOO_MANY_REQUESTS");
        reveal_strlit("SERVER_ERROR");
        reveal_strlit("BAD_GATEWAY");
        reveal_strlit("GATEWAY_TIMEOUT");
    }
    match item {
        EstablishTunnelResult::Success => "OK",
        EstablishTunnelResult::OkWithNugget => "OK",
        EstablishTunnelResult::BadRequest => "BAD_REQUEST",
        EstablishTunnelResult::Forbidden => "FORBIDDEN",
        EstablishTunnelResult::OperationNotAllowed => "NOT_ALLOWED",
        EstablishTunnelResult::RequestTimeout => "TIMEOUT",
        EstablishTunnelResult::TooManyRequests => "TOO_MANY_REQUESTS",
        EstablishTunnelResult::ServerError => "SERVER_ERROR",
        EstablishTunnelResult::BadGateway => "BAD_GATEWAY",
        EstablishTunnelResult::GatewayTimeout => "GATEWAY_TIMEOUT",
    }
}

proof fn lemma_ascii_spec_bytes(s: &str)
    requires
        s.is_ascii(),
    ensures
        s.spec_bytes() == ascii_bytes(s@),
{
    is_ascii_spec_bytes(s);
    assert(s.spec_bytes() =~= ascii_bytes(s@));
}

/// The codec of the tunnel handshake: it decodes the client's `CONNECT`
/// request and encodes the answer.
#[derive(Clone, Copy, Debug)]
pub struct HttpTunnelCodec {}

impl HttpTunnelCodec {
    pub fn new() -> (r: HttpTunnelCodec) {
        HttpTunnelCodec {  }
    }

    /// Decodes the request in `src`, which it leaves as it is: nothing while
    /// the request is incomplete; else the target it names, without nugget,
    /// or the answer that refuses it.
    pub fn decode(&mut self, src: &mut BytesMut) -> (r: Result<
        Option<HttpTunnelTarget>,
        EstablishTunnelResult,
    >)
        ensures
            *final(src) == *old(src),
            decoded_view(r) == spec_decode(bytes_mut_contents(*old(src))),
            r matches Ok(Some(t)) ==> t.nugget_bytes() is None,
    {
        if !got_http_request(src) {
            return Ok(None);
        }
        let bytes = bytes_mut_as_slice(src);
        match HttpConnectRequest::parse(bytes) {
            Ok(parsed_request) => Ok(Some(HttpTunnelTarget::new(parsed_request.uri, None))),
            Err(e) => Err(e),
        }
    }

    /// Appends the response that answers `item` to `dst`. When it does not fit
    /// below `isize::MAX` bytes, the write stops at a piece that does not fit
    /// and an error is returned.
    pub fn encode(&mut self, item: EstablishTunnelResult, dst: &mut BytesMut) -> (r: Result<
        (),
        EncodeError,
    >)
        ensures
            r is Ok <==> bytes_mut_contents(*old(dst)).len() + response_bytes(item).len()
                <= isize::MAX,
            r is Ok ==> bytes_mut_contents(*final(dst)) == bytes_mut_contents(*old(dst))
                + response_bytes(item),
            r is Err ==> exists|k: int|
                0 <= k < response_bytes(item).len() && bytes_mut_contents(*final(dst))
                    == bytes_mut_contents(*old(dst)) + response_bytes(item).take(k),
    {
        let code = status_code_of(item);
        let message = reason_phrase_of(item);
        let code_text = decimal_string(code as u128);
        let code_str = code_text.as_str();
        let _ = bytes_mut_as_slice(dst);
        proof {
            reveal_strlit("HTTP/1.1 ");
            reveal_strlit(" ");
            reveal_strlit("\r\n\r\n");
        }
        let ghost start = bytes_mut_contents(*dst);
        let ghost p1 = "HTTP/1.1 "@;
        let ghost p2 = code_text@;
        let ghost p3 = " "@;
        let ghost p4 = message@;
        let ghost p5 = "\r\n\r\n"@;
        proof {
            lemma_ascii_spec_bytes("HTTP/1.1 ");
            lemma_ascii_spec_bytes(code_str);
            lemma_ascii_spec_bytes(" ");
            lemma_ascii_spec_bytes(message);
            lemma_ascii_spec_bytes("\r\n\r\n");
            assert(response_line(item) == p1 + p2 + p3 + p4 + p5);
            assert(response_bytes(item) =~= ascii_bytes(p1) + ascii_bytes(p2) + ascii_bytes(p3)
                + ascii_bytes(p4) + ascii_bytes(p5));
        }
        let ghost b1 = ascii_bytes(p1);
        let ghost b2 = ascii_bytes(p2);
        let ghost b3 = ascii_bytes(p3);
        let ghost b4 = ascii_bytes(p4);
        let ghost b5 = ascii_bytes(p5);
        if !bytes_mut_write_str(dst, "HTTP/1.1 ") {
            assert(response_bytes(item).take(0) =~= Seq::<u8>::empty());
            assert(bytes_mut_contents(*dst) =~= start + response_bytes(item).take(0));
            return Err(EncodeError);
        }
        if !bytes_mut_write_str(dst, code_str) {
            assert(response_bytes(item).take(b1.len() as int) =~= b1);
            return Err(EncodeError);
        }
        if !bytes_mut_write_str(dst, " ") {
            assert(response_bytes(item).take((b1.len() + b2.len()) as int) =~= b1 + b2);
            assert(bytes_mut_contents(*dst) =~= start + (b1 + b2));
            return Err(EncodeError);
        }
        if !bytes_mut_write_str(dst, message) {
            assert(response_bytes(item).take((b1.len() + b2.len() + b3.len()) as int) =~= b1 + b2
                + b3);
            assert(bytes_mut_contents(*dst) =~= start + (b1 + b2 + b3));
            return Err(EncodeError);
        }
        if !bytes_mut_write_str(dst, "\r\n\r\n") {
            assert(response_bytes(item).take((b1.len() + b2.len() + b3.len() + b4.len()) as int)
                =~= b1 + b2 + b3 + b4);
            assert(bytes_mut_contents(*dst) =~= start + (b1 + b2 + b3 + b4));
            return Err(EncodeError);
        }
        assert(bytes_mut_contents(*dst) =~= start + response_bytes(item));
        Ok(())
    }
}

/// The request `CONNECT <uri> HTTP/1.1`, its line break, and then `rest`.
pub open spec fn connect_request(uri: Seq<u8>, rest: Seq<u8>) -> Seq<u8> {
    ascii_bytes("CONNECT "@) + uri + ascii_bytes(" HTTP/1.1\r\n"@) + rest
}

/// Bytes that may stand in a request target: legal, no space, and no line
/// break (a carriage return directly followed by a line feed).
pub open spec fn is_request_target(uri: Seq<u8>) -> bool {
    &&& all_legal(uri)
    &&& forall|i: int| 0 <= i < uri.len() ==> uri[i] != 32
    &&& forall|i: int| 0 <= i < uri.len() - 1 ==> !(#[trigger] uri[i] == 13 && uri[i + 1] == 10)
}

/// A `CONNECT` request for a target without spaces or line breaks, whose bytes
/// are all legal and stay below the size limit, parses to that target and
/// carries no nugget.
pub proof fn lemma_parse_connect_request(uri: Seq<u8>, rest: Seq<u8>)
    requires
        is_request_target(uri),
        all_legal(rest),
        connect_request(uri, rest).len() < MAX_HTTP_REQUEST_SIZE,
    ensures
        spec_parse(connect_request(uri, rest)) == Ok::<RequestView, EstablishTunnelResult>(
            (ascii_chars(uri), None),
        ),
{
    reveal_strlit("CONNECT ");
    reveal_strlit(" HTTP/1.1\r\n");
    reveal_strlit("CONNECT");
    reveal_strlit("HTTP/1.1");
    reveal_strlit(" ");
    reveal_strlit("\r\n");
    let req = connect_request(uri, rest);
    let n = uri.len() as int;
    let pre = "CONNECT "@;
    let post = " HTTP/1.1\r\n"@;
    let u = ascii_chars(uri);
    assert(ascii_chars(ascii_bytes(pre)) =~= pre);
    assert(ascii_chars(ascii_bytes(post)) =~= post);
    assert(all_legal(req)) by {
        assert forall|i: int| 0 <= i < req.len() implies is_legal_byte(#[trigger] req[i]) by {
            if i < 8 {
            } else if i < 8 + n {
                assert(req[i] == uri[i - 8]);
            } else if i < 8 + n + 11 {
            } else {
                assert(req[i] == rest[i - 8 - n - 11]);
            }
        }
    }
    let s = ascii_chars(req);
    assert(s =~= pre + u + post + ascii_chars(rest));
    // The first line ends before the carriage return of `post`.
    let crlf = "\r\n"@;
    let p = 8 + n + 9;
    assert(s.subrange(p, p + 2) =~= crlf);
    assert forall|j: int| 0 <= j < p implies !matches_at(s, crlf, j) by {
        if matches_at(s, crlf, j) {
            assert(s.subrange(j, j + 2)[0] == s[j]);
            assert(s.subrange(j, j + 2)[1] == s[j + 1]);
            if 8 <= j && j + 1 < 8 + n {
                assert(uri[j - 8] == 13 && uri[j - 7] == 10);
            }
        }
    }
    lemma_find_from_first(s, crlf, 0, p);
    lemma_split_first(s, crlf);
    let line = s.take(p);
    let sp = " "@;
    let method = "CONNECT"@;
    let version = "HTTP/1.1"@;
    assert(line =~= method + sp + u + sp + version);
    // The request line splits at its two spaces.
    assert(line.subrange(7, 8) =~= sp);
    assert forall|j: int| 0 <= j < 7 implies !matches_at(line, sp, j) by {
        if matches_at(line, sp, j) {
            assert(line.subrange(j, j + 1)[0] == line[j]);
        }
    }
    lemma_find_from_first(line, sp, 0, 7);
    assert(line.subrange(8 + n, 9 + n) =~= sp);
    assert forall|j: int| 8 <= j < 8 + n implies !matches_at(line, sp, j) by {
        if matches_at(line, sp, j) {
            assert(line.subrange(j, j + 1)[0] == line[j]);
            assert(uri[j - 8] == 32);
        }
    }
    lemma_find_from_first(line, sp, 8, 8 + n);
    assert forall|j: int| 9 + n <= j implies !matches_at(line, sp, j) by {
        if matches_at(line, sp, j) {
            assert(line.subrange(j, j + 1)[0] == line[j]);
        }
    }
    lemma_find_from_none(line, sp, 9 + n);
    let last = split_from(line, sp, 9 + n);
    assert(last =~= seq![version]) by {
        assert(line.subrange(9 + n, line.len() as int) =~= version);
    }
    let middle = split_from(line, sp, 8);
    assert(middle =~= seq![u] + last) by {
        assert(line.subrange(8, 8 + n) =~= u);
    }
    let items = split_from(line, sp, 0);
    assert(items =~= seq![method] + middle) by {
        assert(line.subrange(0, 7) =~= method);
    }
    assert(items =~= seq![method, u, version]);
}

/// What `encode` writes is itself a complete message: it ends with an empty
/// line.
pub proof fn lemma_response_is_complete(item: EstablishTunnelResult)
    ensures
        request_complete(response_bytes(item)),
{
    reveal_strlit("HTTP/1.1 ");
    reveal_strlit(" ");
    reveal_strlit("\r\n\r\n");
    let line = response_line(item);
    let b = response_bytes(item);
    let len = b.len() as int;
    assert(line.len() >= 4);
    assert(line.skip(line.len() - 4) =~= "\r\n\r\n"@);
    assert(b.skip(len - 4) =~= request_end_marker()) by {
        assert forall|i: int| 0 <= i < 4 implies b.skip(len - 4)[i] == request_end_marker()[i] by {
            assert(b[len - 4 + i] == line[len - 4 + i] as u8);
            assert(line[len - 4 + i] == line.skip(line.len() - 4)[i]);
        }
    }
}

/// The destination taken from a `Host` header always names a port.
pub proof fn lemma_extracted_host_has_port(lines: Seq<Seq<char>>, endpoint: Seq<char>)
    ensures
        spec_extract_destination_host(lines, endpoint) matches Some(host) ==> host.contains(':'),
{
    reveal_strlit(":443");
    reveal_strlit(":80");
    if let Some(line) = first_host_line(lines) {
        let host = trim(line.skip(host_header().len() as int));
        if !host.contains(':') {
            let full = host + default_port(endpoint);
            assert(full[host.len() as int] == ':');
        }
    }
}

/// A buffer that reached the size limit is not waited on: decoding refuses it
/// as a bad request.
pub proof fn lemma_oversized_buffer_refused(buffer: Seq<u8>)
    requires
        buffer.len() >= MAX_HTTP_REQUEST_SIZE,
    ensures
        spec_decode(buffer) == Err::<Option<Seq<char>>, EstablishTunnelResult>(
            EstablishTunnelResult::BadRequest,
        ),
{
}

/// Decoding a complete `CONNECT` request for a target without spaces or line
/// breaks, whose bytes are all legal and stay below the size limit, gives that
/// target.
pub proof fn lemma_decode_connect_request(uri: Seq<u8>, rest: Seq<u8>)
    requires
        is_request_target(uri),
        all_legal(rest),
        connect_request(uri, rest).len() < MAX_HTTP_REQUEST_SIZE,
        request_complete(connect_request(uri, rest)),
    ensures
        spec_decode(connect_request(uri, rest)) == Ok::<_, EstablishTunnelResult>(
            Some(ascii_chars(uri)),
        ),
{
    lemma_parse_connect_request(uri, rest);
}

/// The bytes a request may hold are exactly the printable ASCII bytes (32 to
/// 126), tab (9), line feed (10) and carriage return (13).
pub proof fn lemma_legal_bytes(b: u8)
    ensures
        is_legal_byte(b) <==> (32 <= b <= 126 || b == 9 || b == 10 || b == 13),
{
}

/// A `CONNECT` request for a target of printable ASCII without spaces, whose
/// header text holds any printable ASCII, tabs and line breaks, and that stays
/// below the size limit, parses to its target without nugget.
pub proof fn lemma_printable_request_accepted(uri: Seq<u8>, rest: Seq<u8>)
    requires
        forall|i: int| 0 <= i < uri.len() ==> 33 <= #[trigger] uri[i] <= 126,
        forall|i: int|
            0 <= i < rest.len() ==> (32 <= #[trigger] rest[i] <= 126 || rest[i] == 9 || rest[i]
                == 10 || rest[i] == 13),
        connect_request(uri, rest).len() < 16384,
    ensures
        spec_parse(connect_request(uri, rest)) == Ok::<
            RequestView,
            EstablishTunnelResult,
        >((ascii_chars(uri), None)),
{
    assert(is_request_target(uri)) by {
        assert forall|i: int| 0 <= i < uri.len() - 1 implies !(#[trigger] uri[i] == 13 && uri[i
            + 1] == 10) by {}
    }
    assert(all_legal(rest));
    lemma_parse_connect_request(uri, rest);
}

/// Decoding answers `Ok(None)` exactly for a buffer that holds fewer than
/// 16384 bytes and does not end with `\r\n\r\n`.
pub proof fn lemma_decode_waits_only_for_incomplete(buffer: Seq<u8>)
    ensures
        spec_decode(buffer) == Ok::<Option<Seq<char>>, EstablishTunnelResult>(None) <==> !(
        buffer.len() >= 16384 || (buffer.len() >= 4 && buffer[buffer.len() - 4] == 13
            && buffer[buffer.len() - 3] == 10 && buffer[buffer.len() - 2] == 13 && buffer[buffer.len()
            - 1] == 10)),
{
    let n = buffer.len() as int;
    if n >= 4 {
        if buffer[n - 4] == 13 && buffer[n - 3] == 10 && buffer[n - 2] == 13 && buffer[n - 1] == 10 {
            assert(buffer.skip(n - 4) =~= request_end_marker());
        }
        if buffer.skip(n - 4) == request_end_marker() {
            assert(buffer[n - 4] == buffer.skip(n - 4)[0]);
            assert(buffer[n - 3] == buffer.skip(n - 4)[1]);
            assert(buffer[n - 2] == buffer.skip(n - 4)[2]);
            assert(buffer[n - 1] == buffer.skip(n - 4)[3]);
        }
    }
}

/// Once a buffer holds a whole request, decoding gives what parsing gives:
/// its refusal as is, or its destination.
pub proof fn lemma_decode_complete_is_parse(buffer: Seq<u8>)
    requires
        request_complete(buffer),
    ensures
        forall|e: EstablishTunnelResult|
            spec_parse(buffer) == Err::<RequestView, EstablishTunnelResult>(e) ==> spec_decode(
                buffer,
            ) == Err::<Option<Seq<char>>, EstablishTunnelResult>(e),
        spec_parse(buffer) matches Ok((uri, _)) ==> spec_decode(buffer) == Ok::<
            Option<Seq<char>>,
            EstablishTunnelResult,
        >(Some(uri)),
{
}

/// A request of legal bytes below the size limit whose first line has three
/// space-separated items and a version other than `HTTP/1.1`, after the
/// method `CONNECT`, is refused as a bad request.
pub proof fn lemma_other_version_refused(request: Seq<u8>)
    requires
        request.len() < 16384,
        all_legal(request),
        split(request_lines(request)[0], " "@).len() == 3,
        split(request_lines(request)[0], " "@)[0] == "CONNECT"@,
        split(request_lines(request)[0], " "@)[2] != "HTTP/1.1"@,
    ensures
        spec_parse(request) == Err::<RequestView, EstablishTunnelResult>(
            EstablishTunnelResult::BadRequest,
        ),
{
}

/// Only the exact method `CONNECT` is accepted; any other method is refused
/// as an operation that is not allowed.
pub proof fn lemma_only_connect_method(method: Seq<char>)
    ensures
        method == "CONNECT"@ ==> spec_validate_method(method) == Ok::<bool, EstablishTunnelResult>(
            false,
        ),
        method != "CONNECT"@ ==> spec_validate_method(method) == Err::<bool, EstablishTunnelResult>(
            EstablishTunnelResult::OperationNotAllowed,
        ),
{
}

/// A request of legal bytes below the size limit whose first line has three
/// space-separated items and a method other than `CONNECT` is refused as an
/// operation that is not allowed, whatever its version.
pub proof fn lemma_other_method_refused(request: Seq<u8>)
    requires
        request.len() < 16384,
        all_legal(request),
        split(request_lines(request)[0], " "@).len() == 3,
        split(request_lines(request)[0], " "@)[0] != "CONNECT"@,
    ensures
        spec_parse(request) == Err::<RequestView, EstablishTunnelResult>(
            EstablishTunnelResult::OperationNotAllowed,
        ),
{
}

/// When the first line is `Host:` followed by printable ASCII without spaces,
/// the destination is exactly that text: unchanged when it holds a `:`, else
/// with `:443` appended for an `https://` endpoint and `:80` for any other.
pub proof fn lemma_host_line_destination(lines: Seq<Seq<char>>, h: Seq<char>, endpoint: Seq<char>)
    requires
        lines.len() > 0,
        lines[0] == "Host:"@ + h,
        forall|i: int| 0 <= i < h.len() ==> '!' <= #[trigger] h[i] <= '~',
    ensures
        spec_extract_destination_host(lines, endpoint) == Some(
            if h.contains(':') {
                h
            } else if starts_with(to_ascii_lowercase(endpoint), "https://"@) {
                h + ":443"@
            } else {
                h + ":80"@
            },
        ),
{
    reveal_strlit("Host:");
    reveal_strlit("host:");
    let line = lines[0];
    assert(to_ascii_lowercase(line).take(5) =~= "host:"@);
    assert(is_host_line(line));
    assert(first_host_line(lines) == Some(line));
    assert(line.skip(5) =~= h);
    assert(host_header().len() == 5);
    assert(trim_start(h) == h) by {
        if h.len() > 0 {
            assert(!is_unicode_whitespace(h[0]));
        }
    }
    assert(trim_end(h) == h) by {
        if h.len() > 0 {
            assert(!is_unicode_whitespace(h.last()));
        }
    }
}

} // verus!
