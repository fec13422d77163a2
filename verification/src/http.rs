//! HTTP sessions: header parsing, preloaded static responses, and the
//! WebSocket upgrade handshake.
//!
//! The parser works on raw bytes. It waits for the `\r\n\r\n` terminator,
//! then takes the request path from the first line's second token and the
//! `Sec-WebSocket-Key` header (matched on its ASCII-lowercased name, last
//! occurrence winning). The decision either serves a preloaded response, or
//! upgrades the session to a WebSocket session bound to a configured command.

use vstd::prelude::*;
use vstd::string::StringSliceAdditionalSpecFns;
use vstd::utf8::valid_utf8;

use base64::Engine;
use sha1::Digest;

use crate::config::Config;
use crate::reactor::Interest;
use crate::reactor::ProtocolEvent;
use crate::reactor::Session;
use crate::websockets::WsSession;
use crate::wire::append_bytes;
use crate::wire::bytes_eq;
use crate::wire::copy_range;
use crate::wire::dec_u;
use crate::wire::u64_dec;

verus! {

/// First position in `s[from..end]` holding the two-byte pattern `a b`.
pub open spec fn find2_from(s: Seq<u8>, a: u8, b: u8, i: int, end: int) -> Option<int>
    decreases end - i,
{
    if i < 0 || i + 2 > end || end > s.len() {
        None
    } else if s[i] == a && s[i + 1] == b {
        Some(i)
    } else {
        find2_from(s, a, b, i + 1, end)
    }
}

/// A found two-byte pattern lies within the searched range.
pub proof fn lemma_find2_from_bounds(s: Seq<u8>, a: u8, b: u8, i: int, end: int)
    ensures
        find2_from(s, a, b, i, end) matches Some(p) ==> i <= p && p + 2 <= end && end <= s.len(),
    decreases end - i,
{
    if !(i < 0 || i + 2 > end || end > s.len()) && !(s[i] == a && s[i + 1] == b) {
        lemma_find2_from_bounds(s, a, b, i + 1, end);
    }
}

/// First position in `s[from..end]` holding the byte `t`.
pub open spec fn find1_from(s: Seq<u8>, t: u8, i: int, end: int) -> Option<int>
    decreases end - i,
{
    if i < 0 || i + 1 > end || end > s.len() {
        None
    } else if s[i] == t {
        Some(i)
    } else {
        find1_from(s, t, i + 1, end)
    }
}

/// First position of the `\r\n\r\n` header terminator in `s`.
pub open spec fn find_crlfcrlf(s: Seq<u8>, i: int) -> Option<int>
    decreases s.len() - i,
{
    if i < 0 || i + 4 > s.len() {
        None
    } else if s[i] == 13 && s[i + 1] == 10 && s[i + 2] == 13 && s[i + 3] == 10 {
        Some(i)
    } else {
        find_crlfcrlf(s, i + 1)
    }
}

/// ASCII lowercasing of one byte.
pub open spec fn ascii_lower(b: u8) -> u8 {
    if 65 <= b && b <= 90 {
        (b + 32) as u8
    } else {
        b
    }
}

/// ASCII lowercasing of a byte sequence.
pub open spec fn lower_bytes(s: Seq<u8>) -> Seq<u8> {
    Seq::new(s.len(), |i: int| ascii_lower(s[i]))
}

/// The bytes of the header name `sec-websocket-key`.
pub open spec fn ws_key_header() -> Seq<u8> {
    seq![115u8, 101, 99, 45, 119, 101, 98, 115, 111, 99, 107, 101, 116, 45, 107, 101, 121]
}

/// The request path: the first line's second space-separated token.
pub open spec fn spec_path(line: Seq<u8>) -> Option<Seq<u8>> {
    match find1_from(line, 32, 0, line.len() as int) {
        None => None,
        Some(q1) => {
            let end = match find1_from(line, 32, q1 + 1, line.len() as int) {
                None => line.len() as int,
                Some(q2) => q2,
            };
            Some(line.subrange(q1 + 1, end))
        },
    }
}

/// Scans header lines from position `i` of the block. Every line must split
/// at a `": "`; the value of the last line whose ASCII-lowercased name is
/// `sec-websocket-key` replaces `acc`. A line without `": "` fails the parse.
pub open spec fn scan_headers_from(block: Seq<u8>, i: int, acc: Option<Seq<u8>>) -> Option<
    Option<Seq<u8>>,
>
    recommends
        0 <= i <= block.len(),
    decreases block.len() - i,
{
    let n = block.len() as int;
    let end = match find2_from(block, 13, 10, i, n) {
        None => n,
        Some(p) => p,
    };
    match find2_from(block, 58, 32, i, end) {
        None => None,
        Some(q) => {
            let acc2 = if lower_bytes(block.subrange(i, q)) == ws_key_header() {
                Some(block.subrange(q + 2, end))
            } else {
                acc
            };
            if end >= n || end < i {
                // the second disjunct never holds (a found pattern lies at or
                // after `i`); it keeps the recursion visibly well-founded
                Some(acc2)
            } else {
                proof {
                    lemma_find2_from_bounds(block, 13, 10, i, n);
                }
                scan_headers_from(block, end + 2, acc2)
            }
        },
    }
}

/// Parses a complete header block: it must be valid UTF-8; the path comes
/// from the first line; the optional WebSocket key from the header lines.
pub open spec fn parse_request(block: Seq<u8>) -> Option<(Seq<u8>, Option<Seq<u8>>)> {
    if !valid_utf8(block) {
        None
    } else {
        let n = block.len() as int;
        let first_end = match find2_from(block, 13, 10, 0, n) {
            None => n,
            Some(p) => p,
        };
        match spec_path(block.subrange(0, first_end)) {
            None => None,
            Some(path) => {
                if first_end >= n {
                    Some((path, None))
                } else {
                    match scan_headers_from(block, first_end + 2, None) {
                        None => None,
                        Some(k) => Some((path, k)),
                    }
                }
            },
        }
    }
}

/// Finds the byte pair `a b` in `s[from..end]`.
fn find2(s: &Vec<u8>, a: u8, b: u8, from: usize, end: usize) -> (r: Option<usize>)
    requires
        from <= end,
        end <= s@.len(),
    ensures
        match find2_from(s@, a, b, from as int, end as int) {
            None => r is None,
            Some(p) => r matches Some(rp) && rp as int == p && from <= rp && rp + 2 <= end,
        },
{
    let mut i = from;
    while end - i >= 2
        invariant
            from <= i <= end,
            end <= s@.len(),
            find2_from(s@, a, b, from as int, end as int) == find2_from(
                s@,
                a,
                b,
                i as int,
                end as int,
            ),
        decreases end - i,
    {
        if s[i] == a && s[i + 1] == b {
            return Some(i);
        }
        i += 1;
    }
    None
}

/// Finds the byte `t` in `s[from..end]`.
fn find1(s: &Vec<u8>, t: u8, from: usize, end: usize) -> (r: Option<usize>)
    requires
        from <= end,
        end <= s@.len(),
    ensures
        match find1_from(s@, t, from as int, end as int) {
            None => r is None,
            Some(p) => r matches Some(rp) && rp as int == p && from <= rp && rp + 1 <= end,
        },
{
    let mut i = from;
    while end - i >= 1
        invariant
            from <= i <= end,
            end <= s@.len(),
            find1_from(s@, t, from as int, end as int) == find1_from(s@, t, i as int, end as int),
        decreases end - i,
    {
        if s[i] == t {
            return Some(i);
        }
        i += 1;
    }
    None
}

/// Finds the `\r\n\r\n` terminator in `s`.
fn find_terminator(s: &Vec<u8>) -> (r: Option<usize>)
    ensures
        match find_crlfcrlf(s@, 0) {
            None => r is None,
            Some(p) => r matches Some(rp) && rp as int == p && p + 4 <= s@.len(),
        },
{
    let n = s.len();
    let mut i: usize = 0;
    while n - i >= 4
        invariant
            i <= n,
            n == s@.len(),
            find_crlfcrlf(s@, 0) == find_crlfcrlf(s@, i as int),
        decreases n - i,
    {
        if s[i] == 13 && s[i + 1] == 10 && s[i + 2] == 13 && s[i + 3] == 10 {
            return Some(i);
        }
        i += 1;
    }
    None
}

/// ASCII lowercasing of one byte.
fn to_lower(b: u8) -> (r: u8)
    ensures
        r == ascii_lower(b),
{
    if 65 <= b && b <= 90 {
        b + 32
    } else {
        b
    }
}

/// Whether `block[i..q]`, ASCII-lowercased, is `sec-websocket-key`.
fn header_name_is_ws_key(block: &Vec<u8>, i: usize, q: usize) -> (r: bool)
    requires
        i <= q <= block@.len(),
    ensures
        r == (lower_bytes(block@.subrange(i as int, q as int)) == ws_key_header()),
{
    let mut key: Vec<u8> = Vec::new();
    key.push(115);
    key.push(101);
    key.push(99);
    key.push(45);
    key.push(119);
    key.push(101);
    key.push(98);
    key.push(115);
    key.push(111);
    key.push(99);
    key.push(107);
    key.push(101);
    key.push(116);
    key.push(45);
    key.push(107);
    key.push(101);
    key.push(121);
    proof {
        assert(key@ =~= ws_key_header());
    }
    if q - i != 17 {
        proof {
            assert(lower_bytes(block@.subrange(i as int, q as int)).len() != 17);
        }
        return false;
    }
    let mut j: usize = 0;
    while j < 17
        invariant
            i + 17 == q,
            q <= block@.len(),
            j <= 17,
            key@ == ws_key_header(),
            forall|jj: int|
                0 <= jj < j ==> ascii_lower(block@.subrange(i as int, q as int)[jj])
                    == ws_key_header()[jj],
        decreases 17 - j,
    {
        if to_lower(block[i + j]) != key[j] {
            proof {
                assert(lower_bytes(block@.subrange(i as int, q as int))[j as int]
                    != ws_key_header()[j as int]);
            }
            return false;
        }
        j += 1;
    }
    proof {
        assert(lower_bytes(block@.subrange(i as int, q as int)) =~= ws_key_header());
    }
    true
}

/// Extracts the path from the request line.
fn parse_path(line: &Vec<u8>) -> (r: Option<Vec<u8>>)
    ensures
        match spec_path(line@) {
            None => r is None,
            Some(p) => r matches Some(rp) && rp@ == p,
        },
{
    let n = line.len();
    match find1(line, 32, 0, n) {
        None => None,
        Some(q1) => {
            let end = match find1(line, 32, q1 + 1, n) {
                None => n,
                Some(q2) => q2,
            };
            Some(copy_range(line, q1 + 1, end))
        },
    }
}

/// Scans the header lines for the WebSocket key.
fn scan_headers(block: &Vec<u8>, start: usize) -> (r: Option<Option<Vec<u8>>>)
    requires
        start <= block@.len(),
    ensures
        match scan_headers_from(block@, start as int, None) {
            None => r is None,
            Some(acc) => {
                &&& r matches Some(racc)
                &&& match acc {
                    None => racc is None,
                    Some(v) => racc matches Some(rv) && rv@ == v,
                }
            },
        },
{
    let n = block.len();
    let mut i = start;
    let mut acc: Option<Vec<u8>> = None;
    loop
        invariant
            i <= n,
            n == block@.len(),
            match scan_headers_from(block@, start as int, None) {
                None => scan_headers_from(block@, i as int, acc_view(&acc)) is None,
                Some(spec_acc) => {
                    &&& scan_headers_from(block@, i as int, acc_view(&acc)) matches Some(a2)
                    &&& a2 == spec_acc
                },
            },
        decreases n - i,
    {
        let end = match find2(block, 13, 10, i, n) {
            None => n,
            Some(p) => p,
        };
        match find2(block, 58, 32, i, end) {
            None => {
                return None;
            },
            Some(q) => {
                if header_name_is_ws_key(block, i, q) {
                    acc = Some(copy_range(block, q + 2, end));
                }
                if end == n {
                    return Some(acc);
                }
                i = end + 2;
            },
        }
    }
}

/// The ghost value a running scan has accumulated.
pub open spec fn acc_view(acc: &Option<Vec<u8>>) -> Option<Seq<u8>> {
    match acc {
        None => None,
        Some(v) => Some(v@),
    }
}

/// The bytes of a fully formed static HTTP response: status line, length,
/// type, server banner, blank line, body.
pub open spec fn spec_resp(code: Seq<char>, content: Seq<u8>, mime: Seq<char>, server: Seq<char>) -> Seq<u8> {
    "HTTP/1.1 ".spec_bytes() + vstd::utf8::encode_utf8(code) + "\r\n".spec_bytes()
        + "Content-Length: ".spec_bytes() + dec_u(content.len()) + "\r\n".spec_bytes()
        + "Content-Type: ".spec_bytes() + vstd::utf8::encode_utf8(mime) + "\r\n".spec_bytes()
        + "Server: ".spec_bytes() + vstd::utf8::encode_utf8(server) + "\r\n".spec_bytes()
        + "\r\n".spec_bytes() + content
}

/// Builds a static HTTP response around a preloaded body.
pub fn resp(code: &str, content: &Vec<u8>, mime: &str, server: &str) -> (r: Vec<u8>)
    ensures
        r@ == spec_resp(code@, content@, mime@, server@),
{
    let mut r: Vec<u8> = Vec::new();
    append_bytes(&mut r, "HTTP/1.1 ".as_bytes());
    append_bytes(&mut r, code.as_bytes());
    append_bytes(&mut r, "\r\n".as_bytes());
    append_bytes(&mut r, "Content-Length: ".as_bytes());
    let len_dec = u64_dec(content.len() as u64);
    append_bytes(&mut r, len_dec.as_slice());
    append_bytes(&mut r, "\r\n".as_bytes());
    append_bytes(&mut r, "Content-Type: ".as_bytes());
    append_bytes(&mut r, mime.as_bytes());
    append_bytes(&mut r, "\r\n".as_bytes());
    append_bytes(&mut r, "Server: ".as_bytes());
    append_bytes(&mut r, server.as_bytes());
    append_bytes(&mut r, "\r\n".as_bytes());
    append_bytes(&mut r, "\r\n".as_bytes());
    append_bytes(&mut r, content.as_slice());
    proof {
        assert(r@ =~= spec_resp(code@, content@, mime@, server@));
    }
    r
}

/// The SHA-1 digest of a byte sequence, as the sha1 crate computes it.
pub uninterp spec fn sha1_of(data: Seq<u8>) -> Seq<u8>;

/// The standard-alphabet, padded base64 encoding of a byte sequence, as the
/// base64 crate computes it.
pub uninterp spec fn base64_of(data: Seq<u8>) -> Seq<u8>;

/// Relies on sha1::Sha1 (through the Digest trait): the 20-byte SHA-1 digest
/// is a function of the input bytes alone.
#[verifier::external_body]
fn sha1_digest(data: &Vec<u8>) -> (r: Vec<u8>)
    ensures
        r@ == sha1_of(data@),
        r@.len() == 20,
{
    sha1::Sha1::digest(data.as_slice()).to_vec()
}

/// Relies on base64's STANDARD engine: the padded standard-alphabet encoding
/// is a function of the input bytes alone.
#[verifier::external_body]
fn base64_bytes(data: &Vec<u8>) -> (r: Vec<u8>)
    ensures
        r@ == base64_of(data@),
{
    base64::engine::general_purpose::STANDARD.encode(data.as_slice()).into_bytes()
}

/// Relies on core::str::from_utf8: it returns Ok exactly on valid UTF-8.
#[verifier::external_body]
fn utf8_check(b: &[u8]) -> (r: bool)
    ensures
        r == valid_utf8(b@),
{
    core::str::from_utf8(b).is_ok()
}

/// The GUID RFC 6455 appends to the client key before hashing.
pub open spec fn spec_guid() -> Seq<u8> {
    "258EAFA5-E914-47DA-95CA-C5AB0DC85B11".spec_bytes()
}

/// Everything of the 101 response up to the accept key.
pub open spec fn spec_handshake_prefix(server: Seq<char>) -> Seq<u8> {
    "HTTP/1.1 101 Switching Protocols\r\n".spec_bytes() + "Connection: Upgrade\r\n".spec_bytes()
        + "Upgrade: websocket\r\n".spec_bytes() + "Server: ".spec_bytes()
        + vstd::utf8::encode_utf8(server) + "\r\n".spec_bytes()
        + "Sec-WebSocket-Accept: ".spec_bytes()
}

/// The whole 101 Switching Protocols response: the prefix, then the base64
/// of the SHA-1 of the client key concatenated with the GUID, then a blank
/// line.
pub open spec fn spec_handshake(key: Seq<u8>, server: Seq<char>) -> Seq<u8> {
    spec_handshake_prefix(server) + base64_of(sha1_of(key + spec_guid())) + seq![13u8, 10, 13, 10]
}

/// Builds the WebSocket handshake response for a client-supplied key.
pub fn ws_handshake(key: &Vec<u8>, server: &str) -> (r: Vec<u8>)
    ensures
        r@ == spec_handshake(key@, server@),
{
    let mut keyed: Vec<u8> = Vec::new();
    append_bytes(&mut keyed, key.as_slice());
    append_bytes(&mut keyed, "258EAFA5-E914-47DA-95CA-C5AB0DC85B11".as_bytes());
    proof {
        assert(keyed@ =~= key@ + spec_guid());
    }
    let digest = sha1_digest(&keyed);
    let accept = base64_bytes(&digest);
    let mut r: Vec<u8> = Vec::new();
    append_bytes(&mut r, "HTTP/1.1 101 Switching Protocols\r\n".as_bytes());
    append_bytes(&mut r, "Connection: Upgrade\r\n".as_bytes());
    append_bytes(&mut r, "Upgrade: websocket\r\n".as_bytes());
    append_bytes(&mut r, "Server: ".as_bytes());
    append_bytes(&mut r, server.as_bytes());
    append_bytes(&mut r, "\r\n".as_bytes());
    append_bytes(&mut r, "Sec-WebSocket-Accept: ".as_bytes());
    append_bytes(&mut r, accept.as_slice());
    r.push(13);
    r.push(10);
    r.push(13);
    r.push(10);
    proof {
        assert(r@ =~= spec_handshake(key@, server@));
    }
    r
}

/// The preloaded responses: one fully formed response per configured file,
/// and the 404 response.
pub struct Resources {
    /// URL path to response bytes, in configuration order.
    pub map: Vec<(String, Vec<u8>)>,
    /// The 404 NOT FOUND response.
    pub not_found: Vec<u8>,
}

/// Builds the preloaded responses from the configuration and the file bodies
/// read at startup: `bodies[i]` is the content of `config.files[i]`'s file,
/// and `not_found_body` the content of the configured 404 file.
pub fn load_from_config(config: &Config, bodies: &Vec<Vec<u8>>, not_found_body: &Vec<u8>) -> (r:
    Resources)
    requires
        bodies@.len() == config.files@.len(),
    ensures
        r.map@.len() == config.files@.len(),
        forall|i: int|
            0 <= i < r.map@.len() ==> (#[trigger] r.map@[i]).0 == config.files@[i].0
                && r.map@[i].1@ == spec_resp(
                "200 OK"@,
                bodies@[i]@,
                config.files@[i].1.1@,
                config.server@,
            ),
        r.not_found@ == spec_resp("404 NOT FOUND"@, not_found_body@, "text/html"@, config.server@),
{
    let mut map: Vec<(String, Vec<u8>)> = Vec::new();
    let mut i: usize = 0;
    while i < config.files.len()
        invariant
            i <= config.files@.len(),
            bodies@.len() == config.files@.len(),
            map@.len() == i,
            forall|j: int|
                0 <= j < i ==> (#[trigger] map@[j]).0 == config.files@[j].0 && map@[j].1@
                    == spec_resp(
                    "200 OK"@,
                    bodies@[j]@,
                    config.files@[j].1.1@,
                    config.server@,
                ),
        decreases config.files@.len() - i,
    {
        let name = config.files[i].0.clone();
        let body = resp("200 OK", &bodies[i], config.files[i].1.1.as_str(), config.server.as_str());
        map.push((name, body));
        i += 1;
    }
    let not_found = resp("404 NOT FOUND", not_found_body, "text/html", config.server.as_str());
    Resources { map, not_found }
}

/// The preloaded response under the URL path with UTF-8 bytes `path`.
pub open spec fn find_resource(m: Seq<(String, Vec<u8>)>, path: Seq<u8>, i: int) -> Option<Seq<u8>>
    decreases m.len() - i,
{
    if i < 0 || i >= m.len() {
        None
    } else if vstd::utf8::encode_utf8(m[i].0@) == path {
        Some(m[i].1@)
    } else {
        find_resource(m, path, i + 1)
    }
}

/// The configured command under the URL path with UTF-8 bytes `path`.
pub open spec fn find_command(
    m: Seq<(String, (String, Vec<String>))>,
    path: Seq<u8>,
    i: int,
) -> Option<(String, Vec<String>)>
    decreases m.len() - i,
{
    if i < 0 || i >= m.len() {
        None
    } else if vstd::utf8::encode_utf8(m[i].0@) == path {
        Some(m[i].1)
    } else {
        find_command(m, path, i + 1)
    }
}

/// Looks the path up among the preloaded responses.
fn lookup_resource<'a>(m: &'a Vec<(String, Vec<u8>)>, path: &Vec<u8>) -> (r: Option<&'a Vec<u8>>)
    ensures
        match find_resource(m@, path@, 0) {
            None => r is None,
            Some(v) => r matches Some(rv) && rv@ == v,
        },
{
    let mut i: usize = 0;
    while i < m.len()
        invariant
            i <= m@.len(),
            find_resource(m@, path@, 0) == find_resource(m@, path@, i as int),
        decreases m@.len() - i,
    {
        if bytes_eq(m[i].0.as_str().as_bytes(), path.as_slice()) {
            return Some(&m[i].1);
        }
        i += 1;
    }
    None
}

/// Looks the path up among the configured commands, cloning the hit.
fn lookup_command(m: &Vec<(String, (String, Vec<String>))>, path: &Vec<u8>) -> (r: Option<
    (String, Vec<String>),
>)
    ensures
        match find_command(m@, path@, 0) {
            None => r is None,
            Some(c) => r matches Some(rc) && rc.0 == c.0 && rc.1@ == c.1@,
        },
{
    let mut i: usize = 0;
    while i < m.len()
        invariant
            i <= m@.len(),
            find_command(m@, path@, 0) == find_command(m@, path@, i as int),
        decreases m@.len() - i,
    {
        if bytes_eq(m[i].0.as_str().as_bytes(), path.as_slice()) {
            return Some((m[i].1.0.clone(), crate::wire::clone_strings(&m[i].1.1)));
        }
        i += 1;
    }
    None
}

/// A pending HTTP parse over one accepted client stream.
pub struct HttpSession {
    pub stream_fd: i32,
    pub stream_buffer: Vec<u8>,
}

impl HttpSession {
    /// A fresh session over an accepted stream.
    pub fn new(stream_fd: i32) -> (s: Self)
        ensures
            s.stream_fd == stream_fd,
            s.stream_buffer@ == Seq::<u8>::empty(),
    {
        HttpSession { stream_fd, stream_buffer: Vec::new() }
    }

    /// The single descriptor this session declares: the client stream.
    pub open spec fn spec_pollfds(self) -> Seq<(i32, Interest)> {
        seq![(self.stream_fd, Interest::Read)]
    }

    /// Enumerates the descriptors to poll.
    pub fn pollfds(&self) -> (r: Vec<(i32, Interest)>)
        ensures
            r@ == self.spec_pollfds(),
            r@.len() >= 1,
    {
        let mut fds: Vec<(i32, Interest)> = Vec::new();
        fds.push((self.stream_fd, Interest::Read));
        proof {
            assert(fds@ =~= self.spec_pollfds());
        }
        fds
    }

    /// Checks whether a whole header block (ending in `\r\n\r\n`) has been
    /// buffered. If so, consumes it (trailing bytes stay buffered) and parses
    /// the path and the optional WebSocket key; a malformed block yields
    /// `None` with the block already consumed.
    pub fn check_http_header_received(&mut self) -> (r: Option<(Vec<u8>, Option<Vec<u8>>)>)
        ensures
            final(self).stream_fd == old(self).stream_fd,
            match find_crlfcrlf(old(self).stream_buffer@, 0) {
                None => r is None && final(self).stream_buffer == old(self).stream_buffer,
                Some(p) => {
                    &&& final(self).stream_buffer@ == old(self).stream_buffer@.skip(p + 4)
                    &&& match parse_request(old(self).stream_buffer@.subrange(0, p)) {
                        None => r is None,
                        Some((path, key)) => {
                            &&& r matches Some(pk)
                            &&& pk.0@ == path
                            &&& match key {
                                None => pk.1 is None,
                                Some(k) => pk.1 matches Some(kv) && kv@ == k,
                            }
                        },
                    }
                },
            },
    {
        let p = match find_terminator(&self.stream_buffer) {
            None => {
                return None;
            },
            Some(p) => p,
        };
        let n = self.stream_buffer.len();
        let block = copy_range(&self.stream_buffer, 0, p);
        let rest = copy_range(&self.stream_buffer, p + 4, n);
        self.stream_buffer = rest;
        if !utf8_check(block.as_slice()) {
            return None;
        }
        let first_end = match find2(&block, 13, 10, 0, p) {
            None => p,
            Some(q) => q,
        };
        let line = copy_range(&block, 0, first_end);
        let path = match parse_path(&line) {
            None => {
                return None;
            },
            Some(path) => path,
        };
        if first_end == p {
            return Some((path, None));
        }
        let key = match scan_headers(&block, first_end + 2) {
            None => {
                return None;
            },
            Some(k) => k,
        };
        Some((path, key))
    }

    /// Handles readiness on the client stream: buffers the bytes just read,
    /// and once the header block is complete decides the response. A path in
    /// the preloaded map is served and the session removed; otherwise a
    /// request with a WebSocket key whose path names a configured command is
    /// answered with the 101 handshake and the session replaced by a
    /// WebSocket session over the same stream; anything else is answered
    /// with the 404 response and removed. The returned bytes are written to the stream before the
    /// event is applied.
    pub fn incoming(&mut self, data: &[u8], resources: &Resources, config: &Config) -> (r: (
        Vec<u8>,
        ProtocolEvent,
    ))
        ensures
            final(self).stream_fd == old(self).stream_fd,
            ({
                let newbuf = old(self).stream_buffer@ + data@;
                match find_crlfcrlf(newbuf, 0) {
                    None => final(self).stream_buffer@ == newbuf && r.0@ == Seq::<u8>::empty()
                        && r.1 is Continue,
                    Some(p) => {
                        &&& final(self).stream_buffer@ == newbuf.skip(p + 4)
                        &&& match parse_request(newbuf.subrange(0, p)) {
                            None => r.0@ == Seq::<u8>::empty() && r.1 is Continue,
                            Some((path, key)) => match find_resource(resources.map@, path, 0) {
                                Some(bytes) => r.0@ == bytes && r.1 is Remove,
                                None => match key {
                                    Some(k) => match find_command(config.commands@, path, 0) {
                                        Some(cmd) => {
                                            &&& r.0@ == spec_handshake(k, config.server@)
                                            &&& r.1 matches ProtocolEvent::ReplaceWith(s)
                                            &&& *s matches Session::Ws(w)
                                            &&& w.stream_fd == old(self).stream_fd
                                            &&& w.cmd == cmd.0
                                            &&& w.args@ == cmd.1@
                                            &&& w.stream_buffer@ == Seq::<u8>::empty()
                                            &&& w.prev_ws_fragments@ == Seq::<u8>::empty()
                                            &&& w.fragment_opcode == 0
                                            &&& w.process is None
                                            &&& w.dead == false
                                        },
                                        None => r.0@ == resources.not_found@ && r.1 is Remove,
                                    },
                                    None => r.0@ == resources.not_found@ && r.1 is Remove,
                                },
                            },
                        }
                    },
                }
            }),
    {
        append_bytes(&mut self.stream_buffer, data);
        let (path, ws_key) = match self.check_http_header_received() {
            None => {
                return (Vec::new(), ProtocolEvent::Continue);
            },
            Some(pk) => pk,
        };
        if let Some(bytes) = lookup_resource(&resources.map, &path) {
            let body = copy_range(bytes, 0, bytes.len());
            return (body, ProtocolEvent::Remove);
        }
        if let Some(key) = ws_key {
            if let Some(cmd) = lookup_command(&config.commands, &path) {
                let handshake = ws_handshake(&key, config.server.as_str());
                let ws = WsSession::new(self.stream_fd, &cmd);
                return (handshake, ProtocolEvent::ReplaceWith(Box::new(Session::Ws(ws))));
            }
        }
        let body = copy_range(&resources.not_found, 0, resources.not_found.len());
        (body, ProtocolEvent::Remove)
    }
}

} // verus!
