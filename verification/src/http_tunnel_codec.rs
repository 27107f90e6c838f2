//! The CONNECT-request wire codec: turns untrusted buffered bytes into a
//! validated target descriptor or a rejection code, and maps handshake
//! outcomes back to wire response lines.
//!
//! Decoding is non-blocking on partial input: it reports "not yet" until a
//! blank-line terminator is observed or the buffer exceeds the maximum header
//! size, which bounds memory against unbounded-header attacks.

use crate::matcher::regex_matches;
use crate::matcher::TargetMatcher;
use crate::proxy_target::Nugget;
use crate::tunnel::EstablishTunnelResult;
use crate::tunnel::TunnelCtx;
use vstd::prelude::*;
use vstd::string::StrSliceExecFns;
use vstd::string::StringExecFns;

verus! {

/// A header block longer than this (with no terminator) is rejected outright.
pub const MAX_HTTP_REQUEST_SIZE: usize = 16384;

// ---------------------------------------------------------------------------
// Byte-level model of the header stream.
// ---------------------------------------------------------------------------
/// Bytes tolerated in a request header: printable ASCII plus tab, newline
/// and carriage-return.
pub open spec fn is_legal_byte(b: u8) -> bool {
    b == 9 || b == 10 || b == 13 || (32 <= b && b <= 126)
}

pub open spec fn all_bytes_legal(s: Seq<u8>) -> bool {
    forall|i: int| 0 <= i < s.len() ==> is_legal_byte(#[trigger] s[i])
}

/// The blank-line terminator `\r\n\r\n` starts at index `i`.
pub open spec fn is_terminator_at(s: Seq<u8>, i: int) -> bool {
    &&& 0 <= i
    &&& i + 4 <= s.len()
    &&& s[i] == 13
    &&& s[i + 1] == 10
    &&& s[i + 2] == 13
    &&& s[i + 3] == 10
}

pub open spec fn has_terminator(s: Seq<u8>) -> bool {
    exists|i: int| is_terminator_at(s, i)
}

/// The index of the first CRLF at or after `i`, or `s.len()` when there is
/// none.
pub open spec fn first_crlf_from(s: Seq<u8>, i: int) -> int
    decreases s.len() - i,
{
    if i < 0 || i + 2 > s.len() {
        s.len() as int
    } else if s[i] == 13 && s[i + 1] == 10 {
        i
    } else {
        first_crlf_from(s, i + 1)
    }
}

/// The index of the first occurrence of `b` at or after `i`, or `s.len()`.
pub open spec fn first_byte_from(s: Seq<u8>, b: u8, i: int) -> int
    decreases s.len() - i,
{
    if i < 0 || i >= s.len() {
        s.len() as int
    } else if s[i] == b {
        i
    } else {
        first_byte_from(s, b, i + 1)
    }
}

pub proof fn lemma_first_crlf_from(s: Seq<u8>, i: int)
    requires
        0 <= i <= s.len(),
    ensures
        i <= first_crlf_from(s, i),
        first_crlf_from(s, i) <= s.len(),
        first_crlf_from(s, i) + 2 <= s.len() ==> {
            &&& s[first_crlf_from(s, i)] == 13
            &&& s[first_crlf_from(s, i) + 1] == 10
        },
        first_crlf_from(s, i) < s.len() ==> first_crlf_from(s, i) + 2 <= s.len(),
    decreases s.len() - i,
{
    if i + 2 <= s.len() && !(s[i] == 13 && s[i + 1] == 10) {
        lemma_first_crlf_from(s, i + 1);
    }
}

pub proof fn lemma_first_byte_from(s: Seq<u8>, b: u8, i: int)
    requires
        0 <= i <= s.len(),
    ensures
        i <= first_byte_from(s, b, i),
        first_byte_from(s, b, i) <= s.len(),
        first_byte_from(s, b, i) < s.len() ==> s[first_byte_from(s, b, i)] == b,
        forall|j: int| i <= j < first_byte_from(s, b, i) ==> s[j] != b,
    decreases s.len() - i,
{
    if i < s.len() && s[i] != b {
        lemma_first_byte_from(s, b, i + 1);
    }
}

// ---------------------------------------------------------------------------
// The request line and its three space-separated tokens.
// ---------------------------------------------------------------------------
/// First-line boundary of the header stream.
pub open spec fn request_line_of(s: Seq<u8>) -> Seq<u8> {
    s.subrange(0, first_crlf_from(s, 0))
}

pub open spec fn sp1(l: Seq<u8>) -> int {
    first_byte_from(l, 32, 0)
}

pub open spec fn sp2(l: Seq<u8>) -> int {
    first_byte_from(l, 32, sp1(l) + 1)
}

pub open spec fn sp3(l: Seq<u8>) -> int {
    first_byte_from(l, 32, sp2(l) + 1)
}

/// The request line tokenizes into exactly three space-separated fields:
/// two spaces are present and no third one.
pub open spec fn line_well_formed(l: Seq<u8>) -> bool {
    sp1(l) < l.len() && sp2(l) < l.len() && sp3(l) == l.len()
}

pub open spec fn method_of(l: Seq<u8>) -> Seq<u8> {
    l.subrange(0, sp1(l))
}

pub open spec fn uri_of(l: Seq<u8>) -> Seq<u8> {
    l.subrange(sp1(l) + 1, sp2(l))
}

pub open spec fn version_of(l: Seq<u8>) -> Seq<u8> {
    l.subrange(sp2(l) + 1, l.len() as int)
}

/// The bytes of `CONNECT`.
pub open spec fn connect_bytes() -> Seq<u8> {
    seq![67u8, 79u8, 78u8, 78u8, 69u8, 67u8, 84u8]
}

/// The bytes of `HTTP/1.1`.
pub open spec fn http11_bytes() -> Seq<u8> {
    seq![72u8, 84u8, 84u8, 80u8, 47u8, 49u8, 46u8, 49u8]
}

pub open spec fn spec_check_version(v: Seq<u8>) -> Result<(), EstablishTunnelResult> {
    if v == http11_bytes() {
        Ok(())
    } else {
        Err(EstablishTunnelResult::BadRequest)
    }
}

/// In strict mode only `CONNECT` is accepted; any other method is forbidden.
/// In permissive (pass-through) mode a non-CONNECT method is accepted and
/// marks the request as carrying a payload to forward verbatim.
pub open spec fn spec_check_method(m: Seq<u8>, strict: bool) -> Result<bool, EstablishTunnelResult> {
    if m == connect_bytes() {
        Ok(false)
    } else if strict {
        Err(EstablishTunnelResult::Forbidden)
    } else {
        Ok(true)
    }
}

/// Outcome of parsing the request line: the URI field and whether the
/// request carries a pass-through payload. The version is checked before
/// the method, so a request that is wrong in both ways is a `BadRequest`.
pub open spec fn spec_parse_request_line(l: Seq<u8>, strict: bool) -> Result<
    (Seq<u8>, bool),
    EstablishTunnelResult,
> {
    if !line_well_formed(l) {
        Err(EstablishTunnelResult::BadRequest)
    } else if spec_check_version(version_of(l)) is Err {
        Err(EstablishTunnelResult::BadRequest)
    } else {
        match spec_check_method(method_of(l), strict) {
            Ok(n) => Ok((uri_of(l), n)),
            Err(e) => Err(e),
        }
    }
}

// ---------------------------------------------------------------------------
// Executable byte helpers.
// ---------------------------------------------------------------------------
/// Whether a full header block has been buffered: the stream already exceeds
/// the size bound, or the blank-line terminator has been observed.
pub fn got_http_request(buffer: &Vec<u8>) -> (r: bool)
    ensures
        r == (buffer@.len() >= MAX_HTTP_REQUEST_SIZE || has_terminator(buffer@)),
{
    if buffer.len() >= MAX_HTTP_REQUEST_SIZE {
        return true;
    }
    let n = buffer.len();
    if n < 4 {
        assert(forall|j: int| !is_terminator_at(buffer@, j));
        return false;
    }
    let mut i: usize = 0;
    while i + 4 <= n
        invariant
            i <= n,
            n == buffer@.len(),
            n < MAX_HTTP_REQUEST_SIZE,
            forall|j: int| 0 <= j < i ==> !is_terminator_at(buffer@, j),
        decreases n - i,
    {
        if buffer[i] == 13 && buffer[i + 1] == 10 && buffer[i + 2] == 13 && buffer[i + 3] == 10 {
            assert(is_terminator_at(buffer@, i as int));
            return true;
        }
        i = i + 1;
    }
    assert(forall|j: int| 0 <= j < buffer@.len() ==> !is_terminator_at(buffer@, j));
    false
}

/// First CRLF position at or after `start`, or the buffer length.
fn find_crlf(buf: &Vec<u8>, start: usize) -> (r: usize)
    requires
        start <= buf@.len(),
    ensures
        r == first_crlf_from(buf@, start as int),
{
    let n = buf.len();
    let mut i = start;
    while i < n && i + 1 < n
        invariant
            start <= i,
            i <= n,
            n == buf@.len(),
            first_crlf_from(buf@, start as int) == first_crlf_from(buf@, i as int),
        decreases n - i,
    {
        if buf[i] == 13 && buf[i + 1] == 10 {
            return i;
        }
        i = i + 1;
    }
    assert(first_crlf_from(buf@, i as int) == n);
    n
}

/// First occurrence of `b` at or after `start`, or the buffer length.
fn find_byte(buf: &Vec<u8>, b: u8, start: usize) -> (r: usize)
    requires
        start <= buf@.len(),
    ensures
        r == first_byte_from(buf@, b, start as int),
{
    let n = buf.len();
    let mut i = start;
    while i < n
        invariant
            start <= i,
            i <= n,
            n == buf@.len(),
            first_byte_from(buf@, b, start as int) == first_byte_from(buf@, b, i as int),
        decreases n - i,
    {
        if buf[i] == b {
            return i;
        }
        i = i + 1;
    }
    i
}

/// A fresh copy of `buf[start..end]`.
fn copy_range(buf: &Vec<u8>, start: usize, end: usize) -> (r: Vec<u8>)
    requires
        start <= end,
        end <= buf@.len(),
    ensures
        r@ == buf@.subrange(start as int, end as int),
{
    let mut r: Vec<u8> = Vec::new();
    let mut i = start;
    while i < end
        invariant
            start <= i,
            i <= end,
            end <= buf@.len(),
            r@ == buf@.subrange(start as int, i as int),
        decreases end - i,
    {
        r.push(buf[i]);
        i = i + 1;
        proof {
            assert(r@ =~= buf@.subrange(start as int, i as int));
        }
    }
    r
}

/// Element-wise equality of two byte vectors.
fn vec_eq(a: &Vec<u8>, b: &Vec<u8>) -> (r: bool)
    ensures
        r == (a@ == b@),
{
    if a.len() != b.len() {
        return false;
    }
    let n = a.len();
    let mut i: usize = 0;
    while i < n
        invariant
            i <= n,
            n == a@.len(),
            n == b@.len(),
            forall|j: int| 0 <= j < i ==> a@[j] == b@[j],
        decreases n - i,
    {
        if a[i] != b[i] {
            return false;
        }
        i = i + 1;
    }
    proof {
        assert(a@ =~= b@);
    }
    true
}

// ---------------------------------------------------------------------------
// The parsed CONNECT request.
// ---------------------------------------------------------------------------
/// Result of a successful header parse: the target address text and, for a
/// pass-through request, the buffered bytes to replay to the upstream.
pub struct HttpConnectRequest {
    pub uri: String,
    pub nugget: Option<Nugget>,
}

impl HttpConnectRequest {
    /// The header stream fits under the size bound.
    pub fn precondition_size(http_request: &Vec<u8>) -> (r: Result<(), EstablishTunnelResult>)
        ensures
            http_request@.len() < MAX_HTTP_REQUEST_SIZE <==> r is Ok,
            r is Err ==> r == Err::<(), _>(EstablishTunnelResult::BadRequest),
    {
        if http_request.len() >= MAX_HTTP_REQUEST_SIZE {
            Err(EstablishTunnelResult::BadRequest)
        } else {
            Ok(())
        }
    }

    /// Every byte is printable ASCII or one of tab/newline/carriage-return.
    pub fn precondition_legal_character(http_request: &Vec<u8>) -> (r: Result<
        (),
        EstablishTunnelResult,
    >)
        ensures
            all_bytes_legal(http_request@) <==> r is Ok,
            r is Err ==> r == Err::<(), _>(EstablishTunnelResult::BadRequest),
    {
        let n = http_request.len();
        let mut i: usize = 0;
        while i < n
            invariant
                i <= n,
                n == http_request@.len(),
                forall|j: int| 0 <= j < i ==> is_legal_byte(#[trigger] http_request@[j]),
            decreases n - i,
        {
            let b = http_request[i];
            if !(b == 9 || b == 10 || b == 13 || (32 <= b && b <= 126)) {
                return Err(EstablishTunnelResult::BadRequest);
            }
            i = i + 1;
        }
        Ok(())
    }

    /// The request line holds exactly three space-separated fields; on
    /// success the positions of the two separating spaces are returned.
    pub fn precondition_well_formed(line: &Vec<u8>) -> (r: Result<
        (usize, usize),
        EstablishTunnelResult,
    >)
        ensures
            line_well_formed(line@) <==> r is Ok,
            r matches Ok((a, b)) ==> a == sp1(line@) && b == sp2(line@),
            r is Err ==> r == Err::<(usize, usize), _>(EstablishTunnelResult::BadRequest),
    {
        proof {
            lemma_first_byte_from(line@, 32, 0);
        }
        let f1 = find_byte(line, 32, 0);
        if f1 == line.len() {
            return Err(EstablishTunnelResult::BadRequest);
        }
        proof {
            lemma_first_byte_from(line@, 32, f1 as int + 1);
        }
        let f2 = find_byte(line, 32, f1 + 1);
        if f2 == line.len() {
            return Err(EstablishTunnelResult::BadRequest);
        }
        proof {
            lemma_first_byte_from(line@, 32, f2 as int + 1);
        }
        let f3 = find_byte(line, 32, f2 + 1);
        if f3 != line.len() {
            return Err(EstablishTunnelResult::BadRequest);
        }
        Ok((f1, f2))
    }

    /// The version field must be literally `HTTP/1.1`.
    pub fn check_version(version: &Vec<u8>) -> (r: Result<(), EstablishTunnelResult>)
        ensures
            r == spec_check_version(version@),
    {
        let expected: Vec<u8> = vec![72u8, 84u8, 84u8, 80u8, 47u8, 49u8, 46u8, 49u8];
        proof {
            assert(expected@ =~= http11_bytes());
        }
        if vec_eq(version, &expected) {
            Ok(())
        } else {
            Err(EstablishTunnelResult::BadRequest)
        }
    }

    /// Method check: `CONNECT` tunnels; in permissive mode any other method
    /// is accepted as a pass-through request (the returned flag), in strict
    /// mode it is forbidden.
    pub fn check_method(method: &Vec<u8>, strict: bool) -> (r: Result<
        bool,
        EstablishTunnelResult,
    >)
        ensures
            r == spec_check_method(method@, strict),
    {
        let expected: Vec<u8> = vec![67u8, 79u8, 78u8, 78u8, 69u8, 67u8, 84u8];
        proof {
            assert(expected@ =~= connect_bytes());
        }
        if vec_eq(method, &expected) {
            Ok(false)
        } else if strict {
            Err(EstablishTunnelResult::Forbidden)
        } else {
            Ok(true)
        }
    }

    /// Tokenize and validate the request line, yielding the URI field and
    /// the pass-through flag.
    pub fn parse_request_line(line: &Vec<u8>, strict: bool) -> (r: Result<
        (Vec<u8>, bool),
        EstablishTunnelResult,
    >)
        ensures
            ({
                let p = spec_parse_request_line(line@, strict);
                match r {
                    Ok((u, n)) => p matches Ok(pu) && pu.0 == u@ && pu.1 == n,
                    Err(e) => p matches Err(pe) && pe == e,
                }
            }),
    {
        let (f1, f2) = match Self::precondition_well_formed(line) {
            Ok(t) => t,
            Err(e) => {
                return Err(e);
            },
        };
        proof {
            lemma_first_byte_from(line@, 32, 0);
            lemma_first_byte_from(line@, 32, sp1(line@) + 1);
        }
        let n = line.len();
        assert(f1 < n && f2 < n && f1 < f2);
        let version = copy_range(line, f2 + 1, n);
        match Self::check_version(&version) {
            Err(e) => {
                return Err(e);
            },
            Ok(u) => u,
        };
        let method = copy_range(line, 0, f1);
        let has_nugget = match Self::check_method(&method, strict) {
            Ok(b) => b,
            Err(e) => {
                return Err(e);
            },
        };
        let uri = copy_range(line, f1 + 1, f2);
        Ok((uri, has_nugget))
    }
}


// ---------------------------------------------------------------------------
// Host header extraction and the pass-through target address.
// ---------------------------------------------------------------------------
/// ASCII lower-casing of a single byte.
pub open spec fn lower_byte(b: u8) -> u8 {
    if 65 <= b && b <= 90 {
        (b + 32) as u8
    } else {
        b
    }
}

/// Whitespace trimmed from header values.
pub open spec fn is_ws(b: u8) -> bool {
    b == 9 || b == 10 || b == 13 || b == 32
}

/// `v` with leading and trailing whitespace removed.
pub open spec fn trim_of(v: Seq<u8>) -> Seq<u8>
    decreases v.len(),
{
    if v.len() == 0 {
        v
    } else if is_ws(v[0]) {
        trim_of(v.subrange(1, v.len() as int))
    } else if is_ws(v[v.len() - 1]) {
        trim_of(v.subrange(0, v.len() - 1))
    } else {
        v
    }
}

proof fn lemma_trim_of(v: Seq<u8>, a: int, b: int)
    requires
        0 <= a <= b <= v.len(),
        forall|j: int| 0 <= j < a ==> is_ws(#[trigger] v[j]),
        forall|j: int| b <= j < v.len() ==> is_ws(#[trigger] v[j]),
        a < b ==> !is_ws(v[a]) && !is_ws(v[b - 1]),
        a == b ==> a == v.len(),
    ensures
        trim_of(v) == v.subrange(a, b),
    decreases v.len(),
{
    if v.len() == 0 {
        assert(trim_of(v) =~= v.subrange(a, b));
    } else if is_ws(v[0]) {
        assert(a >= 1);
        let v2 = v.subrange(1, v.len() as int);
        lemma_trim_of(v2, a - 1, b - 1);
        assert(v2.subrange(a - 1, b - 1) =~= v.subrange(a, b));
    } else if is_ws(v[v.len() - 1]) {
        assert(b <= v.len() - 1);
        let v2 = v.subrange(0, v.len() - 1);
        lemma_trim_of(v2, a, b);
        assert(v2.subrange(a, b) =~= v.subrange(a, b));
    } else {
        assert(a == 0 && b == v.len());
        assert(trim_of(v) =~= v.subrange(a, b));
    }
}

/// The header line starting at `i` and ending at `e` begins,
/// case-insensitively, with `host:`.
pub open spec fn starts_with_host(s: Seq<u8>, i: int, e: int) -> bool {
    &&& e - i >= 5
    &&& lower_byte(s[i]) == 104
    &&& lower_byte(s[i + 1]) == 111
    &&& lower_byte(s[i + 2]) == 115
    &&& lower_byte(s[i + 3]) == 116
    &&& s[i + 4] == 58
}

/// Start index of the first header line at or after `i` that begins with a
/// `Host:` header name, walking the CRLF-separated lines.
pub open spec fn find_host_line(s: Seq<u8>, i: int) -> Option<int>
    decreases s.len() - i
        via find_host_line_decreases
{
    if i < 0 || i > s.len() {
        None
    } else {
        let e = first_crlf_from(s, i);
        if starts_with_host(s, i, e) {
            Some(i)
        } else if e + 2 > s.len() {
            None
        } else {
            find_host_line(s, e + 2)
        }
    }
}

#[via_fn]
proof fn find_host_line_decreases(s: Seq<u8>, i: int) {
    if 0 <= i && i <= s.len() {
        lemma_first_crlf_from(s, i);
    }
}

/// The trimmed value of the `Host:` header among the lines after the request
/// line, if one is present.
pub open spec fn spec_host_value(s: Seq<u8>) -> Option<Seq<u8>> {
    let le = first_crlf_from(s, 0);
    if le + 2 > s.len() {
        None
    } else {
        match find_host_line(s, le + 2) {
            Some(h) => Some(trim_of(s.subrange(h + 5, first_crlf_from(s, h)))),
            None => None,
        }
    }
}

pub open spec fn has_colon(v: Seq<u8>) -> bool {
    exists|i: int| 0 <= i < v.len() && v[i] == 58
}

/// The URI field begins, case-insensitively, with the scheme `https://`.
pub open spec fn starts_with_https(u: Seq<u8>) -> bool {
    &&& u.len() >= 8
    &&& lower_byte(u[0]) == 104
    &&& lower_byte(u[1]) == 116
    &&& lower_byte(u[2]) == 116
    &&& lower_byte(u[3]) == 112
    &&& lower_byte(u[4]) == 115
    &&& u[5] == 58
    &&& u[6] == 47
    &&& u[7] == 47
}

/// Default port appended to a host with no explicit port: 443 for an
/// `https://` URI, else 80.
pub open spec fn default_port_suffix(uri: Seq<u8>) -> Seq<u8> {
    if starts_with_https(uri) {
        seq![58u8, 52u8, 52u8, 51u8]
    } else {
        seq![58u8, 56u8, 48u8]
    }
}

/// Target address of a pass-through request: the `Host:` header value when
/// present, else the URI field; with the default port appended when the
/// resulting host string has no colon.
pub open spec fn spec_passthrough_target(s: Seq<u8>, uri: Seq<u8>) -> Seq<u8> {
    let base = match spec_host_value(s) {
        Some(v) => v,
        None => uri,
    };
    if has_colon(base) {
        base
    } else {
        base + default_port_suffix(uri)
    }
}

/// The full parse model: size bound, byte legality, request line, and (for
/// pass-through requests) target resolution. On success yields the target
/// address bytes and whether the whole buffered request is to be replayed to
/// the upstream as a payload.
pub open spec fn spec_parse(s: Seq<u8>, strict: bool) -> Result<
    (Seq<u8>, bool),
    EstablishTunnelResult,
> {
    if s.len() >= MAX_HTTP_REQUEST_SIZE {
        Err(EstablishTunnelResult::BadRequest)
    } else if !all_bytes_legal(s) {
        Err(EstablishTunnelResult::BadRequest)
    } else {
        match spec_parse_request_line(request_line_of(s), strict) {
            Err(e) => Err(e),
            Ok((u, n)) => if n {
                Ok((spec_passthrough_target(s, u), true))
            } else {
                Ok((u, false))
            },
        }
    }
}

/// The characters of an ASCII byte sequence.
pub open spec fn chars_of_bytes(s: Seq<u8>) -> Seq<char> {
    Seq::new(s.len(), |i: int| s[i] as char)
}

/// Relies on String::from_utf8: bytes below 0x80 are single-byte UTF-8 code
/// points, decoded to the identical character sequence.
#[verifier::external_body]
fn ascii_to_string(bytes: Vec<u8>) -> (r: String)
    ensures
        (forall|i: int| 0 <= i < bytes@.len() ==> bytes@[i] < 128) ==> r@ == chars_of_bytes(
            bytes@,
        ),
{
    match String::from_utf8(bytes) {
        Ok(s) => s,
        Err(_) => String::new(),
    }
}

fn byte_lower(b: u8) -> (r: u8)
    ensures
        r == lower_byte(b),
{
    if 65 <= b && b <= 90 {
        b + 32
    } else {
        b
    }
}

/// Leading and trailing whitespace removed.
fn trim_ws(v: &Vec<u8>) -> (r: Vec<u8>)
    ensures
        r@ == trim_of(v@),
        forall|i: int|
            0 <= i < r@.len() ==> exists|j: int| 0 <= j < v@.len() && #[trigger] r@[i] == v@[j],
{
    let n = v.len();
    let mut a: usize = 0;
    while a < n && (v[a] == 9 || v[a] == 10 || v[a] == 13 || v[a] == 32)
        invariant
            a <= n,
            n == v@.len(),
            forall|j: int| 0 <= j < a ==> is_ws(#[trigger] v@[j]),
        decreases n - a,
    {
        a = a + 1;
    }
    let mut b: usize = n;
    while b > a && (v[b - 1] == 9 || v[b - 1] == 10 || v[b - 1] == 13 || v[b - 1] == 32)
        invariant
            a <= b,
            b <= n,
            n == v@.len(),
            a < n ==> !is_ws(v@[a as int]),
            forall|j: int| 0 <= j < a ==> is_ws(#[trigger] v@[j]),
            forall|j: int| b <= j < n ==> is_ws(#[trigger] v@[j]),
        decreases b,
    {
        b = b - 1;
    }
    proof {
        lemma_trim_of(v@, a as int, b as int);
    }
    let r = copy_range(v, a, b);
    proof {
        assert forall|i: int| 0 <= i < r@.len() implies exists|j: int|
            0 <= j < v@.len() && #[trigger] r@[i] == v@[j] by {
            assert(r@[i] == v@[a + i]);
        }
    }
    r
}

/// The trimmed `Host:` header value among the lines after the request line.
fn find_host_value(buf: &Vec<u8>) -> (r: Option<Vec<u8>>)
    requires
        buf@.len() <= MAX_HTTP_REQUEST_SIZE,
    ensures
        match r {
            Some(v) => spec_host_value(buf@) matches Some(sv) && sv == v@,
            None => spec_host_value(buf@) is None,
        },
        r matches Some(v) ==> forall|i: int|
            0 <= i < v@.len() ==> exists|j: int| 0 <= j < buf@.len() && #[trigger] v@[i] == buf@[j],
{
    let le = find_crlf(buf, 0);
    proof {
        lemma_first_crlf_from(buf@, 0);
    }
    if le + 2 > buf.len() {
        return None;
    }
    let n = buf.len();
    let mut i = le + 2;
    loop
        invariant
            i <= n,
            n == buf@.len(),
            n <= MAX_HTTP_REQUEST_SIZE,
            find_host_line(buf@, le as int + 2) == find_host_line(buf@, i as int),
            le + 2 <= n,
            le as int == first_crlf_from(buf@, 0),
        decreases n - i,
    {
        let e = find_crlf(buf, i);
        proof {
            lemma_first_crlf_from(buf@, i as int);
        }
        if e - i >= 5 && byte_lower(buf[i]) == 104 && byte_lower(buf[i + 1]) == 111 && byte_lower(
            buf[i + 2],
        ) == 115 && byte_lower(buf[i + 3]) == 116 && buf[i + 4] == 58 {
            assert(starts_with_host(buf@, i as int, e as int));
            assert(find_host_line(buf@, i as int) == Some(i as int));
            let raw = copy_range(buf, i + 5, e);
            let trimmed = trim_ws(&raw);
            proof {
                assert(raw@ == buf@.subrange(i + 5, e as int));
                assert forall|k: int| 0 <= k < trimmed@.len() implies exists|j: int|
                    0 <= j < buf@.len() && #[trigger] trimmed@[k] == buf@[j] by {
                    let j0 = choose|j0: int|
                        0 <= j0 < raw@.len() && #[trigger] trimmed@[k] == raw@[j0];
                    assert(raw@[j0] == buf@[i + 5 + j0]);
                }
            }
            return Some(trimmed);
        }
        assert(!starts_with_host(buf@, i as int, e as int));
        if e + 2 > n {
            assert(find_host_line(buf@, i as int) is None);
            return None;
        }
        i = e + 2;
    }
}

/// Whether the address has an explicit port separator.
fn vec_has_colon(v: &Vec<u8>) -> (r: bool)
    ensures
        r == has_colon(v@),
{
    proof {
        lemma_first_byte_from(v@, 58, 0);
    }
    let p = find_byte(v, 58, 0);
    if p < v.len() {
        true
    } else {
        false
    }
}

/// Whether the URI begins, case-insensitively, with `https://`.
fn uri_is_https(uri: &Vec<u8>) -> (r: bool)
    ensures
        r == starts_with_https(uri@),
{
    uri.len() >= 8 && byte_lower(uri[0]) == 104 && byte_lower(uri[1]) == 116 && byte_lower(uri[2])
        == 116 && byte_lower(uri[3]) == 112 && byte_lower(uri[4]) == 115 && uri[5] == 58 && uri[6]
        == 47 && uri[7] == 47
}



impl HttpConnectRequest {
    /// Resolve the target address of a pass-through request from the full
    /// header stream and the request-line URI: the `Host:` header value when
    /// present, else the URI, with the default port appended when the result
    /// carries no explicit port.
    fn extract_host_destination(http_request: &Vec<u8>, uri: &Vec<u8>) -> (r: Vec<u8>)
        requires
            http_request@.len() <= MAX_HTTP_REQUEST_SIZE,
        ensures
            r@ == spec_passthrough_target(http_request@, uri@),
            (forall|i: int| 0 <= i < http_request@.len() ==> #[trigger] http_request@[i] < 128)
                && (forall|i: int| 0 <= i < uri@.len() ==> #[trigger] uri@[i] < 128) ==> forall|
                i: int,
            |
                0 <= i < r@.len() ==> #[trigger] r@[i] < 128,
    {
        let ghost s = http_request@;
        let base: Vec<u8> = match find_host_value(http_request) {
            Some(v) => v,
            None => copy_range(uri, 0, uri.len()),
        };
        proof {
            assert(uri@.subrange(0, uri@.len() as int) =~= uri@);
        }
        if vec_has_colon(&base) {
            base
        } else {
            let mut r = base;
            if uri_is_https(uri) {
                r.push(58);
                r.push(52);
                r.push(52);
                r.push(51);
            } else {
                r.push(58);
                r.push(56);
                r.push(48);
            }
            proof {
                assert(r@ =~= spec_passthrough_target(s, uri@));
            }
            r
        }
    }

    /// Parse a buffered header stream into a validated request, or the
    /// rejection code the stream deserves. In strict mode only CONNECT is
    /// accepted; in permissive mode any other method yields a pass-through
    /// request whose payload is the entire buffered stream.
    pub fn parse(http_request: &Vec<u8>, strict: bool) -> (r: Result<
        HttpConnectRequest,
        EstablishTunnelResult,
    >)
        ensures
            ({
                let p = spec_parse(http_request@, strict);
                match r {
                    Ok(req) => {
                        &&& p matches Ok(pt)
                        &&& req.uri@ == chars_of_bytes(pt.0)
                        &&& (pt.1 ==> (req.nugget matches Some(n) && n@ == http_request@))
                        &&& (!pt.1 ==> req.nugget is None)
                    },
                    Err(e) => p == Err::<(Seq<u8>, bool), EstablishTunnelResult>(e),
                }
            }),
    {
        if let Err(e) = Self::precondition_size(http_request) {
            return Err(e);
        }
        if let Err(e) = Self::precondition_legal_character(http_request) {
            return Err(e);
        }
        let ghost s = http_request@;
        proof {
            lemma_first_crlf_from(s, 0);
        }
        let line_end = find_crlf(http_request, 0);
        let line = copy_range(http_request, 0, line_end);
        proof {
            assert(line@ == request_line_of(s));
        }
        let (uri_bytes, has_nugget) = match Self::parse_request_line(&line, strict) {
            Ok(t) => t,
            Err(e) => {
                return Err(e);
            },
        };
        proof {
            assert forall|i: int| 0 <= i < uri_bytes@.len() implies #[trigger] uri_bytes@[i]
                < 128 by {
                lemma_first_byte_from(line@, 32, 0);
                lemma_first_byte_from(line@, 32, sp1(line@) + 1);
                assert(uri_bytes@[i] == line@[sp1(line@) + 1 + i]);
                assert(line@[sp1(line@) + 1 + i] == s[sp1(line@) + 1 + i]);
                assert(is_legal_byte(s[sp1(line@) + 1 + i]));
            }
        }
        if has_nugget {
            let target = Self::extract_host_destination(http_request, &uri_bytes);
            proof {
                assert forall|i: int| 0 <= i < s.len() implies #[trigger] s[i] < 128 by {
                    assert(is_legal_byte(s[i]));
                }
            }
            let uri = ascii_to_string(target);
            let payload = copy_range(http_request, 0, http_request.len());
            proof {
                assert(payload@ =~= s);
            }
            Ok(HttpConnectRequest { uri, nugget: Some(Nugget::new(payload)) })
        } else {
            let uri = ascii_to_string(uri_bytes);
            Ok(HttpConnectRequest { uri, nugget: None })
        }
    }
}

// ---------------------------------------------------------------------------
// The codec: framing decisions on buffered bytes, and response encoding.
// ---------------------------------------------------------------------------
/// Result of a successful decode: the validated target address and, for
/// pass-through requests, the payload to replay upstream.
#[derive(Clone, Debug)]
pub struct HttpTunnelTarget {
    pub target: String,
    pub nugget: Option<Nugget>,
}

impl HttpTunnelTarget {
    pub fn target_addr(&self) -> (r: String)
        ensures
            r@ == self.target@,
    {
        self.target.clone()
    }

    pub fn has_nugget(&self) -> (r: bool)
        ensures
            r == (self.nugget is Some),
    {
        self.nugget.is_some()
    }

    pub fn target_nugget(&self) -> (r: &Nugget)
        requires
            self.nugget is Some,
        ensures
            r@ == self.nugget->Some_0@,
    {
        self.nugget.as_ref().unwrap()
    }
}

/// The decode model: "not yet" until a full header block is buffered, then
/// the parse outcome, with the configured allow-list pattern applied to the
/// target address (no match means the target is not allowed).
pub open spec fn spec_decode(s: Seq<u8>, strict: bool, pattern: Seq<char>) -> Option<
    Result<(Seq<char>, bool), EstablishTunnelResult>,
> {
    if !(s.len() >= MAX_HTTP_REQUEST_SIZE || has_terminator(s)) {
        None
    } else {
        match spec_parse(s, strict) {
            Err(e) => Some(Err(e)),
            Ok((t, n)) => {
                let tc = chars_of_bytes(t);
                if regex_matches(pattern, tc) {
                    Some(Ok((tc, n)))
                } else {
                    Some(Err(EstablishTunnelResult::OperationNotAllowed))
                }
            },
        }
    }
}

/// How an executable decode result realizes the decode model: same shape,
/// and the target text and payload bytes agree with the model's.
pub open spec fn decode_matches_model(
    r: Option<Result<HttpTunnelTarget, EstablishTunnelResult>>,
    d: Option<Result<(Seq<char>, bool), EstablishTunnelResult>>,
    src: Seq<u8>,
) -> bool {
    match r {
        None => d is None,
        Some(Ok(t)) => {
            &&& d matches Some(Ok(dt))
            &&& t.target@ == dt.0
            &&& (dt.1 ==> (t.nugget matches Some(n) && n@ == src))
            &&& (!dt.1 ==> t.nugget is None)
        },
        Some(Err(e)) => d == Some(Err::<(Seq<char>, bool), EstablishTunnelResult>(e)),
    }
}

/// Stateless parser/encoder for the CONNECT handshake of one connection,
/// carrying the connection's correlation id and the configured allow-list.
pub struct HttpTunnelCodec {
    pub tunnel_ctx: TunnelCtx,
    pub enabled_targets: TargetMatcher,
    pub strict: bool,
}

impl HttpTunnelCodec {
    pub fn new(tunnel_ctx: TunnelCtx, enabled_targets: TargetMatcher, strict: bool) -> (r:
        HttpTunnelCodec)
        ensures
            r.tunnel_ctx == tunnel_ctx,
            r.enabled_targets == enabled_targets,
            r.strict == strict,
    {
        HttpTunnelCodec { tunnel_ctx, enabled_targets, strict }
    }

    /// Decode buffered bytes: `None` until a full header block is present,
    /// then the validated target or the rejection code. Decoding the same
    /// bytes twice yields the same result: the outcome is a pure function of
    /// the buffered bytes and the configured pattern.
    pub fn decode(&self, src: &Vec<u8>) -> (r: Option<
        Result<HttpTunnelTarget, EstablishTunnelResult>,
    >)
        ensures
            decode_matches_model(
                r,
                spec_decode(src@, self.strict, self.enabled_targets.pattern()),
                src@,
            ),
    {
        if !got_http_request(src) {
            return None;
        }
        match HttpConnectRequest::parse(src, self.strict) {
            Err(e) => Some(Err(e)),
            Ok(req) => {
                if self.enabled_targets.is_match(req.uri.as_str()) {
                    Some(Ok(HttpTunnelTarget { target: req.uri, nugget: req.nugget }))
                } else {
                    Some(Err(EstablishTunnelResult::OperationNotAllowed))
                }
            },
        }
    }
}


/// The wire response line for a handshake outcome. `OkWithNugget` has none:
/// a pass-through request is delivered to the upstream unanswered, so the
/// connection proceeds straight to relay.
pub open spec fn spec_encode(item: EstablishTunnelResult) -> Seq<char> {
    match item {
        EstablishTunnelResult::Okay => "HTTP/1.1 200 OK\r\n\r\n"@,
        EstablishTunnelResult::OkWithNugget => Seq::<char>::empty(),
        EstablishTunnelResult::BadRequest => "HTTP/1.1 400 BAD_REQUEST\r\n\r\n"@,
        EstablishTunnelResult::Forbidden => "HTTP/1.1 403 FORBIDDEN\r\n\r\n"@,
        EstablishTunnelResult::OperationNotAllowed => "HTTP/1.1 405 NOT_ALLOWED\r\n\r\n"@,
        EstablishTunnelResult::RequestTimeout => "HTTP/1.1 408 REQUEST_TIMEOUT\r\n\r\n"@,
        EstablishTunnelResult::TooManyRequest => "HTTP/1.1 429 TOO_MANY_REQUEST\r\n\r\n"@,
        EstablishTunnelResult::ServerError => "HTTP/1.1 500 SERVER_ERROR\r\n\r\n"@,
        EstablishTunnelResult::BadGateway => "HTTP/1.1 502 BAD_GATEWAY\r\n\r\n"@,
        EstablishTunnelResult::GatewayTimeout => "HTTP/1.1 504 GATEWAY_TIMEOUT\r\n\r\n"@,
    }
}

impl HttpTunnelCodec {
    /// Append the wire response for a handshake outcome to `dst`.
    pub fn encode(&self, item: EstablishTunnelResult, dst: &mut String)
        ensures
            final(dst)@ == old(dst)@ + spec_encode(item),
    {
        let line: &str = match item {
            EstablishTunnelResult::Okay => "HTTP/1.1 200 OK\r\n\r\n",
            EstablishTunnelResult::OkWithNugget => "",
            EstablishTunnelResult::BadRequest => "HTTP/1.1 400 BAD_REQUEST\r\n\r\n",
            EstablishTunnelResult::Forbidden => "HTTP/1.1 403 FORBIDDEN\r\n\r\n",
            EstablishTunnelResult::OperationNotAllowed => "HTTP/1.1 405 NOT_ALLOWED\r\n\r\n",
            EstablishTunnelResult::RequestTimeout => "HTTP/1.1 408 REQUEST_TIMEOUT\r\n\r\n",
            EstablishTunnelResult::TooManyRequest => "HTTP/1.1 429 TOO_MANY_REQUEST\r\n\r\n",
            EstablishTunnelResult::ServerError => "HTTP/1.1 500 SERVER_ERROR\r\n\r\n",
            EstablishTunnelResult::BadGateway => "HTTP/1.1 502 BAD_GATEWAY\r\n\r\n",
            EstablishTunnelResult::GatewayTimeout => "HTTP/1.1 504 GATEWAY_TIMEOUT\r\n\r\n",
        };
        proof {
            if item is OkWithNugget {
                reveal_strlit("");
                assert(""@ =~= Seq::<char>::empty());
            }
        }
        dst.append(line);
    }
}

pub open spec fn is_digit(c: char) -> bool {
    48 <= c as u32 <= 57
}

/// The numeric status code carried by a response line, read from the three
/// characters after `HTTP/1.1 `.
pub open spec fn spec_parse_status_code(s: Seq<char>) -> Option<int> {
    if s.len() >= 12 && is_digit(s[9]) && is_digit(s[10]) && is_digit(s[11]) {
        Some(
            100 * ((s[9] as u32) - 48) + 10 * ((s[10] as u32) - 48) + ((s[11] as u32) - 48),
        )
    } else {
        None
    }
}

/// Read the status code back out of a wire response line.
pub fn parse_status_code(resp: &str) -> (r: Option<u16>)
    ensures
        match r {
            Some(c) => spec_parse_status_code(resp@) == Some(c as int),
            None => spec_parse_status_code(resp@) is None,
        },
{
    let n = resp.unicode_len();
    if n < 12 {
        return None;
    }
    let c9 = resp.get_char(9) as u32;
    let c10 = resp.get_char(10) as u32;
    let c11 = resp.get_char(11) as u32;
    if !(48 <= c9 && c9 <= 57) || !(48 <= c10 && c10 <= 57) || !(48 <= c11 && c11 <= 57) {
        return None;
    }
    let code: u32 = 100 * (c9 - 48) + 10 * (c10 - 48) + (c11 - 48);
    Some(code as u16)
}

// ---------------------------------------------------------------------------
// Laws of the codec.
// ---------------------------------------------------------------------------
/// Round-trip: for every handshake outcome with a wire encoding, encoding it
/// and reading the status code back yields exactly the code of the table.
pub proof fn lemma_encode_round_trip(item: EstablishTunnelResult)
    requires
        !(item is OkWithNugget),
    ensures
        spec_parse_status_code(spec_encode(item)) == Some(item.spec_status_code() as int),
{
    reveal_strlit("HTTP/1.1 200 OK\r\n\r\n");
    reveal_strlit("HTTP/1.1 400 BAD_REQUEST\r\n\r\n");
    reveal_strlit("HTTP/1.1 403 FORBIDDEN\r\n\r\n");
    reveal_strlit("HTTP/1.1 405 NOT_ALLOWED\r\n\r\n");
    reveal_strlit("HTTP/1.1 408 REQUEST_TIMEOUT\r\n\r\n");
    reveal_strlit("HTTP/1.1 429 TOO_MANY_REQUEST\r\n\r\n");
    reveal_strlit("HTTP/1.1 500 SERVER_ERROR\r\n\r\n");
    reveal_strlit("HTTP/1.1 502 BAD_GATEWAY\r\n\r\n");
    reveal_strlit("HTTP/1.1 504 GATEWAY_TIMEOUT\r\n\r\n");
}

/// Decode determinism: two decode results over the same buffered bytes and
/// pattern realize the same model, so they agree in shape, target text and
/// payload bytes.
pub proof fn lemma_decode_deterministic(
    src: Seq<u8>,
    strict: bool,
    pattern: Seq<char>,
    r1: Option<Result<HttpTunnelTarget, EstablishTunnelResult>>,
    r2: Option<Result<HttpTunnelTarget, EstablishTunnelResult>>,
)
    requires
        decode_matches_model(r1, spec_decode(src, strict, pattern), src),
        decode_matches_model(r2, spec_decode(src, strict, pattern), src),
    ensures
        ({
            match (r1, r2) {
                (None, None) => true,
                (Some(Err(e1)), Some(Err(e2))) => e1 == e2,
                (Some(Ok(t1)), Some(Ok(t2))) => {
                    &&& t1.target@ == t2.target@
                    &&& (t1.nugget is Some <==> t2.nugget is Some)
                    &&& (match (t1.nugget, t2.nugget) {
                        (Some(n1), Some(n2)) => n1@ == n2@,
                        _ => true,
                    })
                },
                _ => false,
            }
        }),
{
}

/// Size bound: a header stream of `MAX_HTTP_REQUEST_SIZE` or more bytes
/// fails with `BadRequest` whether or not a terminator is present; a shorter
/// stream without a terminator decodes to "not yet".
pub proof fn lemma_size_bound(s: Seq<u8>, strict: bool, pattern: Seq<char>)
    ensures
        s.len() >= MAX_HTTP_REQUEST_SIZE ==> spec_decode(s, strict, pattern) == Some(
            Err::<(Seq<char>, bool), EstablishTunnelResult>(EstablishTunnelResult::BadRequest),
        ),
        s.len() < MAX_HTTP_REQUEST_SIZE && !has_terminator(s) ==> spec_decode(s, strict, pattern)
            is None,
{
}

/// Illegal bytes: any input containing a byte outside the tolerated set (a
/// NUL byte, say) parses to `BadRequest`, regardless of its structure.
pub proof fn lemma_illegal_byte_rejected(s: Seq<u8>, strict: bool, bad: int)
    requires
        0 <= bad < s.len(),
        !is_legal_byte(s[bad]),
    ensures
        spec_parse(s, strict) == Err::<(Seq<u8>, bool), EstablishTunnelResult>(
            EstablishTunnelResult::BadRequest,
        ),
{
    assert(!all_bytes_legal(s));
}

/// Method enforcement: in strict mode a well-formed request whose method is
/// not `CONNECT` is rejected as `Forbidden`.
pub proof fn lemma_strict_rejects_non_connect(s: Seq<u8>)
    requires
        s.len() < MAX_HTTP_REQUEST_SIZE,
        all_bytes_legal(s),
        line_well_formed(request_line_of(s)),
        version_of(request_line_of(s)) == http11_bytes(),
        method_of(request_line_of(s)) != connect_bytes(),
    ensures
        spec_parse(s, true) == Err::<(Seq<u8>, bool), EstablishTunnelResult>(
            EstablishTunnelResult::Forbidden,
        ),
{
}

/// Default port inference: when a pass-through request's resolved host
/// string (the `Host:` header value when present, else the URI) carries no
/// explicit port, the target address gets 443 appended for an `https://` URI
/// and 80 otherwise; one that has a port is used as it stands.
pub proof fn lemma_default_port_inference(s: Seq<u8>, uri: Seq<u8>)
    ensures
        ({
            let base = match spec_host_value(s) {
                Some(v) => v,
                None => uri,
            };
            &&& (!has_colon(base) && starts_with_https(uri) ==> spec_passthrough_target(s, uri)
                == base + seq![58u8, 52u8, 52u8, 51u8])
            &&& (!has_colon(base) && !starts_with_https(uri) ==> spec_passthrough_target(s, uri)
                == base + seq![58u8, 56u8, 48u8])
            &&& (has_colon(base) ==> spec_passthrough_target(s, uri) == base)
        }),
{
}

/// Allow-list enforcement: once a full request parses, the decode outcome is
/// decided by whether the configured pattern matches the target address — a
/// match proceeds, a non-match is `OperationNotAllowed`.
pub proof fn lemma_allow_list_enforced(s: Seq<u8>, strict: bool, pattern: Seq<char>)
    requires
        s.len() >= MAX_HTTP_REQUEST_SIZE || has_terminator(s),
        spec_parse(s, strict) is Ok,
    ensures
        ({
            let t = chars_of_bytes(spec_parse(s, strict)->Ok_0.0);
            &&& (regex_matches(pattern, t) ==> spec_decode(s, strict, pattern) == Some(
                Ok::<(Seq<char>, bool), EstablishTunnelResult>(
                    (t, spec_parse(s, strict)->Ok_0.1),
                ),
            ))
            &&& (!regex_matches(pattern, t) ==> spec_decode(s, strict, pattern) == Some(
                Err::<(Seq<char>, bool), EstablishTunnelResult>(
                    EstablishTunnelResult::OperationNotAllowed,
                ),
            ))
        }),
{
}


} // verus!
