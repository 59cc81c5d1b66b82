//! HTTP request values handed to the isolation engine: the method table and
//! the byte-level parser that turns a raw request buffer into a
//! `PotatoRequest`.
use vstd::prelude::*;
use vstd::slice::{slice_subrange, slice_to_vec};
use vstd::string::StringSliceAdditionalSpecFns;
use crate::bytes::{
    all_ascii, ascii_chars_of, bytes_eq, find_first, find_sub, first_index_of, spec_find, spec_split, spec_trim,
    split_on_byte, trim,
};
use crate::numtext::{parse_usize, spec_parse_usize};

verus! {

/// The HTTP request methods the server can route on.
#[derive(Eq, PartialEq, Hash, Clone, Copy, Debug, Structural)]
pub enum HttpRequestMethod {
    GET,
    HEAD,
    POST,
    PUT,
    DELETE,
    CONNECT,
    OPTIONS,
    TRACE,
    PATCH,
}

impl HttpRequestMethod {
    /// The method token as characters.
    pub open spec fn spec_name(self) -> Seq<char> {
        match self {
            HttpRequestMethod::GET => "GET"@,
            HttpRequestMethod::HEAD => "HEAD"@,
            HttpRequestMethod::POST => "POST"@,
            HttpRequestMethod::PUT => "PUT"@,
            HttpRequestMethod::DELETE => "DELETE"@,
            HttpRequestMethod::CONNECT => "CONNECT"@,
            HttpRequestMethod::OPTIONS => "OPTIONS"@,
            HttpRequestMethod::TRACE => "TRACE"@,
            HttpRequestMethod::PATCH => "PATCH"@,
        }
    }

    /// The method token as UTF-8 bytes.
    pub open spec fn spec_name_bytes(self) -> Seq<u8> {
        vstd::utf8::encode_utf8(self.spec_name())
    }

    /// The method token.
    pub fn to_string(&self) -> (r: String)
        ensures
            r@ == self.spec_name(),
    {
        match self {
            HttpRequestMethod::GET => "GET".to_owned(),
            HttpRequestMethod::HEAD => "HEAD".to_owned(),
            HttpRequestMethod::POST => "POST".to_owned(),
            HttpRequestMethod::PUT => "PUT".to_owned(),
            HttpRequestMethod::DELETE => "DELETE".to_owned(),
            HttpRequestMethod::CONNECT => "CONNECT".to_owned(),
            HttpRequestMethod::OPTIONS => "OPTIONS".to_owned(),
            HttpRequestMethod::TRACE => "TRACE".to_owned(),
            HttpRequestMethod::PATCH => "PATCH".to_owned(),
        }
    }

    /// The method whose token is `s`, if any, tried in a fixed order.
    pub open spec fn spec_from_bytes(s: Seq<u8>) -> Option<HttpRequestMethod> {
        if s == HttpRequestMethod::GET.spec_name_bytes() {
            Some(HttpRequestMethod::GET)
        } else if s == HttpRequestMethod::HEAD.spec_name_bytes() {
            Some(HttpRequestMethod::HEAD)
        } else if s == HttpRequestMethod::POST.spec_name_bytes() {
            Some(HttpRequestMethod::POST)
        } else if s == HttpRequestMethod::PUT.spec_name_bytes() {
            Some(HttpRequestMethod::PUT)
        } else if s == HttpRequestMethod::DELETE.spec_name_bytes() {
            Some(HttpRequestMethod::DELETE)
        } else if s == HttpRequestMethod::CONNECT.spec_name_bytes() {
            Some(HttpRequestMethod::CONNECT)
        } else if s == HttpRequestMethod::OPTIONS.spec_name_bytes() {
            Some(HttpRequestMethod::OPTIONS)
        } else if s == HttpRequestMethod::TRACE.spec_name_bytes() {
            Some(HttpRequestMethod::TRACE)
        } else if s == HttpRequestMethod::PATCH.spec_name_bytes() {
            Some(HttpRequestMethod::PATCH)
        } else {
            None
        }
    }

    /// Parse a method token from bytes.
    pub fn from_bytes(s: &[u8]) -> (r: Option<HttpRequestMethod>)
        ensures
            r == HttpRequestMethod::spec_from_bytes(s@),
    {
        if Self::token_matches(s, HttpRequestMethod::GET) {
            Some(HttpRequestMethod::GET)
        } else if Self::token_matches(s, HttpRequestMethod::HEAD) {
            Some(HttpRequestMethod::HEAD)
        } else if Self::token_matches(s, HttpRequestMethod::POST) {
            Some(HttpRequestMethod::POST)
        } else if Self::token_matches(s, HttpRequestMethod::PUT) {
            Some(HttpRequestMethod::PUT)
        } else if Self::token_matches(s, HttpRequestMethod::DELETE) {
            Some(HttpRequestMethod::DELETE)
        } else if Self::token_matches(s, HttpRequestMethod::CONNECT) {
            Some(HttpRequestMethod::CONNECT)
        } else if Self::token_matches(s, HttpRequestMethod::OPTIONS) {
            Some(HttpRequestMethod::OPTIONS)
        } else if Self::token_matches(s, HttpRequestMethod::TRACE) {
            Some(HttpRequestMethod::TRACE)
        } else if Self::token_matches(s, HttpRequestMethod::PATCH) {
            Some(HttpRequestMethod::PATCH)
        } else {
            None
        }
    }

    /// Whether `s` is the token of method `m`.
    fn token_matches(s: &[u8], m: HttpRequestMethod) -> (r: bool)
        ensures
            r == (s@ == m.spec_name_bytes()),
    {
        let name = m.to_string();
        bytes_eq(s, name.as_str().as_bytes())
    }

    /// Parse a method token from a string.
    pub fn from_str(s: &str) -> (r: Option<HttpRequestMethod>)
        ensures
            r == HttpRequestMethod::spec_from_bytes(s.spec_bytes()),
    {
        Self::from_bytes(s.as_bytes())
    }
}

/// The bytes `"\r\n"`.
pub open spec fn seq_crlf() -> Seq<u8> {
    seq![13u8, 10u8]
}

/// The bytes `"\r\n\r\n"`.
pub open spec fn seq_crlf2() -> Seq<u8> {
    seq![13u8, 10u8, 13u8, 10u8]
}

/// The bytes of the header key prefix `"Content-Length"`.
pub open spec fn seq_content_length() -> Seq<u8> {
    seq![0x43u8, 0x6fu8, 0x6eu8, 0x74u8, 0x65u8, 0x6eu8, 0x74u8, 0x2du8, 0x4cu8, 0x65u8, 0x6eu8,
        0x67u8, 0x74u8, 0x68u8]
}

/// `"\r\n"` as an owned buffer.
fn crlf_pat() -> (r: Vec<u8>)
    ensures
        r@ == seq_crlf(),
{
    let mut r: Vec<u8> = Vec::new();
    r.push(13);
    r.push(10);
    proof {
        assert(r@ =~= seq_crlf());
    }
    r
}

/// `"\r\n\r\n"` as an owned buffer.
fn crlf2_pat() -> (r: Vec<u8>)
    ensures
        r@ == seq_crlf2(),
{
    let mut r: Vec<u8> = Vec::new();
    r.push(13);
    r.push(10);
    r.push(13);
    r.push(10);
    proof {
        assert(r@ =~= seq_crlf2());
    }
    r
}

/// `"Content-Length"` as an owned buffer.
fn content_length_pat() -> (r: Vec<u8>)
    ensures
        r@ == seq_content_length(),
{
    let mut r: Vec<u8> = Vec::new();
    r.push(0x43);
    r.push(0x6f);
    r.push(0x6e);
    r.push(0x74);
    r.push(0x65);
    r.push(0x6e);
    r.push(0x74);
    r.push(0x2d);
    r.push(0x4c);
    r.push(0x65);
    r.push(0x6e);
    r.push(0x67);
    r.push(0x74);
    r.push(0x68);
    proof {
        assert(r@ =~= seq_content_length());
    }
    r
}

/// A line with its single trailing carriage return removed, as `str::lines`
/// strips it.
pub open spec fn strip_cr(l: Seq<u8>) -> Seq<u8> {
    if l.len() > 0 && l.last() == 13u8 {
        l.drop_last()
    } else {
        l
    }
}

/// `s` with every occurrence of `": "` removed, scanning left to right
/// without overlap, as `str::replace(": ", "")` does.
pub open spec fn remove_colon_space(s: Seq<u8>) -> Seq<u8>
    decreases s.len(),
{
    if s.len() >= 2 && s[0] == 0x3au8 && s[1] == 0x20u8 {
        remove_colon_space(s.skip(2))
    } else if s.len() >= 1 {
        seq![s[0]] + remove_colon_space(s.skip(1))
    } else {
        s
    }
}

/// Remove every `": "` from `s`.
pub fn remove_colon_space_bytes(s: &[u8]) -> (r: Vec<u8>)
    ensures
        r@ == remove_colon_space(s@),
{
    let mut out: Vec<u8> = Vec::new();
    let mut i: usize = 0;
    proof {
        assert(s@.skip(0) =~= s@);
    }
    while i < s.len()
        invariant
            0 <= i <= s@.len(),
            remove_colon_space(s@) == out@ + remove_colon_space(s@.skip(i as int)),
        decreases s@.len() - i,
    {
        if i + 1 < s.len() && s[i] == 0x3a && s[i + 1] == 0x20 {
            proof {
                assert(s@.skip(i as int).skip(2) =~= s@.skip(i + 2));
            }
            i = i + 2;
        } else {
            out.push(s[i]);
            proof {
                let t = s@.skip(i as int);
                assert(t.skip(1) =~= s@.skip(i + 1));
                assert(t[0] == s@[i as int]);
                assert(out@ + remove_colon_space(s@.skip(i + 1)) =~= remove_colon_space(s@));
            }
            i = i + 1;
        }
    }
    proof {
        assert(out@ =~= remove_colon_space(s@));
    }
    out
}

/// Index just past the request line: position of the first `"\r\n"`.
pub open spec fn spec_head_end(raw: Seq<u8>) -> int {
    spec_find(raw, seq_crlf()).unwrap()
}

/// The request line.
pub open spec fn spec_head(raw: Seq<u8>) -> Seq<u8> {
    raw.take(spec_head_end(raw))
}

/// Position of the first `/` in the request line.
pub open spec fn spec_slash(raw: Seq<u8>) -> int {
    first_index_of(spec_head(raw), 0x2fu8).unwrap()
}

/// The method token: the request line up to the first `/`, trimmed.
pub open spec fn spec_method_token(raw: Seq<u8>) -> Seq<u8> {
    spec_trim(spec_head(raw).take(spec_slash(raw)))
}

/// The request line from the first `/` on.
pub open spec fn spec_back(raw: Seq<u8>) -> Seq<u8> {
    spec_head(raw).skip(spec_slash(raw))
}

/// Position of the first `H` after the path (the `HTTP/1.1` marker).
pub open spec fn spec_hpos(raw: Seq<u8>) -> int {
    first_index_of(spec_back(raw), 0x48u8).unwrap()
}

/// The path token: from the first `/` to the first following `H`, trimmed.
pub open spec fn spec_path_bytes(raw: Seq<u8>) -> Seq<u8> {
    spec_trim(spec_back(raw).take(spec_hpos(raw)))
}

/// The parsed method; an unknown token falls back to `OPTIONS`.
pub open spec fn spec_req_method(raw: Seq<u8>) -> HttpRequestMethod {
    match HttpRequestMethod::spec_from_bytes(spec_method_token(raw)) {
        Option::Some(m) => m,
        Option::None => HttpRequestMethod::OPTIONS,
    }
}

/// Position of the blank line `"\r\n\r\n"` that ends the header block.
pub open spec fn spec_blank(raw: Seq<u8>) -> int {
    spec_find(raw, seq_crlf2()).unwrap()
}

/// The header lines: the region between the request line and the blank
/// line, split at `\n` with trailing carriage returns stripped.
pub open spec fn spec_req_lines(raw: Seq<u8>) -> Seq<Seq<u8>> {
    spec_split(raw.subrange(spec_head_end(raw), spec_blank(raw)), 0x0au8).map_values(
        |l: Seq<u8>| strip_cr(l),
    )
}

/// Whether a header line names a content length: non-empty, and the part
/// before its first colon starts with `Content-Length` once trimmed.
pub open spec fn is_content_length_line(l: Seq<u8>) -> bool {
    &&& l.len() > 0
    &&& first_index_of(l, 0x3au8) is Some
    &&& seq_content_length().is_prefix_of(spec_trim(l.take(first_index_of(l, 0x3au8).unwrap())))
}

/// The declared value of a content-length line: the part from the colon on,
/// with `": "` removed, read as decimal.
pub open spec fn spec_cl_value(l: Seq<u8>) -> Option<usize> {
    spec_parse_usize(remove_colon_space(l.skip(first_index_of(l, 0x3au8).unwrap())))
}

/// The content length announced by the last content-length line, `0` when
/// none is present.
pub open spec fn spec_content_len(lines: Seq<Seq<u8>>) -> usize
    decreases lines.len(),
{
    if lines.len() == 0 {
        0
    } else if is_content_length_line(lines.last()) {
        spec_cl_value(lines.last()).unwrap()
    } else {
        spec_content_len(lines.drop_last())
    }
}

/// What the parser demands of every header line: non-empty lines carry a
/// colon, and content-length lines carry a readable value.
pub open spec fn lines_ok(lines: Seq<Seq<u8>>) -> bool {
    forall|i: int|
        0 <= i < lines.len() && #[trigger] lines[i].len() > 0 ==> first_index_of(lines[i], 0x3au8)
            is Some && (is_content_length_line(lines[i]) ==> spec_cl_value(lines[i]) is Some)
}

/// The request body: `content-length` bytes following the blank line.
pub open spec fn spec_req_body(raw: Seq<u8>) -> Seq<u8> {
    raw.subrange(
        spec_blank(raw) + 4,
        spec_blank(raw) + 4 + spec_content_len(spec_req_lines(raw)) as int,
    )
}

/// The buffers `from_raw_req` accepts: a request line with a method, a path
/// and an `H` marker, a terminated header block whose lines are well formed,
/// and a body no shorter than the declared content length.
pub open spec fn valid_raw_request(raw: Seq<u8>) -> bool {
    &&& spec_find(raw, seq_crlf()) is Some
    &&& first_index_of(spec_head(raw), 0x2fu8) is Some
    &&& first_index_of(spec_back(raw), 0x48u8) is Some
    &&& spec_find(raw, seq_crlf2()) is Some
    &&& lines_ok(spec_req_lines(raw))
    &&& spec_blank(raw) + 4 + spec_content_len(spec_req_lines(raw)) <= raw.len()
}

/// Relies on `String::from_utf8_lossy`: bytes that are valid UTF-8 decode to
/// themselves, so ASCII bytes come back as exactly those characters.
#[verifier::external_body]
pub(crate) fn bytes_to_string_lossy(b: &[u8]) -> (r: String)
    ensures
        all_ascii(b@) ==> r@ == ascii_chars_of(b@),
{
    String::from_utf8_lossy(b).into_owned()
}

/// One request for the engine to run: what to do (`method`, `path`), any
/// extra headers, and the payload.
pub struct PotatoRequest {
    pub method: HttpRequestMethod,
    pub path: String,
    pub headers: Vec<(String, String)>,
    pub body: Option<Vec<u8>>,
}

impl PotatoRequest {
    /// A request with the given method, path and body, and no headers.
    pub fn new(method: HttpRequestMethod, path: &str, body: Option<Vec<u8>>) -> (r: PotatoRequest)
        ensures
            r.method == method,
            r.path@ == path@,
            r.headers@.len() == 0,
            r.body == body,
    {
        PotatoRequest { method, path: path.to_owned(), headers: Vec::new(), body }
    }

    /// Parse a raw request buffer: method and path from the request line,
    /// body length from the last `Content-Length` header.
    pub fn from_raw_req(raw: &[u8]) -> (r: PotatoRequest)
        requires
            valid_raw_request(raw@),
        ensures
            r.method == spec_req_method(raw@),
            all_ascii(spec_path_bytes(raw@)) ==> r.path@ == ascii_chars_of(
                spec_path_bytes(raw@),
            ),
            r.headers@.len() == 0,
            r.body matches Some(b) && b@ == spec_req_body(raw@),
    {
        let crlf = crlf_pat();
        let crlf2 = crlf2_pat();

        let hd = match find_sub(raw, crlf.as_slice()) {
            Some(i) => i,
            None => {
                proof {
                    assert(false);
                }
                0
            },
        };
        let head = slice_subrange(raw, 0, hd);
        proof {
            assert(head@ =~= spec_head(raw@));
        }
        let slash = match find_first(head, 0x2f) {
            Some(i) => i,
            None => {
                proof {
                    assert(false);
                }
                0
            },
        };
        let method_tok = trim(slice_subrange(head, 0, slash));
        proof {
            assert(head@.subrange(0, slash as int) =~= spec_head(raw@).take(spec_slash(raw@)));
        }
        let method = match HttpRequestMethod::from_bytes(method_tok) {
            Some(m) => m,
            None => HttpRequestMethod::OPTIONS,
        };

        let back = slice_subrange(head, slash, hd);
        proof {
            assert(back@ =~= spec_back(raw@));
        }
        let hpos = match find_first(back, 0x48) {
            Some(i) => i,
            None => {
                proof {
                    assert(false);
                }
                0
            },
        };
        let path_tok = trim(slice_subrange(back, 0, hpos));
        proof {
            assert(back@.subrange(0, hpos as int) =~= spec_back(raw@).take(spec_hpos(raw@)));
        }
        let path = bytes_to_string_lossy(path_tok);

        let blank = match find_sub(raw, crlf2.as_slice()) {
            Some(i) => i,
            None => {
                proof {
                    assert(false);
                }
                0
            },
        };
        proof {
            lemma_head_end_le_blank(raw@);
        }
        let region = slice_subrange(raw, hd, blank);
        let content_len = content_len_of_region(region);
        proof {
            assert(region@ =~= raw@.subrange(spec_head_end(raw@), spec_blank(raw@)));
        }

        let raw_len = raw.len();
        proof {
            assert(raw_len == raw@.len());
            assert(blank + 4 + content_len <= raw_len);
        }
        let body = slice_to_vec(slice_subrange(raw, blank + 4, blank + 4 + content_len));
        proof {
            assert(body@ =~= spec_req_body(raw@));
        }

        PotatoRequest { method, path, headers: Vec::new(), body: Some(body) }
    }
}


/// Whether one header line is well formed for the parser: a non-empty line
/// carries a colon, and a content-length line carries a readable value.
fn line_ok(line: &[u8]) -> (r: bool)
    ensures
        r == (line@.len() > 0 ==> first_index_of(line@, 0x3au8) is Some && (
        is_content_length_line(line@) ==> spec_cl_value(line@) is Some)),
{
    if line.len() == 0 {
        return true;
    }
    let cl_key = content_length_pat();
    match find_first(line, 0x3a) {
        Some(colon) => {
            let key = trim(slice_subrange(line, 0, colon));
            proof {
                assert(line@.subrange(0, colon as int) =~= line@.take(colon as int));
            }
            if crate::bytes::starts_with(key, cl_key.as_slice()) {
                let line_len = line.len();
                let value_part = slice_subrange(line, colon, line_len);
                proof {
                    assert(value_part@ =~= line@.skip(colon as int));
                }
                let cleaned = remove_colon_space_bytes(value_part);
                match parse_usize(cleaned.as_slice()) {
                    Some(_) => true,
                    None => {
                        proof {
                            assert(is_content_length_line(line@));
                        }
                        false
                    },
                }
            } else {
                proof {
                    assert(!is_content_length_line(line@));
                }
                true
            }
        },
        None => false,
    }
}

/// Whether every line of a header region is well formed (`lines_ok`).
fn region_lines_ok(region: &[u8]) -> (r: bool)
    ensures
        r == lines_ok(spec_split(region@, 0x0au8).map_values(|l: Seq<u8>| strip_cr(l))),
{
    let pieces = split_on_byte(region, 0x0a);
    let ghost lines = spec_split(region@, 0x0au8).map_values(|l: Seq<u8>| strip_cr(l));
    let n = pieces.len();
    let mut i: usize = 0;
    while i < n
        invariant
            0 <= i <= n,
            n == pieces@.len(),
            pieces.deep_view() == spec_split(region@, 0x0au8),
            lines == spec_split(region@, 0x0au8).map_values(|l: Seq<u8>| strip_cr(l)),
            lines.len() == n,
            forall|j: int|
                0 <= j < i && #[trigger] lines[j].len() > 0 ==> first_index_of(lines[j], 0x3au8)
                    is Some && (is_content_length_line(lines[j]) ==> spec_cl_value(lines[j])
                    is Some),
        decreases n - i,
    {
        let piece: &Vec<u8> = &pieces[i];
        proof {
            assert(pieces.deep_view()[i as int] == pieces@[i as int]@);
            assert(lines[i as int] == strip_cr(pieces.deep_view()[i as int]));
        }
        let pl = piece.len();
        let line: &[u8] = if pl > 0 && piece[pl - 1] == 13 {
            slice_subrange(piece.as_slice(), 0, pl - 1)
        } else {
            slice_subrange(piece.as_slice(), 0, pl)
        };
        proof {
            assert(line@ =~= lines[i as int]);
        }
        if !line_ok(line) {
            proof {
                assert(!lines_ok(lines)) by {
                    assert(lines[i as int].len() > 0);
                }
            }
            return false;
        }
        i = i + 1;
    }
    true
}

/// Check a raw buffer against `valid_raw_request`, so an embedding program
/// can test the parser's precondition before calling it.
pub fn is_valid_raw_request(raw: &[u8]) -> (r: bool)
    ensures
        r == valid_raw_request(raw@),
{
    let crlf = crlf_pat();
    let crlf2 = crlf2_pat();
    let hd = match find_sub(raw, crlf.as_slice()) {
        Some(i) => i,
        None => {
            return false;
        },
    };
    let head = slice_subrange(raw, 0, hd);
    proof {
        assert(head@ =~= spec_head(raw@));
    }
    let slash = match find_first(head, 0x2f) {
        Some(i) => i,
        None => {
            return false;
        },
    };
    let back = slice_subrange(head, slash, hd);
    proof {
        assert(back@ =~= spec_back(raw@));
    }
    match find_first(back, 0x48) {
        Some(_) => {},
        None => {
            return false;
        },
    }
    let blank = match find_sub(raw, crlf2.as_slice()) {
        Some(i) => i,
        None => {
            return false;
        },
    };
    proof {
        lemma_head_end_le_blank(raw@);
    }
    let region = slice_subrange(raw, hd, blank);
    proof {
        assert(region@ =~= raw@.subrange(spec_head_end(raw@), spec_blank(raw@)));
    }
    if !region_lines_ok(region) {
        return false;
    }
    let content_len = content_len_of_region(region);
    let raw_len = raw.len();
    content_len <= raw_len - (blank + 4)
}

/// The first `"\r\n"` is no later than the first `"\r\n\r\n"`.
proof fn lemma_head_end_le_blank(raw: Seq<u8>)
    requires
        spec_find(raw, seq_crlf()) is Some,
        spec_find(raw, seq_crlf2()) is Some,
    ensures
        0 <= spec_head_end(raw) <= spec_blank(raw),
        spec_blank(raw) + 4 <= raw.len(),
{
    crate::bytes::lemma_spec_find_first(raw, seq_crlf());
    crate::bytes::lemma_spec_find_first(raw, seq_crlf2());
    let b = spec_blank(raw);
    assert(crate::bytes::match_at(raw, seq_crlf2(), b));
    assert(raw.subrange(b, b + 2) =~= raw.subrange(b, b + 4).take(2));
    assert(raw.subrange(b, b + 4).take(2) =~= seq_crlf());
    assert(crate::bytes::match_at(raw, seq_crlf(), b));
    let h = spec_head_end(raw);
    if h > b {
        assert(!crate::bytes::match_at(raw, seq_crlf(), b));
        assert(false);
    }
}

/// Read the content length announced in a header region: lines are split at
/// `\n`, carriage returns stripped, and the last `Content-Length` line wins.
fn content_len_of_region(region: &[u8]) -> (r: usize)
    requires
        lines_ok(spec_split(region@, 0x0au8).map_values(|l: Seq<u8>| strip_cr(l))),
    ensures
        r == spec_content_len(spec_split(region@, 0x0au8).map_values(|l: Seq<u8>| strip_cr(l))),
{
    let pieces = split_on_byte(region, 0x0a);
    let ghost lines = spec_split(region@, 0x0au8).map_values(|l: Seq<u8>| strip_cr(l));
    let cl_key = content_length_pat();
    let mut content_len: usize = 0;
    let mut i: usize = 0;
    proof {
        assert(lines.take(0) =~= Seq::<Seq<u8>>::empty());
    }
    let n = pieces.len();
    while i < n
        invariant
            0 <= i <= n,
            n == pieces@.len(),
            pieces.deep_view() == spec_split(region@, 0x0au8),
            lines == spec_split(region@, 0x0au8).map_values(|l: Seq<u8>| strip_cr(l)),
            lines_ok(lines),
            content_len == spec_content_len(lines.take(i as int)),
            cl_key@ == seq_content_length(),
        decreases n - i,
    {
        let piece: &Vec<u8> = &pieces[i];
        proof {
            assert(pieces.deep_view()[i as int] == pieces@[i as int]@);
            assert(lines[i as int] == strip_cr(pieces@[i as int]@));
        }
        let pl = piece.len();
        let line: &[u8] = if pl > 0 && piece[pl - 1] == 13 {
            slice_subrange(piece.as_slice(), 0, pl - 1)
        } else {
            slice_subrange(piece.as_slice(), 0, pl)
        };
        proof {
            assert(line@ =~= lines[i as int]);
        }
        if line.len() > 0 {
            match find_first(line, 0x3a) {
                Some(colon) => {
                    let key = trim(slice_subrange(line, 0, colon));
                    proof {
                        assert(line@.subrange(0, colon as int) =~= lines[i as int].take(
                            colon as int,
                        ));
                    }
                    if crate::bytes::starts_with(key, cl_key.as_slice()) {
                        let value_part = slice_subrange(line, colon, line.len());
                        proof {
                            assert(value_part@ =~= lines[i as int].skip(colon as int));
                        }
                        let cleaned = remove_colon_space_bytes(value_part);
                        match parse_usize(cleaned.as_slice()) {
                            Some(v) => {
                                content_len = v;
                            },
                            None => {
                                proof {
                                    assert(is_content_length_line(lines[i as int]));
                                    assert(false);
                                }
                            },
                        }
                        proof {
                            assert(is_content_length_line(lines[i as int]));
                        }
                    } else {
                        proof {
                            assert(!is_content_length_line(lines[i as int]));
                        }
                    }
                },
                None => {
                    proof {
                        assert(lines[i as int].len() > 0);
                        assert(false);
                    }
                },
            }
        }
        proof {
            assert(lines.take(i + 1).drop_last() =~= lines.take(i as int));
            assert(lines.take(i + 1).last() == lines[i as int]);
        }
        i = i + 1;
    }
    proof {
        assert(lines.take(n as int) =~= lines);
    }
    content_len
}

} // verus!
