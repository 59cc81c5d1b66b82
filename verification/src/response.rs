//! The HTTP response a handler produces inside the isolated worker, and its
//! serialization to wire bytes.
use vstd::prelude::*;
use vstd::slice::slice_to_vec;
use crate::pairmap::{spec_pair_map, unique_keys, upsert};
use vstd::string::StringSliceAdditionalSpecFns;
use vstd::utf8::encode_utf8;

verus! {

/// A response under construction: status line, headers in insertion order,
/// and an optional payload.
pub struct PotatoResponse {
    pub status: String,
    pub headers: Vec<(String, String)>,
    pub body: Option<Vec<u8>>,
}

/// Header lines joined for the wire: `key: value`, one per header, separated
/// by a single newline.
pub open spec fn spec_headers_text(hs: Seq<(Seq<char>, Seq<char>)>) -> Seq<char>
    decreases hs.len(),
{
    if hs.len() == 0 {
        Seq::empty()
    } else if hs.len() == 1 {
        hs.last().0 + ": "@ + hs.last().1
    } else {
        spec_headers_text(hs.drop_last()) + "\n"@ + hs.last().0 + ": "@ + hs.last().1
    }
}

impl PotatoResponse {
    /// Each header key occurs once: adding a key already present replaces
    /// its value.
    pub open spec fn wf(&self) -> bool {
        unique_keys(self.headers@)
    }

    /// The response head as characters: status line, header block, blank
    /// line.
    pub open spec fn spec_head_chars(&self) -> Seq<char> {
        "HTTP/1.1 "@ + self.status@ + "\r\n"@ + spec_headers_text(self.headers.deep_view())
            + "\r\n\r\n"@
    }

    /// The payload bytes, empty when no body was set.
    pub open spec fn spec_body_bytes(&self) -> Seq<u8> {
        match self.body {
            Option::Some(b) => b@,
            Option::None => Seq::empty(),
        }
    }

    /// An empty response: no status, no headers, no body.
    pub fn new() -> (r: PotatoResponse)
        ensures
            r.status@ == Seq::<char>::empty(),
            r.headers@.len() == 0,
            r.body is None,
            r.wf(),
    {
        PotatoResponse { status: String::new(), headers: Vec::new(), body: None }
    }

    /// Replace the status line.
    pub fn set_status(self, status: &str) -> (r: PotatoResponse)
        ensures
            r.status@ == status@,
            r.headers == self.headers,
            r.body == self.body,
    {
        PotatoResponse { status: status.to_owned(), ..self }
    }

    /// Insert one header: a key already present has its value replaced, a
    /// new key is appended.
    pub fn add_header(self, key: &str, value: &str) -> (r: PotatoResponse)
        requires
            self.wf(),
        ensures
            r.wf(),
            r.status == self.status,
            r.body == self.body,
            spec_pair_map(r.headers@) =~= spec_pair_map(self.headers@).insert(key@, value@),
            (forall|i: int|
                0 <= i < self.headers@.len() ==> (#[trigger] self.headers@[i]).0@ != key@)
                ==> r.headers.deep_view() == self.headers.deep_view().push((key@, value@)),
    {
        PotatoResponse { headers: upsert(self.headers, key, value), ..self }
    }

    /// Set the payload.
    pub fn add_body(self, content: Vec<u8>) -> (r: PotatoResponse)
        ensures
            r.status == self.status,
            r.headers == self.headers,
            r.body matches Some(b) && b == content,
    {
        PotatoResponse { body: Some(content), ..self }
    }

    /// Serialize for the wire: the UTF-8 bytes of the head followed by the
    /// payload.
    pub fn to_http_response(&self) -> (r: Vec<u8>)
        ensures
            r@ == encode_utf8(self.spec_head_chars()) + self.spec_body_bytes(),
    {
        let mut head = "HTTP/1.1 ".to_owned();
        head.append(self.status.as_str());
        head.append("\r\n");

        let mut text = String::new();
        let n = self.headers.len();
        let mut i: usize = 0;
        proof {
            assert(self.headers.deep_view().take(0) =~= Seq::<(Seq<char>, Seq<char>)>::empty());
        }
        while i < n
            invariant
                0 <= i <= n,
                n == self.headers@.len(),
                text@ == spec_headers_text(self.headers.deep_view().take(i as int)),
            decreases n - i,
        {
            if i > 0 {
                text.append("\n");
            }
            let pair = &self.headers[i];
            text.append(pair.0.as_str());
            text.append(": ");
            text.append(pair.1.as_str());
            proof {
                let hs = self.headers.deep_view();
                assert(hs[i as int] == (self.headers@[i as int].0@, self.headers@[i as int].1@));
                assert(hs.take(i + 1).drop_last() =~= hs.take(i as int));
                assert(hs.take(i + 1).last() == hs[i as int]);
            }
            i = i + 1;
        }
        proof {
            assert(self.headers.deep_view().take(n as int) =~= self.headers.deep_view());
        }
        head.append(text.as_str());
        head.append("\r\n\r\n");

        let mut r = slice_to_vec(head.as_str().as_bytes());
        match &self.body {
            Some(b) => {
                let mut tail = slice_to_vec(b.as_slice());
                r.append(&mut tail);
            },
            None => {},
        }
        proof {
            assert(r@ =~= encode_utf8(self.spec_head_chars()) + self.spec_body_bytes());
        }
        r
    }
}

} // verus!
