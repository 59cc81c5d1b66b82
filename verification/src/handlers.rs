//! The request handlers that run inside an isolated worker: fixed
//! greetings, decimal addition, the tower-of-hanoi burner, and a sorting
//! service.
use vstd::prelude::*;
use vstd::utf8::encode_utf8;
use crate::bytes::{spec_split, split_on_byte};
use crate::numtext::{dec_chars, parse_i32, spec_parse_i32, u64_to_dec};
use crate::request::PotatoRequest;
use crate::response::PotatoResponse;
use crate::sorting::{bubble_sort_i32s, sorted_i32};

verus! {

/// A signed decimal rendering: a minus sign for negative values.
pub open spec fn spec_i32_chars(n: int) -> Seq<char> {
    if n < 0 {
        seq!['-'] + dec_chars((-n) as nat)
    } else {
        dec_chars(n as nat)
    }
}

/// Render a signed value in decimal.
pub fn i32_to_dec(n: i32) -> (r: String)
    ensures
        r@ == spec_i32_chars(n as int),
{
    if n >= 0 {
        u64_to_dec(n as u64)
    } else {
        let mut s = "-".to_owned();
        let magnitude = (0i64 - n as i64) as u64;
        let digits = u64_to_dec(magnitude);
        s.append(digits.as_str());
        proof {
            reveal_strlit("-");
            assert("-"@ =~= seq!['-']);
            assert(s@ =~= spec_i32_chars(n as int));
        }
        s
    }
}

/// A `200 OK` response carrying `body` and its length header.
fn ok_response(body: Vec<u8>) -> (r: PotatoResponse)
    ensures
        r.status@ == "200 OK"@,
        r.headers.deep_view() =~= seq![("Content-Length"@, dec_chars(body@.len() as nat))],
        r.spec_body_bytes() == body@,
{
    let len_s = u64_to_dec(body.len() as u64);
    let res = PotatoResponse::new().set_status("200 OK");
    proof {
        assert(res.wf());
        assert(res.headers.deep_view() =~= Seq::<(Seq<char>, Seq<char>)>::empty());
    }
    res.add_header("Content-Length", len_s.as_str()).add_body(body)
}

/// The `400 Bad Request` response.
fn bad_request() -> (r: PotatoResponse)
    ensures
        r.status@ == "400 Bad Request"@,
        r.headers@.len() == 0,
        r.body is None,
{
    PotatoResponse::new().set_status("400 Bad Request")
}

/// Serve the fixed greeting `Hello World!`.
pub fn hello(req: PotatoRequest) -> (r: PotatoResponse)
    ensures
        r.status@ == "200 OK"@,
        r.spec_body_bytes() == encode_utf8("Hello World!"@),
        r.headers.deep_view() =~= seq![
            ("Content-Length"@, dec_chars(encode_utf8("Hello World!"@).len() as nat)),
        ],
{
    let body = "Hello World!".as_bytes();
    ok_response(vstd::slice::slice_to_vec(body))
}

/// Serve the fixed greeting `Hi World`.
pub fn hi(req: PotatoRequest) -> (r: PotatoResponse)
    ensures
        r.status@ == "200 OK"@,
        r.spec_body_bytes() == encode_utf8("Hi World"@),
        r.headers.deep_view() =~= seq![
            ("Content-Length"@, dec_chars(encode_utf8("Hi World"@).len() as nat)),
        ],
{
    let body = "Hi World".as_bytes();
    ok_response(vstd::slice::slice_to_vec(body))
}

/// The comma-separated pieces of a request body, each read as an `i32`;
/// `None` when any piece does not parse.
pub open spec fn spec_parsed_i32s(pieces: Seq<Seq<u8>>) -> Option<Seq<i32>>
    decreases pieces.len(),
{
    if pieces.len() == 0 {
        Some(Seq::empty())
    } else {
        match spec_parsed_i32s(pieces.drop_last()) {
            Option::None => None,
            Option::Some(xs) => match spec_parse_i32(pieces.last()) {
                Option::None => None,
                Option::Some(x) => Some(xs.push(x)),
            },
        }
    }
}

/// The mathematical sum of the values.
pub open spec fn spec_sum(xs: Seq<i32>) -> int
    decreases xs.len(),
{
    if xs.len() == 0 {
        0
    } else {
        spec_sum(xs.drop_last()) + xs.last()
    }
}

/// What `simple_add` computes from a body: the sum of the values between
/// commas; `None` when a piece does not parse or the total leaves the `i32`
/// range. Only the total matters: a partial sum may pass outside the range
/// on the way.
pub open spec fn spec_add_result(body: Seq<u8>) -> Option<int> {
    match spec_parsed_i32s(spec_split(body, 0x2cu8)) {
        Option::None => None,
        Option::Some(xs) => if -0x8000_0000 <= spec_sum(xs) <= 0x7fff_ffff {
            Some(spec_sum(xs))
        } else {
            None
        },
    }
}

/// Parse every comma-separated piece as an `i32`.
fn parse_i32_list(body: &[u8]) -> (r: Option<Vec<i32>>)
    ensures
        match spec_parsed_i32s(spec_split(body@, 0x2cu8)) {
            Option::None => r is None,
            Option::Some(xs) => r matches Some(v) && v@ == xs,
        },
{
    let pieces = split_on_byte(body, 0x2c);
    let mut out: Vec<i32> = Vec::new();
    let n = pieces.len();
    let mut i: usize = 0;
    let ghost ps = spec_split(body@, 0x2cu8);
    proof {
        assert(ps.take(0) =~= Seq::<Seq<u8>>::empty());
        assert(spec_parsed_i32s(ps.take(0)) == Some(Seq::<i32>::empty()));
        assert(out@ =~= Seq::<i32>::empty());
    }
    while i < n
        invariant
            0 <= i <= n,
            n == pieces@.len(),
            pieces.deep_view() == ps,
            ps == spec_split(body@, 0x2cu8),
            spec_parsed_i32s(ps.take(i as int)) == Some(out@),
        decreases n - i,
    {
        proof {
            assert(pieces.deep_view()[i as int] == pieces@[i as int]@);
            assert(ps.take(i + 1).drop_last() =~= ps.take(i as int));
            assert(ps.take(i + 1).last() == ps[i as int]);
        }
        match parse_i32(pieces[i].as_slice()) {
            Some(x) => {
                out.push(x);
            },
            None => {
                proof {
                    lemma_parsed_prefix_none(ps, i as int);
                }
                return None;
            },
        }
        i = i + 1;
    }
    proof {
        assert(ps.take(n as int) =~= ps);
    }
    Some(out)
}

/// Once one piece fails to parse, the whole list fails.
proof fn lemma_parsed_prefix_none(ps: Seq<Seq<u8>>, i: int)
    requires
        0 <= i < ps.len(),
        spec_parse_i32(ps[i]) is None,
    ensures
        spec_parsed_i32s(ps) is None,
    decreases ps.len(),
{
    if ps.len() > 0 {
        if i == ps.len() - 1 {
        } else {
            lemma_parsed_prefix_none(ps.drop_last(), i);
        }
    }
}

/// Add the comma-separated decimal values in the body and answer the sum;
/// a missing body, an unreadable piece, or a total outside the `i32` range
/// answers `400 Bad Request`. No request makes the handler fail: unreadable
/// or overflowing input is answered, never panicked on.
pub fn simple_add(req: PotatoRequest) -> (r: PotatoResponse)
    ensures
        req.body is None ==> r.status@ == "400 Bad Request"@ && r.headers@.len() == 0 && r.body
            is None,
        req.body matches Some(b) ==> match spec_add_result(b@) {
            Option::Some(v) => r.status@ == "200 OK"@ && r.spec_body_bytes() == encode_utf8(
                spec_i32_chars(v),
            ) && r.headers.deep_view() =~= seq![
                ("Content-Length"@, dec_chars(encode_utf8(spec_i32_chars(v)).len() as nat)),
            ],
            Option::None => r.status@ == "400 Bad Request"@ && r.headers@.len() == 0 && r.body
                is None,
        },
{
    let body = match req.body {
        Some(b) => b,
        None => {
            return bad_request();
        },
    };
    let xs = match parse_i32_list(body.as_slice()) {
        Some(xs) => xs,
        None => {
            return bad_request();
        },
    };
    let ghost gxs = xs@;
    // The accumulator is wide enough that no list of `i32` values can
    // overflow it, so only the total is range-checked.
    let mut acc: i128 = 0;
    let n = xs.len();
    let mut i: usize = 0;
    proof {
        assert(gxs.take(0) =~= Seq::<i32>::empty());
    }
    while i < n
        invariant
            0 <= i <= n,
            n == gxs.len(),
            xs@ == gxs,
            req.body == Some(body),
            spec_parsed_i32s(spec_split(body@, 0x2cu8)) == Some(gxs),
            acc == spec_sum(gxs.take(i as int)),
            -(i as int) * 0x8000_0000 <= acc <= (i as int) * 0x8000_0000,
        decreases n - i,
    {
        let x = xs[i];
        proof {
            assert(gxs.take(i + 1).drop_last() =~= gxs.take(i as int));
            assert(gxs.take(i + 1).last() == gxs[i as int]);
        }
        acc = acc + x as i128;
        i = i + 1;
    }
    proof {
        assert(gxs.take(n as int) =~= gxs);
    }
    if acc < -0x8000_0000i128 || acc > 0x7fff_ffffi128 {
        return bad_request();
    }
    let out = i32_to_dec(acc as i32);
    ok_response(vstd::slice::slice_to_vec(out.as_str().as_bytes()))
}

/// Walk the tower-of-hanoi move tree for `num` discs; the walk itself is
/// the work.
pub fn compute_hanoi(num: i32, from: i32, to: i32, via: i32)
    decreases num,
{
    if num > 0 {
        compute_hanoi(num - 1, from, via, to);
        compute_hanoi(num - 1, via, to, from);
    }
}

/// Run the hanoi burner for the disc count in the body and answer
/// `Success`; a missing or unreadable body answers `400 Bad Request`
/// rather than failing the worker.
pub fn hanoi(req: PotatoRequest) -> (r: PotatoResponse)
    ensures
        req.body is None ==> r.status@ == "400 Bad Request"@ && r.headers@.len() == 0 && r.body
            is None,
        req.body matches Some(b) ==> match spec_parse_i32(b@) {
            Option::Some(_) => r.status@ == "200 OK"@ && r.spec_body_bytes() == encode_utf8(
                "Success"@,
            ) && r.headers.deep_view() =~= seq![
                ("Content-Length"@, dec_chars(encode_utf8("Success"@).len() as nat)),
            ],
            Option::None => r.status@ == "400 Bad Request"@ && r.headers@.len() == 0 && r.body
                is None,
        },
{
    let body = match req.body {
        Some(b) => b,
        None => {
            return bad_request();
        },
    };
    let num = match parse_i32(body.as_slice()) {
        Some(n) => n,
        None => {
            return bad_request();
        },
    };
    compute_hanoi(num, 1, 2, 3);
    let out = "Success".as_bytes();
    ok_response(vstd::slice::slice_to_vec(out))
}

/// The sorted values joined for the wire: each value's decimal text
/// followed by one space.
pub open spec fn spec_joined(xs: Seq<i32>) -> Seq<char>
    decreases xs.len(),
{
    if xs.len() == 0 {
        Seq::empty()
    } else {
        spec_joined(xs.drop_last()) + spec_i32_chars(xs.last() as int) + " "@
    }
}

/// Sort the comma-separated decimal values in the body and answer them in
/// non-decreasing order, space-terminated; a missing body or an unreadable
/// piece answers `400 Bad Request` rather than failing the worker.
pub fn bubble_sort(req: PotatoRequest) -> (r: PotatoResponse)
    ensures
        req.body is None ==> r.status@ == "400 Bad Request"@ && r.headers@.len() == 0 && r.body
            is None,
        req.body matches Some(b) ==> match spec_parsed_i32s(spec_split(b@, 0x2cu8)) {
            Option::Some(xs) => r.status@ == "200 OK"@ && exists|s: Seq<i32>|
                sorted_i32(s) && s.to_multiset() == xs.to_multiset() && r.spec_body_bytes()
                    == encode_utf8(spec_joined(s)) && r.headers.deep_view() =~= seq![
                    ("Content-Length"@, dec_chars(encode_utf8(spec_joined(s)).len() as nat)),
                ],
            Option::None => r.status@ == "400 Bad Request"@ && r.headers@.len() == 0 && r.body
                is None,
        },
{
    let body = match req.body {
        Some(b) => b,
        None => {
            return bad_request();
        },
    };
    let mut xs = match parse_i32_list(body.as_slice()) {
        Some(xs) => xs,
        None => {
            return bad_request();
        },
    };
    let ghost parsed = xs@;
    bubble_sort_i32s(&mut xs);
    let mut text = String::new();
    let n = xs.len();
    let mut i: usize = 0;
    proof {
        assert(xs@.take(0) =~= Seq::<i32>::empty());
    }
    while i < n
        invariant
            0 <= i <= n,
            n == xs@.len(),
            text@ == spec_joined(xs@.take(i as int)),
        decreases n - i,
    {
        let piece = i32_to_dec(xs[i]);
        text.append(piece.as_str());
        text.append(" ");
        proof {
            assert(xs@.take(i + 1).drop_last() =~= xs@.take(i as int));
            assert(xs@.take(i + 1).last() == xs@[i as int]);
        }
        i = i + 1;
    }
    proof {
        assert(xs@.take(n as int) =~= xs@);
    }
    let r = ok_response(vstd::slice::slice_to_vec(text.as_str().as_bytes()));
    proof {
        assert(sorted_i32(xs@) && xs@.to_multiset() == parsed.to_multiset()
            && r.spec_body_bytes() == encode_utf8(spec_joined(xs@)) && r.headers.deep_view()
            =~= seq![
            ("Content-Length"@, dec_chars(encode_utf8(spec_joined(xs@)).len() as nat)),
        ]);
    }
    r
}

} // verus!
