//! The request router: routes, the server value that owns them, and the
//! selection of a handler for a raw request buffer. Handlers are opaque to
//! the router (any `H`); the listening socket and the worker spawn live
//! with the embedding program, which asks the router which handler to run.
use vstd::prelude::*;
use vstd::string::StringSliceAdditionalSpecFns;
use vstd::utf8::encode_utf8;
use crate::bytes::{
    all_ascii, ascii_chars_of, find_first, first_index_of, spec_find, spec_split, starts_with,
    trim,
};
use crate::isolation::IsolationSetting;
use crate::request::{strip_cr, HttpRequestMethod};

verus! {

/// One route: a method and an exact path.
#[derive(Clone, Debug, PartialEq, Eq, Hash)]
pub struct PotatoRoute {
    pub method: HttpRequestMethod,
    pub path: String,
}

/// The request line a buffer must start with to hit a route.
pub open spec fn spec_route_head(method: HttpRequestMethod, path: Seq<char>) -> Seq<char> {
    method.spec_name() + " "@ + path + " HTTP/1.1"@
}

/// Build the request line for a route.
pub fn route_head(method: HttpRequestMethod, path: &str) -> (r: String)
    ensures
        r@ == spec_route_head(method, path@),
{
    let mut h = method.to_string();
    h.append(" ");
    h.append(path);
    h.append(" HTTP/1.1");
    h
}

/// Which handler serves a buffer.
#[derive(Clone, Copy, Debug, PartialEq, Eq, Structural)]
pub enum RouteChoice {
    /// The route at this position matched first.
    Route(usize),
    /// No route matched; the default handler serves the request.
    Default,
    /// No route matched and no route exists to fall through from.
    NoMatch,
}

/// Whether the buffer starts with the route's request line.
pub open spec fn spec_route_matches(
    method: HttpRequestMethod,
    path: Seq<char>,
    buffer: Seq<u8>,
) -> bool {
    encode_utf8(spec_route_head(method, path)).is_prefix_of(buffer)
}

/// The first route whose request line starts the buffer; with routes
/// present but none matching, the default handler; with no routes at all,
/// nothing.
pub open spec fn spec_route_choice(
    routes: Seq<(HttpRequestMethod, Seq<char>)>,
    buffer: Seq<u8>,
    offset: int,
) -> RouteChoice
    decreases routes.len(),
{
    if routes.len() == 0 {
        if offset == 0 {
            RouteChoice::NoMatch
        } else {
            RouteChoice::Default
        }
    } else if spec_route_matches(routes.first().0, routes.first().1, buffer) {
        RouteChoice::Route(offset as usize)
    } else {
        spec_route_choice(routes.drop_first(), buffer, offset + 1)
    }
}

/// A server: its port, the runtime directory for per-request rootfs
/// directories, the routes with their handlers and optional isolation
/// settings, an optional default handler, and whether requests run
/// isolated.
#[derive(Clone)]
pub struct PotatoServer<H> {
    pub port: String,
    pub runtime_dir: String,
    pub handlers: Vec<(PotatoRoute, H, Option<IsolationSetting>)>,
    pub default_handler: Option<(H, Option<IsolationSetting>)>,
    pub isolation: bool,
}

impl<H> PotatoServer<H> {
    /// The routes, as (method, path) pairs.
    pub open spec fn spec_routes(&self) -> Seq<(HttpRequestMethod, Seq<char>)> {
        self.handlers@.map_values(
            |h: (PotatoRoute, H, Option<IsolationSetting>)| (h.0.method, h.0.path@),
        )
    }

    /// A server with no handlers.
    pub fn new(port: &str, runtime_dir: &str, isolation: bool) -> (r: PotatoServer<H>)
        ensures
            r.port@ == port@,
            r.runtime_dir@ == runtime_dir@,
            r.handlers@.len() == 0,
            r.default_handler is None,
            r.isolation == isolation,
    {
        PotatoServer {
            port: port.to_owned(),
            runtime_dir: runtime_dir.to_owned(),
            handlers: Vec::new(),
            default_handler: None,
            isolation,
        }
    }

    /// Append a route served without isolation.
    pub fn add_handler(self, method: HttpRequestMethod, path: &str, handler: H) -> (r:
        PotatoServer<H>)
        ensures
            r.handlers@.len() == self.handlers@.len() + 1,
            r.handlers@.last().0.method == method,
            r.handlers@.last().0.path@ == path@,
            r.handlers@.last().1 == handler,
            r.handlers@.last().2 is None,
            r.handlers@.drop_last() == self.handlers@,
            r.port == self.port,
            r.runtime_dir == self.runtime_dir,
            r.default_handler == self.default_handler,
            r.isolation == self.isolation,
    {
        self.add_handler_with_isolation(method, path, handler, None)
    }

    /// Append a route, optionally served inside an isolated worker.
    pub fn add_handler_with_isolation(
        self,
        method: HttpRequestMethod,
        path: &str,
        handler: H,
        opt_isolation: Option<IsolationSetting>,
    ) -> (r: PotatoServer<H>)
        ensures
            r.handlers@.len() == self.handlers@.len() + 1,
            r.handlers@.last().0.method == method,
            r.handlers@.last().0.path@ == path@,
            r.handlers@.last().1 == handler,
            r.handlers@.last().2 == opt_isolation,
            r.handlers@.drop_last() == self.handlers@,
            r.port == self.port,
            r.runtime_dir == self.runtime_dir,
            r.default_handler == self.default_handler,
            r.isolation == self.isolation,
    {
        let route = PotatoRoute { method, path: path.to_owned() };
        let mut handlers = self.handlers;
        handlers.push((route, handler, opt_isolation));
        proof {
            assert(handlers@.drop_last() =~= self.handlers@);
        }
        PotatoServer {
            port: self.port,
            runtime_dir: self.runtime_dir,
            handlers,
            default_handler: self.default_handler,
            isolation: self.isolation,
        }
    }

    /// Install the handler that serves when no route matches, without
    /// isolation.
    pub fn add_default_handler(self, handler: H) -> (r: PotatoServer<H>)
        ensures
            r.default_handler matches Some(d) && d.0 == handler && d.1 is None,
            r.handlers == self.handlers,
            r.port == self.port,
            r.runtime_dir == self.runtime_dir,
            r.isolation == self.isolation,
    {
        self.add_default_handler_with_isolation(handler, None)
    }

    /// Install the handler that serves when no route matches, optionally
    /// inside an isolated worker.
    pub fn add_default_handler_with_isolation(
        self,
        handler: H,
        opt_isolation: Option<IsolationSetting>,
    ) -> (r: PotatoServer<H>)
        ensures
            r.default_handler matches Some(d) && d.0 == handler && d.1 == opt_isolation,
            r.handlers == self.handlers,
            r.port == self.port,
            r.runtime_dir == self.runtime_dir,
            r.isolation == self.isolation,
    {
        PotatoServer {
            port: self.port,
            runtime_dir: self.runtime_dir,
            handlers: self.handlers,
            default_handler: Some((handler, opt_isolation)),
            isolation: self.isolation,
        }
    }

    /// Choose the handler for a raw request buffer: the first route whose
    /// request line starts the buffer wins; when routes exist but none
    /// match, the default handler serves; a server without routes serves
    /// nothing.
    pub fn choose_route(&self, buffer: &[u8]) -> (r: RouteChoice)
        ensures
            r == spec_route_choice(self.spec_routes(), buffer@, 0),
    {
        let n = self.handlers.len();
        let mut i: usize = 0;
        proof {
            assert(self.spec_routes().skip(0) =~= self.spec_routes());
        }
        while i < n
            invariant
                0 <= i <= n,
                n == self.handlers@.len(),
                spec_route_choice(self.spec_routes(), buffer@, 0) == spec_route_choice(
                    self.spec_routes().skip(i as int),
                    buffer@,
                    i as int,
                ),
                i < n || n == 0 ==> true,
            decreases n - i,
        {
            let head = route_head(self.handlers[i].0.method, self.handlers[i].0.path.as_str());
            let matched = starts_with(buffer, head.as_str().as_bytes());
            proof {
                let routes = self.spec_routes();
                assert(routes.skip(i as int).first() == routes[i as int]);
                assert(routes[i as int] == (self.handlers@[i as int].0.method,
                self.handlers@[i as int].0.path@));
            }
            if matched {
                return RouteChoice::Route(i);
            }
            proof {
                assert(self.spec_routes().skip(i as int).drop_first() =~= self.spec_routes().skip(
                    i + 1,
                ));
            }
            i = i + 1;
        }
        proof {
            assert(self.spec_routes().skip(n as int) =~= Seq::<
                (HttpRequestMethod, Seq<char>),
            >::empty());
        }
        if n == 0 {
            RouteChoice::NoMatch
        } else {
            RouteChoice::Default
        }
    }

    /// Parse a header block: for each line that does not contain `ignore`,
    /// up to the first empty line and with everything after a line starting
    /// with `-` disabled, record the text before the first colon as the key
    /// and the rest of the line (colon included) as the value; a key seen
    /// again has its value replaced, as a map insert does. For ASCII input
    /// the result, read as a map, is exactly the collected pairs' map.
    pub fn get_header(&self, s: &str, ignore: &str) -> (r: Vec<(String, String)>)
        requires
            spec_header_lines_ok(spec_header_lines(s.spec_bytes()), ignore.spec_bytes(), true),
        ensures
            crate::pairmap::unique_keys(r@),
            all_ascii(s.spec_bytes()) ==> crate::pairmap::spec_pair_map(r@)
                =~= spec_ascii_header_map(
                spec_header_pairs(spec_header_lines(s.spec_bytes()), ignore.spec_bytes(), true),
            ),
    {
        let bytes = s.as_bytes();
        let pieces = crate::bytes::split_on_byte(bytes, 0x0a);
        let ghost lines = spec_header_lines(s.spec_bytes());
        let ghost ig = ignore.spec_bytes();
        let ghost pairs = spec_header_pairs(lines, ig, true);
        let mut out: Vec<(String, String)> = Vec::new();
        let ghost mut taken: int = 0;
        let mut check = true;
        let n = pieces.len();
        let mut i: usize = 0;
        proof {
            assert(lines.skip(0) =~= lines);
            assert(pairs.skip(0) =~= pairs);
            assert(pairs.take(0) =~= Seq::<(Seq<u8>, Seq<u8>)>::empty());
            assert(crate::pairmap::spec_pair_map(out@) =~= spec_ascii_header_map(pairs.take(0)));
        }
        while i < n
            invariant
                0 <= i <= n,
                n == pieces@.len(),
                pieces.deep_view() == spec_split(s.spec_bytes(), 0x0au8),
                lines == spec_header_lines(s.spec_bytes()),
                ig == ignore.spec_bytes(),
                pairs == spec_header_pairs(lines, ig, true),
                lines.len() == n,
                forall|j: int| 0 <= j < n ==> lines[j] == strip_cr(pieces.deep_view()[j]),
                spec_header_lines_ok(lines, ig, true),
                spec_header_lines_ok(lines.skip(i as int), ig, check),
                crate::pairmap::unique_keys(out@),
                ({
                    let rest = spec_header_pairs(lines.skip(i as int), ig, check);
                    &&& 0 <= taken <= pairs.len()
                    &&& pairs.len() == taken + rest.len()
                    &&& pairs.skip(taken) == rest
                }),
                all_ascii(s.spec_bytes()) ==> crate::pairmap::spec_pair_map(out@)
                    =~= spec_ascii_header_map(pairs.take(taken)),
            decreases n - i,
        {
            let piece: &Vec<u8> = &pieces[i];
            let pl = piece.len();
            proof {
                assert(pieces.deep_view()[i as int] == pieces@[i as int]@);
                assert(lines[i as int] == strip_cr(pieces@[i as int]@));
            }
            let line: &[u8] = if pl > 0 && piece[pl - 1] == 13 {
                vstd::slice::slice_subrange(piece.as_slice(), 0, pl - 1)
            } else {
                vstd::slice::slice_subrange(piece.as_slice(), 0, pl)
            };
            proof {
                assert(line@ =~= lines[i as int]);
                assert(lines.skip(i as int).first() == lines[i as int]);
                assert(lines.skip(i as int).drop_first() =~= lines.skip(i + 1));
            }
            if !line_contains(line, ignore.as_bytes()) {
                if crate::bytes::starts_with(line, dash_pat().as_slice()) {
                    check = false;
                }
                if check {
                    if line.len() == 0 {
                        proof {
                            assert(pairs.take(taken) =~= pairs);
                        }
                        return out;
                    }
                    let colon = match find_first(line, 0x3a) {
                        Some(c) => c,
                        None => {
                            proof {
                                assert(false);
                            }
                            0
                        },
                    };
                    let key = crate::request::bytes_to_string_lossy(
                        vstd::slice::slice_subrange(line, 0, colon),
                    );
                    let line_len = line.len();
                    let value = crate::request::bytes_to_string_lossy(
                        vstd::slice::slice_subrange(line, colon, line_len),
                    );
                    proof {
                        assert(line@.subrange(0, colon as int) =~= lines[i as int].take(
                            colon as int,
                        ));
                        assert(line@.subrange(colon as int, line@.len() as int)
                            =~= lines[i as int].skip(colon as int));
                        let rest = spec_header_pairs(lines.skip(i as int), ig, check);
                        assert(rest.first() == (lines[i as int].take(
                            first_index_of(lines[i as int], 0x3au8).unwrap(),
                        ), lines[i as int].skip(first_index_of(lines[i as int], 0x3au8).unwrap())));
                        assert(pairs[taken] == rest.first());
                        if all_ascii(s.spec_bytes()) {
                            crate::bytes::lemma_split_all_ascii(s.spec_bytes(), 0x0au8);
                            assert(all_ascii(pieces.deep_view()[i as int]));
                            let li = lines[i as int];
                            assert forall|k: int| 0 <= k < li.len() implies #[trigger] li[k]
                                < 0x80 by {
                                assert(li[k] == pieces.deep_view()[i as int][k]);
                            }
                            assert(all_ascii(li));
                            assert(all_ascii(pairs[taken].0));
                            assert(all_ascii(pairs[taken].1));
                            assert(key@ == ascii_chars_of(pairs[taken].0));
                            assert(value@ == ascii_chars_of(pairs[taken].1));
                        }
                    }
                    let ghost out0 = out@;
                    out = crate::pairmap::upsert(out, key.as_str(), value.as_str());
                    proof {
                        let rest = spec_header_pairs(lines.skip(i as int), ig, check);
                        if all_ascii(s.spec_bytes()) {
                            assert(pairs.take(taken + 1).drop_last() =~= pairs.take(taken));
                            assert(pairs.take(taken + 1).last() == pairs[taken]);
                            assert(spec_ascii_header_map(pairs.take(taken + 1))
                                =~= spec_ascii_header_map(pairs.take(taken)).insert(
                                ascii_chars_of(pairs[taken].0),
                                ascii_chars_of(pairs[taken].1),
                            ));
                            assert(crate::pairmap::spec_pair_map(out@)
                                =~= crate::pairmap::spec_pair_map(out0).insert(key@, value@));
                            assert(crate::pairmap::spec_pair_map(out@) =~= spec_ascii_header_map(
                                pairs.take(taken + 1),
                            ));
                        }
                        assert(pairs.skip(taken) == rest);
                        assert(rest.skip(1) =~= spec_header_pairs(lines.skip(i + 1), ig, check));
                        assert(pairs.skip(taken).skip(1) =~= pairs.skip(taken + 1));
                        taken = taken + 1;
                        assert(pairs.skip(taken) =~= spec_header_pairs(
                            lines.skip(i + 1),
                            ig,
                            check,
                        ));
                    }
                }
            }
            i = i + 1;
        }
        proof {
            assert(lines.skip(n as int) =~= Seq::<Seq<u8>>::empty());
            assert(pairs.take(taken) =~= pairs);
        }
        out
    }
}

/// The collected header pairs of an ASCII block, read as a map of
/// characters: later pairs win, as repeated map insertion has it.
pub open spec fn spec_ascii_header_map(ps: Seq<(Seq<u8>, Seq<u8>)>) -> Map<Seq<char>, Seq<char>>
    decreases ps.len(),
{
    if ps.len() == 0 {
        Map::empty()
    } else {
        spec_ascii_header_map(ps.drop_last()).insert(
            ascii_chars_of(ps.last().0),
            ascii_chars_of(ps.last().1),
        )
    }
}

/// The lines of a header block: split at `\n`, trailing carriage returns
/// stripped.
pub open spec fn spec_header_lines(bytes: Seq<u8>) -> Seq<Seq<u8>> {
    spec_split(bytes, 0x0au8).map_values(|l: Seq<u8>| strip_cr(l))
}

/// Whether a line contains `ignore` (an empty `ignore` is contained
/// everywhere, as `str::contains` has it).
pub open spec fn spec_line_contains(l: Seq<u8>, ig: Seq<u8>) -> bool {
    ig.len() == 0 || spec_find(l, ig) is Some
}

/// Check `spec_line_contains`.
fn line_contains(l: &[u8], ig: &[u8]) -> (r: bool)
    ensures
        r == spec_line_contains(l@, ig@),
{
    if ig.len() == 0 {
        return true;
    }
    match crate::bytes::find_sub(l, ig) {
        Some(_) => true,
        None => false,
    }
}

/// `"-"` as an owned buffer.
fn dash_pat() -> (r: Vec<u8>)
    ensures
        r@ == seq![0x2du8],
{
    let mut r: Vec<u8> = Vec::new();
    r.push(0x2d);
    proof {
        assert(r@ =~= seq![0x2du8]);
    }
    r
}

/// What `get_header` demands of the lines it will process: each processed
/// non-empty line carries a colon.
pub open spec fn spec_header_lines_ok(lines: Seq<Seq<u8>>, ig: Seq<u8>, check: bool) -> bool
    decreases lines.len(),
{
    if lines.len() == 0 {
        true
    } else {
        let l = lines.first();
        if spec_line_contains(l, ig) {
            spec_header_lines_ok(lines.drop_first(), ig, check)
        } else {
            let check2 = if seq![0x2du8].is_prefix_of(l) {
                false
            } else {
                check
            };
            if check2 {
                if l.len() == 0 {
                    true
                } else {
                    first_index_of(l, 0x3au8) is Some && spec_header_lines_ok(
                        lines.drop_first(),
                        ig,
                        check2,
                    )
                }
            } else {
                spec_header_lines_ok(lines.drop_first(), ig, check2)
            }
        }
    }
}

/// The header pairs `get_header` collects from the lines: for each
/// processed line, the text before its first colon and the rest of the
/// line; collection stops at the first processed empty line and is switched
/// off by a line starting with `-`.
pub open spec fn spec_header_pairs(lines: Seq<Seq<u8>>, ig: Seq<u8>, check: bool) -> Seq<
    (Seq<u8>, Seq<u8>),
>
    decreases lines.len(),
{
    if lines.len() == 0 {
        Seq::empty()
    } else {
        let l = lines.first();
        if spec_line_contains(l, ig) {
            spec_header_pairs(lines.drop_first(), ig, check)
        } else {
            let check2 = if seq![0x2du8].is_prefix_of(l) {
                false
            } else {
                check
            };
            if check2 {
                if l.len() == 0 {
                    Seq::empty()
                } else {
                    seq![
                        (l.take(first_index_of(l, 0x3au8).unwrap()), l.skip(
                            first_index_of(l, 0x3au8).unwrap(),
                        )),
                    ] + spec_header_pairs(lines.drop_first(), ig, check2)
                }
            } else {
                spec_header_pairs(lines.drop_first(), ig, check2)
            }
        }
    }
}

} // verus!
