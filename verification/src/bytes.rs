//! Byte-sequence helpers for the wire-facing code: equality, prefix tests,
//! substring search, whitespace trimming and splitting, each with an exact
//! sequence-level contract.
use vstd::prelude::*;
use vstd::slice::{slice_subrange, slice_to_vec};

verus! {

/// Byte-for-byte equality of two slices.
pub fn bytes_eq(a: &[u8], b: &[u8]) -> (r: bool)
    ensures
        r == (a@ == b@),
{
    if a.len() != b.len() {
        assert(a@ != b@);
        return false;
    }
    let mut i: usize = 0;
    while i < a.len()
        invariant
            0 <= i <= a@.len(),
            a@.len() == b@.len(),
            forall|k: int| 0 <= k < i ==> a@[k] == b@[k],
        decreases a@.len() - i,
    {
        if a[i] != b[i] {
            return false;
        }
        i = i + 1;
    }
    proof {
        assert(a@ =~= b@);
    }
    true
}

/// Whether `p` is a prefix of `s`.
pub fn starts_with(s: &[u8], p: &[u8]) -> (r: bool)
    ensures
        r == p@.is_prefix_of(s@),
{
    if p.len() > s.len() {
        return false;
    }
    let head = slice_subrange(s, 0, p.len());
    let r = bytes_eq(head, p);
    proof {
        assert(head@ == s@.subrange(0, p@.len() as int));
        assert(p@.is_prefix_of(s@) == (p@ == head@));
    }
    r
}

/// First position of byte `b` in `s`, if any.
pub fn find_byte(s: &[u8], b: u8) -> (r: Option<usize>)
    ensures
        r matches Some(i) ==> 0 <= i < s@.len() && s@[i as int] == b && (forall|j: int|
            0 <= j < i ==> s@[j] != b),
        r is None ==> forall|j: int| 0 <= j < s@.len() ==> s@[j] != b,
{
    let mut i: usize = 0;
    while i < s.len()
        invariant
            0 <= i <= s@.len(),
            forall|j: int| 0 <= j < i ==> s@[j] != b,
        decreases s@.len() - i,
    {
        if s[i] == b {
            return Some(i);
        }
        i = i + 1;
    }
    None
}

/// Whether `pat` occurs in `s` at position `i`.
pub open spec fn match_at(s: Seq<u8>, pat: Seq<u8>, i: int) -> bool {
    0 <= i && i + pat.len() <= s.len() && s.subrange(i, i + pat.len() as int) == pat
}

/// Position of the leftmost occurrence of `pat` in `s`, if any.
pub open spec fn spec_find(s: Seq<u8>, pat: Seq<u8>) -> Option<int>
    decreases s.len(),
{
    if pat.len() == 0 || s.len() < pat.len() {
        None
    } else if s.subrange(0, pat.len() as int) == pat {
        Some(0)
    } else {
        match spec_find(s.skip(1), pat) {
            Option::None => None,
            Option::Some(j) => Some(j + 1),
        }
    }
}

/// `spec_find` returns the first match: a match at its result and none
/// before it, and no match at all when it returns `None`.
pub proof fn lemma_spec_find_first(s: Seq<u8>, pat: Seq<u8>)
    requires
        pat.len() > 0,
    ensures
        spec_find(s, pat) matches Some(i) ==> match_at(s, pat, i) && (forall|j: int|
            0 <= j < i ==> !match_at(s, pat, j)),
        spec_find(s, pat) is None ==> forall|j: int| !match_at(s, pat, j),
    decreases s.len(),
{
    if s.len() < pat.len() {
        assert(forall|j: int| !match_at(s, pat, j));
    } else if s.subrange(0, pat.len() as int) == pat {
        assert(match_at(s, pat, 0));
    } else {
        lemma_spec_find_first(s.skip(1), pat);
        assert forall|j: int| 1 <= j implies match_at(s, pat, j) == match_at(
            s.skip(1),
            pat,
            j - 1,
        ) by {
            if j + pat.len() <= s.len() {
                assert(s.skip(1).subrange(j - 1, j - 1 + pat.len() as int) =~= s.subrange(
                    j,
                    j + pat.len() as int,
                ));
            }
        }
        assert(!match_at(s, pat, 0));
    }
}

/// Find the leftmost occurrence of `pat` in `s`.
pub fn find_sub(s: &[u8], pat: &[u8]) -> (r: Option<usize>)
    requires
        pat@.len() > 0,
    ensures
        r matches Some(i) ==> spec_find(s@, pat@) == Some(i as int) && i + pat@.len() <= s@.len(),
        r is None ==> spec_find(s@, pat@) is None,
{
    if s.len() < pat.len() {
        return None;
    }
    let mut i: usize = 0;
    let end = s.len() - pat.len();
    proof {
        assert(s@.skip(0) =~= s@);
    }
    while i <= end
        invariant
            0 <= i <= end + 1,
            end == s@.len() - pat@.len(),
            s@.len() >= pat@.len(),
            pat@.len() > 0,
            s@.len() <= usize::MAX,
            spec_find(s@, pat@) matches Some(k) ==> spec_find(s@.skip(i as int), pat@) == Some(
                k - i,
            ),
            spec_find(s@, pat@) is None ==> spec_find(s@.skip(i as int), pat@) is None,
        decreases end + 1 - i,
    {
        let w = slice_subrange(s, i, i + pat.len());
        if bytes_eq(w, pat) {
            proof {
                assert(s@.skip(i as int).subrange(0, pat@.len() as int) =~= s@.subrange(
                    i as int,
                    i + pat@.len(),
                ));
                assert(spec_find(s@.skip(i as int), pat@) == Some(0int));
            }
            return Some(i);
        }
        proof {
            let tail = s@.skip(i as int);
            assert(tail.subrange(0, pat@.len() as int) =~= s@.subrange(i as int, i + pat@.len()));
            assert(tail.subrange(0, pat@.len() as int) != pat@);
            assert(tail.skip(1) =~= s@.skip(i + 1));
        }
        i = i + 1;
    }
    proof {
        let tail = s@.skip(i as int);
        assert(tail.len() < pat@.len());
        assert(spec_find(tail, pat@) is None);
    }
    None
}


/// Bytes below `0x80`.
pub open spec fn all_ascii(s: Seq<u8>) -> bool {
    forall|i: int| 0 <= i < s.len() ==> #[trigger] s[i] < 0x80
}

/// ASCII bytes read as characters.
pub open spec fn ascii_chars_of(s: Seq<u8>) -> Seq<char> {
    Seq::new(s.len(), |i: int| s[i] as char)
}

/// Splitting ASCII bytes yields ASCII pieces.
pub proof fn lemma_split_all_ascii(s: Seq<u8>, sep: u8)
    requires
        all_ascii(s),
    ensures
        forall|i: int|
            0 <= i < spec_split(s, sep).len() ==> all_ascii(#[trigger] spec_split(s, sep)[i]),
    decreases s.len(),
{
    lemma_first_index_of(s, sep);
    match first_index_of(s, sep) {
        Option::None => {},
        Option::Some(idx) => {
            assert(all_ascii(s.skip(idx + 1)));
            lemma_split_all_ascii(s.skip(idx + 1), sep);
            let pieces = spec_split(s, sep);
            let rest = spec_split(s.skip(idx + 1), sep);
            assert forall|i: int| 0 <= i < pieces.len() implies all_ascii(#[trigger] pieces[i]) by {
                if i == 0 {
                    assert(all_ascii(s.subrange(0, idx)));
                } else {
                    assert(pieces[i] == rest[i - 1]);
                }
            }
        },
    }
}

/// ASCII whitespace, as `str::trim` treats it on ASCII text.
pub open spec fn is_ascii_ws(b: u8) -> bool {
    b == 0x20 || (0x09 <= b <= 0x0d)
}

/// `s` without leading whitespace.
pub open spec fn trim_front(s: Seq<u8>) -> Seq<u8>
    decreases s.len(),
{
    if s.len() > 0 && is_ascii_ws(s[0]) {
        trim_front(s.skip(1))
    } else {
        s
    }
}

/// `s` without trailing whitespace.
pub open spec fn trim_back(s: Seq<u8>) -> Seq<u8>
    decreases s.len(),
{
    if s.len() > 0 && is_ascii_ws(s.last()) {
        trim_back(s.drop_last())
    } else {
        s
    }
}

/// `s` without leading and trailing whitespace.
pub open spec fn spec_trim(s: Seq<u8>) -> Seq<u8> {
    trim_back(trim_front(s))
}

/// Trim ASCII whitespace from both ends.
pub fn trim(s: &[u8]) -> (r: &[u8])
    ensures
        r@ == spec_trim(s@),
{
    proof {
        assert(s@.skip(0) =~= s@);
    }
    let mut i: usize = 0;
    while i < s.len() && is_ws_byte(s[i])
        invariant
            0 <= i <= s@.len(),
            trim_front(s@) == trim_front(s@.skip(i as int)),
        decreases s@.len() - i,
    {
        proof {
            assert(s@.skip(i as int).skip(1) =~= s@.skip(i + 1));
        }
        i = i + 1;
    }
    proof {
        assert(trim_front(s@.skip(i as int)) =~= s@.skip(i as int));
    }
    let mut j: usize = s.len();
    while j > i && is_ws_byte(s[j - 1])
        invariant
            i <= j <= s@.len(),
            trim_front(s@) == s@.skip(i as int),
            trim_back(s@.subrange(i as int, s@.len() as int)) == trim_back(
                s@.subrange(i as int, j as int),
            ),
        decreases j,
    {
        proof {
            assert(s@.subrange(i as int, j as int).drop_last() =~= s@.subrange(
                i as int,
                j - 1 as int,
            ));
        }
        j = j - 1;
    }
    proof {
        let t = s@.subrange(i as int, j as int);
        if t.len() > 0 {
            assert(!is_ascii_ws(t.last()));
        }
        assert(trim_back(t) =~= t);
        assert(s@.skip(i as int) =~= s@.subrange(i as int, s@.len() as int));
    }
    slice_subrange(s, i, j)
}

/// Whether the byte is ASCII whitespace.
pub fn is_ws_byte(b: u8) -> (r: bool)
    ensures
        r == is_ascii_ws(b),
{
    b == 0x20 || (0x09 <= b && b <= 0x0d)
}

/// The pieces of `s` between occurrences of `sep`, in order; an empty input
/// yields one empty piece, as `str::split` does.
pub open spec fn spec_split(s: Seq<u8>, sep: u8) -> Seq<Seq<u8>>
    decreases s.len(),
{
    match first_index_of(s, sep) {
        Option::None => seq![s],
        Option::Some(i) => if 0 <= i < s.len() {
            seq![s.subrange(0, i)] + spec_split(s.skip(i + 1), sep)
        } else {
            seq![s]
        },
    }
}

/// Position of the first occurrence of `sep` in `s`.
pub open spec fn first_index_of(s: Seq<u8>, sep: u8) -> Option<int>
    decreases s.len(),
{
    if s.len() == 0 {
        None
    } else if s[0] == sep {
        Some(0)
    } else {
        match first_index_of(s.skip(1), sep) {
            Option::None => None,
            Option::Some(i) => Some(i + 1),
        }
    }
}

/// `find_byte` computes `first_index_of`.
pub proof fn lemma_first_index_of(s: Seq<u8>, sep: u8)
    ensures
        first_index_of(s, sep) matches Some(i) ==> 0 <= i < s.len() && s[i] == sep && (forall|
            j: int,
        |
            0 <= j < i ==> s[j] != sep),
        first_index_of(s, sep) is None ==> forall|j: int| 0 <= j < s.len() ==> s[j] != sep,
    decreases s.len(),
{
    if s.len() > 0 && s[0] != sep {
        lemma_first_index_of(s.skip(1), sep);
        match first_index_of(s.skip(1), sep) {
            Option::None => {
                assert forall|j: int| 0 <= j < s.len() implies s[j] != sep by {
                    if j > 0 {
                        assert(s.skip(1)[j - 1] != sep);
                    }
                }
            },
            Option::Some(i2) => {
                assert(s[i2 + 1] == s.skip(1)[i2]);
                assert forall|j: int| 0 <= j < i2 + 1 implies s[j] != sep by {
                    if j > 0 {
                        assert(s.skip(1)[j - 1] != sep);
                    }
                }
            },
        }
    }
}

/// Split `s` at every occurrence of `sep`.
pub fn split_on_byte(s: &[u8], sep: u8) -> (r: Vec<Vec<u8>>)
    ensures
        r.deep_view() == spec_split(s@, sep),
    decreases s@.len(),
{
    let mut out: Vec<Vec<u8>> = Vec::new();
    let mut rest: &[u8] = s;
    proof {
        assert(out.deep_view() + spec_split(rest@, sep) =~~= spec_split(s@, sep));
    }
    loop
        invariant
            spec_split(s@, sep) == out.deep_view() + spec_split(rest@, sep),
        decreases rest@.len(),
    {
        match find_byte(rest, sep) {
            Some(i) => {
                proof {
                    lemma_first_index_of(rest@, sep);
                    match first_index_of(rest@, sep) {
                        Option::None => {
                            assert(rest@[i as int] == sep);
                            assert(false);
                        },
                        Option::Some(fi) => {
                            if fi < i {
                                assert(rest@[fi] == sep);
                                assert(false);
                            }
                            if i < fi {
                                assert(rest@[i as int] != sep);
                                assert(false);
                            }
                        },
                    }
                }
                let piece = slice_subrange(rest, 0, i);
                out.push(slice_to_vec(piece));
                let rest_len = rest.len();
                let new_rest = slice_subrange(rest, i + 1, rest_len);
                proof {
                    assert(new_rest@ =~= rest@.skip(i + 1));
                    assert(out.deep_view() + spec_split(new_rest@, sep) =~~= spec_split(s@, sep));
                }
                rest = new_rest;
            },
            None => {
                proof {
                    lemma_first_index_of(rest@, sep);
                    match first_index_of(rest@, sep) {
                        Option::Some(fi) => {
                            assert(rest@[fi] == sep);
                            assert(false);
                        },
                        Option::None => {},
                    }
                }
                out.push(slice_to_vec(rest));
                proof {
                    assert(out.deep_view() =~~= spec_split(s@, sep));
                }
                return out;
            },
        }
    }
}


/// Position of the first occurrence of `b`, as `first_index_of` gives it.
pub fn find_first(s: &[u8], b: u8) -> (r: Option<usize>)
    ensures
        r matches Some(i) ==> first_index_of(s@, b) == Some(i as int) && i < s@.len(),
        r is None ==> first_index_of(s@, b) is None,
{
    let r = find_byte(s, b);
    proof {
        lemma_first_index_of(s@, b);
        match r {
            Option::Some(i) => {
                match first_index_of(s@, b) {
                    Option::None => {
                        assert(s@[i as int] == b);
                        assert(false);
                    },
                    Option::Some(fi) => {
                        if fi < i as int {
                            assert(s@[fi] == b);
                            assert(false);
                        }
                        if (i as int) < fi {
                            assert(s@[i as int] != b);
                            assert(false);
                        }
                    },
                }
            },
            Option::None => {
                match first_index_of(s@, b) {
                    Option::Some(fi) => {
                        assert(s@[fi] == b);
                        assert(false);
                    },
                    Option::None => {},
                }
            },
        }
    }
    r
}

} // verus!
