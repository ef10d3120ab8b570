//! Request headers, and which of them a proxy passes on.
//!
//! A header that applies to one hop only is not passed upstream: the fixed
//! hop-by-hop headers of HTTP/1.1, every header that a `Connection` header
//! of the request names, and the `X-Aether-` headers that carry the
//! credentials of the request.

use vstd::prelude::*;
use vstd::string::StringSliceAdditionalSpecFns;
use crate::bytes_text::{eq_ignoring_case, lower, same_ignoring_case, to_lower_byte};

verus! {

pub const COMMA: u8 = 44;

/// One header line: a name and a value, as they came over the wire.
#[derive(Debug, PartialEq, Eq)]
pub struct Header {
    pub name: Vec<u8>,
    pub value: Vec<u8>,
}

/// A header as plain mathematical values.
pub struct HeaderView {
    pub name: Seq<u8>,
    pub value: Seq<u8>,
}

impl View for Header {
    type V = HeaderView;

    open spec fn view(&self) -> HeaderView {
        HeaderView { name: self.name@, value: self.value@ }
    }
}

/// The views of a list of headers.
pub open spec fn header_views(headers: Seq<Header>) -> Seq<HeaderView> {
    Seq::new(headers.len(), |i: int| headers[i]@)
}

/// Whether `b` is a space or a tab.
pub open spec fn is_gap(b: u8) -> bool {
    b == 32 || b == 9
}

/// `s` without the spaces and tabs at its start.
pub open spec fn skip_gaps(s: Seq<u8>) -> Seq<u8>
    decreases s.len(),
{
    if s.len() > 0 && is_gap(s[0]) {
        skip_gaps(s.drop_first())
    } else {
        s
    }
}

/// `s` without the spaces and tabs at its end.
pub open spec fn drop_gaps(s: Seq<u8>) -> Seq<u8>
    decreases s.len(),
{
    if s.len() > 0 && is_gap(s.last()) {
        drop_gaps(s.drop_last())
    } else {
        s
    }
}

/// `s` without the spaces and tabs around it.
pub open spec fn token(s: Seq<u8>) -> Seq<u8> {
    drop_gaps(skip_gaps(s))
}

/// Whether one of the comma-separated tokens of `value`, from the token that
/// starts at `start`, is `name` in any case of letters. The text from
/// `start` up to `at` holds no comma.
pub open spec fn lists_from(value: Seq<u8>, name: Seq<u8>, start: int, at: int) -> bool
    decreases value.len() - at,
{
    if at < 0 || at >= value.len() {
        same_ignoring_case(token(value.subrange(start, value.len() as int)), name)
    } else if value[at] == COMMA {
        same_ignoring_case(token(value.subrange(start, at)), name) || lists_from(
            value,
            name,
            at + 1,
            at + 1,
        )
    } else {
        lists_from(value, name, start, at + 1)
    }
}

/// Whether `name` is one of the comma-separated tokens of `value`, in any
/// case of letters.
pub open spec fn lists(value: Seq<u8>, name: Seq<u8>) -> bool {
    lists_from(value, name, 0, 0)
}

/// Whether `name` is the header name `word`, in any case of letters.
pub open spec fn is_named(name: Seq<u8>, word: &str) -> bool {
    same_ignoring_case(name, word.spec_bytes())
}

/// Whether a `Connection` header of the request names `name`.
pub open spec fn named_by_connection(headers: Seq<HeaderView>, name: Seq<u8>) -> bool {
    exists|i: int|
        0 <= i < headers.len() && is_named((#[trigger] headers[i]).name, "connection") && lists(
            headers[i].value,
            name,
        )
}

/// Whether `name` is one of the fixed hop-by-hop headers.
pub open spec fn is_fixed_hop_header(name: Seq<u8>) -> bool {
    ||| is_named(name, "connection")
    ||| is_named(name, "keep-alive")
    ||| is_named(name, "proxy-authenticate")
    ||| is_named(name, "proxy-authorization")
    ||| is_named(name, "te")
    ||| is_named(name, "trailer")
    ||| is_named(name, "transfer-encoding")
    ||| is_named(name, "upgrade")
}

/// Whether `name` starts with `prefix`, in any case of letters.
pub open spec fn starts_with_ignoring_case(name: Seq<u8>, prefix: Seq<u8>) -> bool {
    name.len() >= prefix.len() && same_ignoring_case(name.take(prefix.len() as int), prefix)
}

/// Whether `name` is a header of the proxy's own, which starts with
/// `X-Aether-`.
pub open spec fn is_credential_header(name: Seq<u8>) -> bool {
    starts_with_ignoring_case(name, "x-aether-".spec_bytes())
}

/// Whether the header `name` of a request with `headers` stays on this hop.
pub open spec fn is_hop_by_hop(headers: Seq<HeaderView>, name: Seq<u8>) -> bool {
    ||| is_fixed_hop_header(name)
    ||| named_by_connection(headers, name)
    ||| is_credential_header(name)
}

/// The headers that are passed upstream: those that do not stay on this
/// hop, in their order, each as it came.
pub open spec fn forwarded(headers: Seq<HeaderView>) -> Seq<HeaderView> {
    headers.filter(|h: HeaderView| !is_hop_by_hop(headers, h.name))
}

/// The value of the first header with the name `word`, in any case of
/// letters.
pub open spec fn first_named(headers: Seq<HeaderView>, word: &str) -> Option<Seq<u8>>
    decreases headers.len(),
{
    if headers.len() == 0 {
        None
    } else if is_named(headers[0].name, word) {
        Some(headers[0].value)
    } else {
        first_named(headers.drop_first(), word)
    }
}

/// The part of `s` from `start` to `end`, without the spaces and tabs around
/// it, as positions in `s`.
fn token_bounds(s: &[u8], start: usize, end: usize) -> (bounds: (usize, usize))
    requires
        start <= end <= s.len(),
    ensures
        start <= bounds.0 <= bounds.1 <= end,
        s@.subrange(bounds.0 as int, bounds.1 as int) == token(
            s@.subrange(start as int, end as int),
        ),
{
    let mut lo: usize = start;
    while lo < end && (s[lo] == 32 || s[lo] == 9)
        invariant
            start <= lo <= end <= s.len(),
            skip_gaps(s@.subrange(start as int, end as int)) == skip_gaps(
                s@.subrange(lo as int, end as int),
            ),
        decreases end - lo,
    {
        assert(s@.subrange(lo as int, end as int).drop_first() =~= s@.subrange(
            lo + 1,
            end as int,
        ));
        lo += 1;
    }
    assert(skip_gaps(s@.subrange(lo as int, end as int)) == s@.subrange(lo as int, end as int));
    let mut hi: usize = end;
    while hi > lo && (s[hi - 1] == 32 || s[hi - 1] == 9)
        invariant
            lo <= hi <= end <= s.len(),
            drop_gaps(s@.subrange(lo as int, end as int)) == drop_gaps(
                s@.subrange(lo as int, hi as int),
            ),
        decreases hi - lo,
    {
        assert(s@.subrange(lo as int, hi as int).drop_last() =~= s@.subrange(lo as int, hi - 1));
        hi -= 1;
    }
    assert(drop_gaps(s@.subrange(lo as int, hi as int)) == s@.subrange(lo as int, hi as int));
    (lo, hi)
}

/// Whether the part of `s` from `from` to `to` is `word` in any case of
/// letters.
fn part_is(s: &[u8], from: usize, to: usize, word: &[u8]) -> (same: bool)
    requires
        from <= to <= s.len(),
    ensures
        same == same_ignoring_case(s@.subrange(from as int, to as int), word@),
{
    let ghost part = s@.subrange(from as int, to as int);
    if to - from != word.len() {
        assert(lower(part).len() != lower(word@).len());
        return false;
    }
    let mut i: usize = 0;
    while i < word.len()
        invariant
            i <= word.len(),
            from <= to <= s.len(),
            to - from == word.len(),
            part == s@.subrange(from as int, to as int),
            forall|k: int| 0 <= k < i ==> lower(part)[k] == lower(word@)[k],
        decreases word.len() - i,
    {
        if to_lower_byte(s[from + i]) != to_lower_byte(word[i]) {
            assert(lower(part)[i as int] != lower(word@)[i as int]);
            return false;
        }
        i += 1;
    }
    assert(lower(part) =~= lower(word@));
    true
}

/// Whether `name` is one of the comma-separated tokens of `value`.
pub fn value_lists(value: &[u8], name: &[u8]) -> (listed: bool)
    ensures
        listed == lists(value@, name@),
{
    let mut start: usize = 0;
    let mut at: usize = 0;
    while at < value.len()
        invariant
            start <= at <= value.len(),
            lists(value@, name@) == lists_from(value@, name@, start as int, at as int),
        decreases value.len() - at,
    {
        if value[at] == COMMA {
            let (lo, hi) = token_bounds(value, start, at);
            if part_is(value, lo, hi, name) {
                return true;
            }
            start = at + 1;
        }
        at += 1;
    }
    let (lo, hi) = token_bounds(value, start, value.len());
    part_is(value, lo, hi, name)
}

/// Whether a `Connection` header among `headers` names `name`.
pub fn connection_names(headers: &Vec<Header>, name: &[u8]) -> (named: bool)
    ensures
        named == named_by_connection(header_views(headers@), name@),
{
    let mut i: usize = 0;
    while i < headers.len()
        invariant
            i <= headers.len(),
            forall|k: int|
                0 <= k < i ==> !(is_named((#[trigger] header_views(headers@)[k]).name, "connection")
                    && lists(header_views(headers@)[k].value, name@)),
        decreases headers.len() - i,
    {
        assert(header_views(headers@)[i as int] == headers@[i as int]@);
        if eq_ignoring_case(headers[i].name.as_slice(), "connection".as_bytes()) && value_lists(
            headers[i].value.as_slice(),
            name,
        ) {
            return true;
        }
        i += 1;
    }
    false
}

/// Whether `name` is one of the fixed hop-by-hop headers.
pub fn is_fixed_hop(name: &[u8]) -> (fixed: bool)
    ensures
        fixed == is_fixed_hop_header(name@),
{
    eq_ignoring_case(name, "connection".as_bytes()) || eq_ignoring_case(
        name,
        "keep-alive".as_bytes(),
    ) || eq_ignoring_case(name, "proxy-authenticate".as_bytes()) || eq_ignoring_case(
        name,
        "proxy-authorization".as_bytes(),
    ) || eq_ignoring_case(name, "te".as_bytes()) || eq_ignoring_case(name, "trailer".as_bytes())
        || eq_ignoring_case(name, "transfer-encoding".as_bytes()) || eq_ignoring_case(
        name,
        "upgrade".as_bytes(),
    )
}

/// Whether `name` starts with `X-Aether-`.
pub fn is_credential(name: &[u8]) -> (own: bool)
    ensures
        own == is_credential_header(name@),
{
    let prefix = "x-aether-".as_bytes();
    if name.len() < prefix.len() {
        return false;
    }
    assert(name@.subrange(0, prefix@.len() as int) =~= name@.take(prefix@.len() as int));
    part_is(name, 0, prefix.len(), prefix)
}

/// Whether the header `name` of a request with `headers` stays on this hop.
pub fn stays_on_hop(headers: &Vec<Header>, name: &[u8]) -> (stays: bool)
    ensures
        stays == is_hop_by_hop(header_views(headers@), name@),
{
    is_fixed_hop(name) || connection_names(headers, name) || is_credential(name)
}

/// A copy of a header.
fn copy_header(h: &Header) -> (copy: Header)
    ensures
        copy@ == h@,
{
    Header { name: h.name.clone(), value: h.value.clone() }
}

/// The headers that are passed upstream.
pub fn strip_hop_by_hop(headers: &Vec<Header>) -> (kept: Vec<Header>)
    ensures
        header_views(kept@) == forwarded(header_views(headers@)),
{
    let ghost all = header_views(headers@);
    let ghost keep = |h: HeaderView| !is_hop_by_hop(all, h.name);
    let mut kept: Vec<Header> = Vec::new();
    let mut i: usize = 0;
    proof {
        reveal(Seq::filter);
        assert(header_views(kept@) =~= all.take(0).filter(keep));
    }
    while i < headers.len()
        invariant
            i <= headers.len(),
            all == header_views(headers@),
            keep == (|h: HeaderView| !is_hop_by_hop(all, h.name)),
            header_views(kept@) == all.take(i as int).filter(keep),
        decreases headers.len() - i,
    {
        let ghost before = header_views(kept@);
        proof {
            reveal(Seq::filter);
            assert(all.take(i + 1).drop_last() =~= all.take(i as int));
            assert(all.take(i + 1).last() == headers@[i as int]@);
        }
        if !stays_on_hop(headers, headers[i].name.as_slice()) {
            kept.push(copy_header(&headers[i]));
            assert(header_views(kept@) =~= before.push(headers@[i as int]@));
        }
        i += 1;
    }
    assert(all.take(headers.len() as int) =~= all);
    kept
}

/// The value of the first header with the name `word`, in any case of
/// letters.
pub fn find_header(headers: &Vec<Header>, word: &str) -> (value: Option<Vec<u8>>)
    ensures
        match value {
            Some(v) => first_named(header_views(headers@), word) == Some(v@),
            None => first_named(header_views(headers@), word) is None,
        },
{
    let ghost all = header_views(headers@);
    let mut i: usize = 0;
    assert(all.skip(0) =~= all);
    while i < headers.len()
        invariant
            i <= headers.len(),
            all == header_views(headers@),
            first_named(all, word) == first_named(all.skip(i as int), word),
        decreases headers.len() - i,
    {
        assert(all.skip(i as int).drop_first() =~= all.skip(i + 1));
        assert(all.skip(i as int)[0] == headers@[i as int]@);
        if eq_ignoring_case(headers[i].name.as_slice(), word.as_bytes()) {
            return Some(headers[i].value.clone());
        }
        i += 1;
    }
    None
}

/// No header that is passed upstream stays on this hop: none is a fixed
/// hop-by-hop header, none is named by a `Connection` header of the request,
/// and none starts with `X-Aether-`. Every other header of the request is
/// passed on.
pub proof fn forwarded_headers_are_end_to_end(headers: Seq<HeaderView>)
    ensures
        forall|k: int|
            0 <= k < forwarded(headers).len() ==> !is_hop_by_hop(
                headers,
                (#[trigger] forwarded(headers)[k]).name,
            ),
        forall|k: int|
            0 <= k < forwarded(headers).len() ==> headers.contains(#[trigger] forwarded(headers)[k]),
        forall|i: int|
            0 <= i < headers.len() && !is_hop_by_hop(headers, (#[trigger] headers[i]).name)
                ==> forwarded(headers).contains(headers[i]),
{
    let keep = |h: HeaderView| !is_hop_by_hop(headers, h.name);
    assert forall|k: int| 0 <= k < forwarded(headers).len() implies !is_hop_by_hop(
        headers,
        (#[trigger] forwarded(headers)[k]).name,
    ) by {
        headers.lemma_filter_pred(keep, k);
    }
    assert forall|k: int| 0 <= k < forwarded(headers).len() implies headers.contains(
        #[trigger] forwarded(headers)[k],
    ) by {
        headers.lemma_filter_contains_rev(keep, forwarded(headers)[k]);
    }
    assert forall|i: int|
        0 <= i < headers.len() && !is_hop_by_hop(
            headers,
            (#[trigger] headers[i]).name,
        ) implies forwarded(headers).contains(headers[i]) by {
        headers.lemma_filter_contains(keep, i);
    }
}

} // verus!
