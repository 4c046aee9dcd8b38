use vstd::prelude::*;
use vstd::slice::slice_subrange;

use crate::bytes::{bytes_eq, starts_with};
use crate::file_ty::FileTy;

verus! {

/// The handler that an accepted connection runs.
#[derive(Clone, Copy, Debug, PartialEq, Eq, Structural)]
pub enum Endpoint {
    /// Store the stream's binary frames in a file.
    Store,
}

/// The byte `?`, which ends the route of a handshake path.
pub open spec fn question_mark() -> u8 {
    63u8
}

/// The byte `,`, which separates the fields of the query.
pub open spec fn comma() -> u8 {
    44u8
}

/// The route `/store`.
pub open spec fn store_route() -> Seq<u8> {
    seq![47u8, 115u8, 116u8, 111u8, 114u8, 101u8]
}

/// The prefix `ft=` of the field that names the stream kind.
pub open spec fn ft_prefix() -> Seq<u8> {
    seq![102u8, 116u8, 61u8]
}

/// The prefix `key=` of the field that carries the caller's key.
pub open spec fn key_prefix() -> Seq<u8> {
    seq![107u8, 101u8, 121u8, 61u8]
}

/// The first position at or after `k` where `s` holds `b`, or the length of
/// `s` where there is none.
pub open spec fn find_from(s: Seq<u8>, b: u8, k: int) -> int
    decreases s.len() - k,
{
    if k >= s.len() {
        s.len() as int
    } else if s[k] == b {
        k
    } else {
        find_from(s, b, k + 1)
    }
}

/// The position of the first `b` in `s`, or the length of `s`.
pub open spec fn first_pos(s: Seq<u8>, b: u8) -> int {
    find_from(s, b, 0)
}

/// What comes before the first `b` in `s`; all of `s` where it has none.
pub open spec fn head(s: Seq<u8>, b: u8) -> Seq<u8> {
    s.subrange(0, first_pos(s, b))
}

/// What comes after the first `b` in `s`, if it has one.
pub open spec fn tail(s: Seq<u8>, b: u8) -> Option<Seq<u8>> {
    if first_pos(s, b) < s.len() {
        Some(s.subrange(first_pos(s, b) + 1, s.len() as int))
    } else {
        None
    }
}

/// Whether `s` holds no `b`.
pub open spec fn lacks(s: Seq<u8>, b: u8) -> bool {
    forall|j: int| 0 <= j < s.len() ==> s[j] != b
}

/// Whether `s` begins with `p`.
pub open spec fn has_prefix(s: Seq<u8>, p: Seq<u8>) -> bool {
    p.len() <= s.len() && s.subrange(0, p.len() as int) == p
}

/// The route of a handshake path: what precedes its first `?`.
pub open spec fn route_of(path: Seq<u8>) -> Seq<u8> {
    head(path, question_mark())
}

/// The query of a handshake path: what follows its first `?`, empty where
/// it has none.
pub open spec fn query_of(path: Seq<u8>) -> Seq<u8> {
    match tail(path, question_mark()) {
        Some(q) => q,
        None => Seq::empty(),
    }
}

/// The first comma-separated field of a query.
pub open spec fn first_field(q: Seq<u8>) -> Seq<u8> {
    head(q, comma())
}

/// The second comma-separated field of a query, if it has one. Later fields
/// are never read.
pub open spec fn second_field(q: Seq<u8>) -> Option<Seq<u8>> {
    match tail(q, comma()) {
        Some(rest) => Some(head(rest, comma())),
        None => None,
    }
}

/// The stream kind that a field names: one that begins with `ft=` and
/// continues with a known token.
pub open spec fn field_kind(f: Seq<u8>) -> Option<FileTy> {
    if has_prefix(f, ft_prefix()) {
        FileTy::parse(f.subrange(3, f.len() as int))
    } else {
        None
    }
}

/// Whether a field begins with `key=` and continues with the secret. No key
/// is accepted where there is no secret.
pub open spec fn field_key_ok(f: Seq<u8>, secret: Option<Seq<u8>>) -> bool {
    has_prefix(f, key_prefix()) && secret == Some(f.subrange(4, f.len() as int))
}

/// The stream kind that a query names: that of its second field where it
/// names one, else that of its first field.
pub open spec fn stream_kind(q: Seq<u8>) -> Option<FileTy> {
    let second = match second_field(q) {
        Some(f) => field_kind(f),
        None => None,
    };
    if second is Some {
        second
    } else {
        field_kind(first_field(q))
    }
}

/// Whether one of the first two fields of a query carries the secret.
pub open spec fn key_accepted(q: Seq<u8>, secret: Option<Seq<u8>>) -> bool {
    field_key_ok(first_field(q), secret) || match second_field(q) {
        Some(f) => field_key_ok(f, secret),
        None => false,
    }
}

/// The decision on a handshake for `path`: the endpoint and the stream kind
/// where the route is `/store`, the query names a stream kind and carries the
/// secret; none otherwise.
pub open spec fn accept(path: Seq<u8>, secret: Option<Seq<u8>>) -> Option<(Endpoint, FileTy)> {
    let q = query_of(path);
    if route_of(path) == store_route() && stream_kind(q) is Some && key_accepted(q, secret) {
        Some((Endpoint::Store, stream_kind(q).unwrap()))
    } else {
        None
    }
}

/// The bytes of an optional slice.
pub open spec fn opt_view(o: Option<&[u8]>) -> Option<Seq<u8>> {
    match o {
        Some(s) => Some(s@),
        None => None,
    }
}

/// The first `b` at or after `k` lies within `s`, and none comes before it.
pub proof fn lemma_find_from(s: Seq<u8>, b: u8, k: int)
    requires
        0 <= k <= s.len(),
    ensures
        k <= find_from(s, b, k) <= s.len(),
        find_from(s, b, k) < s.len() ==> s[find_from(s, b, k)] == b,
        forall|j: int| k <= j < find_from(s, b, k) ==> s[j] != b,
    decreases s.len() - k,
{
    if k < s.len() && s[k] != b {
        lemma_find_from(s, b, k + 1);
    }
}

/// Where no `b` lies in `[k, m)`, the search from `k` gets as far as `m`.
pub proof fn lemma_find_skip(s: Seq<u8>, b: u8, k: int, m: int)
    requires
        0 <= k <= m <= s.len(),
        forall|j: int| k <= j < m ==> s[j] != b,
    ensures
        find_from(s, b, k) == find_from(s, b, m),
    decreases m - k,
{
    if k < m {
        lemma_find_skip(s, b, k + 1, m);
    }
}

/// A sequence `a + [b] + c` with no `b` in `a` splits at the `b` after `a`.
pub proof fn lemma_split_at(a: Seq<u8>, b: u8, c: Seq<u8>)
    requires
        lacks(a, b),
    ensures
        first_pos(a + seq![b] + c, b) == a.len(),
        head(a + seq![b] + c, b) == a,
        tail(a + seq![b] + c, b) == Some(c),
{
    let s = a + seq![b] + c;
    lemma_find_skip(s, b, 0, a.len() as int);
    assert(s.subrange(0, a.len() as int) == a);
    assert(s.subrange(a.len() as int + 1, s.len() as int) == c);
}

/// A sequence with no `b` does not split.
pub proof fn lemma_split_none(a: Seq<u8>, b: u8)
    requires
        lacks(a, b),
    ensures
        first_pos(a, b) == a.len(),
        head(a, b) == a,
        tail(a, b) is None,
{
    lemma_find_skip(a, b, 0, a.len() as int);
    assert(a.subrange(0, a.len() as int) == a);
}

/// Fields after the second never change a handshake's decision: a path whose
/// query holds more than two fields is decided as the same path cut right
/// before the comma that ends its second field.
pub proof fn lemma_extra_fields_ignored(
    route: Seq<u8>,
    f1: Seq<u8>,
    f2: Seq<u8>,
    rest: Seq<u8>,
    secret: Option<Seq<u8>>,
)
    requires
        lacks(route, question_mark()),
        lacks(f1, comma()),
        lacks(f2, comma()),
    ensures
        accept(
            route + seq![question_mark()] + (f1 + seq![comma()] + f2 + seq![comma()] + rest),
            secret,
        ) == accept(route + seq![question_mark()] + (f1 + seq![comma()] + f2), secret),
{
    let long = f1 + seq![comma()] + f2 + seq![comma()] + rest;
    let short = f1 + seq![comma()] + f2;
    lemma_split_at(route, question_mark(), long);
    lemma_split_at(route, question_mark(), short);
    assert(long == f1 + seq![comma()] + (f2 + seq![comma()] + rest));
    lemma_split_at(f1, comma(), f2 + seq![comma()] + rest);
    lemma_split_at(f2, comma(), rest);
    lemma_split_at(f1, comma(), f2);
    lemma_split_none(f2, comma());
}

/// A handshake for `<route>?ft=<kind>,key=<key>` is accepted, with the
/// `Store` endpoint and that kind, exactly when the route is `/store` and the
/// key equals the server's secret; any other route or key is rejected.
pub proof fn lemma_handshake_decision(route: Seq<u8>, ft: FileTy, key: Seq<u8>, secret: Seq<u8>)
    requires
        lacks(route, question_mark()),
        lacks(key, comma()),
    ensures
        accept(
            route + seq![question_mark()] + (ft_prefix() + ft.token() + seq![comma()] + key_prefix()
                + key),
            Some(secret),
        ) == if route == store_route() && key == secret {
            Some((Endpoint::Store, ft))
        } else {
            None
        },
{
    let f1 = ft_prefix() + ft.token();
    let f2 = key_prefix() + key;
    let q = f1 + seq![comma()] + f2;
    assert(route + seq![question_mark()] + (ft_prefix() + ft.token() + seq![comma()] + key_prefix()
        + key) == route + seq![question_mark()] + q);
    lemma_split_at(route, question_mark(), q);
    assert(lacks(f1, comma()));
    assert(lacks(f2, comma())) by {
        assert forall|j: int| 0 <= j < f2.len() implies f2[j] != comma() by {
            if j >= 4 {
                assert(f2[j] == key[j - 4]);
            }
        }
    }
    lemma_split_at(f1, comma(), f2);
    lemma_split_none(f2, comma());
    assert(f1.subrange(0, 3) == ft_prefix());
    assert(f1.subrange(3, f1.len() as int) == ft.token());
    assert(f2.subrange(0, 4) == key_prefix());
    assert(f2.subrange(4, f2.len() as int) == key);
    assert(f2.subrange(0, 3)[0] != ft_prefix()[0]);
    assert(f1.subrange(0, 4)[0] != key_prefix()[0]);
    assert(field_kind(f1) == Some(ft));
    assert(field_kind(f2) is None);
    assert(!field_key_ok(f1, Some(secret)));
}

/// The position of the first `b` in `s`.
fn find_byte(s: &[u8], b: u8) -> (r: usize)
    ensures
        r == first_pos(s@, b),
        r <= s@.len(),
{
    let mut i: usize = 0;
    while i < s.len() && s[i] != b
        invariant
            i <= s@.len(),
            find_from(s@, b, i as int) == first_pos(s@, b),
        decreases s@.len() - i,
    {
        i = i + 1;
    }
    proof {
        lemma_find_from(s@, b, 0);
    }
    i
}

/// `s` split at its first `b`: what precedes it, and what follows it if
/// there is one.
fn split_first(s: &[u8], b: u8) -> (r: (&[u8], Option<&[u8]>))
    ensures
        r.0@ == head(s@, b),
        opt_view(r.1) == tail(s@, b),
{
    let p: usize = find_byte(s, b);
    let before = slice_subrange(s, 0, p);
    if p < s.len() {
        (before, Some(slice_subrange(s, p + 1, s.len())))
    } else {
        (before, None)
    }
}

/// The stream kind that the field `f` names, if any.
fn kind_of_field(f: &[u8]) -> (r: Option<FileTy>)
    ensures
        r == field_kind(f@),
{
    if starts_with(f, &[102u8, 116u8, 61u8]) {
        match FileTy::from_token(slice_subrange(f, 3, f.len())) {
            Ok(ft) => Some(ft),
            Err(_) => None,
        }
    } else {
        None
    }
}

/// Whether the field `f` carries the key `secret`.
fn key_of_field_ok(f: &[u8], secret: Option<&[u8]>) -> (r: bool)
    ensures
        r == field_key_ok(f@, opt_view(secret)),
{
    match secret {
        Some(s) => starts_with(f, &[107u8, 101u8, 121u8, 61u8]) && bytes_eq(
            slice_subrange(f, 4, f.len()),
            s,
        ),
        None => false,
    }
}

/// Routes and authenticates a WebSocket handshake whose request path is
/// `path`, against the server's `secret` (none where it has no key set).
///
/// The path splits at its first `?` into a route and a query; the route must
/// be `/store`. Of the query's comma-separated fields only the first two are
/// read: a field `ft=<kind>` names the stream kind (a later field overrides
/// an earlier one, and an unknown kind is passed over), a field `key=<key>`
/// is accepted where `<key>` equals the secret. The handshake is accepted,
/// with the endpoint and the stream kind, only where the route matches, a
/// stream kind is named and a key is accepted.
pub fn manage_accept(path: &[u8], secret: Option<&[u8]>) -> (r: Option<(Endpoint, FileTy)>)
    ensures
        r == accept(path@, opt_view(secret)),
{
    let (route, rest) = split_first(path, 63u8);
    if !bytes_eq(route, &[47u8, 115u8, 116u8, 111u8, 114u8, 101u8]) {
        return None;
    }
    let query: &[u8] = match rest {
        Some(q) => q,
        None => slice_subrange(path, path.len(), path.len()),
    };
    assert(query@ == query_of(path@));
    let (first, after_first) = split_first(query, 44u8);
    let mut kind = kind_of_field(first);
    let mut has_key = key_of_field_ok(first, secret);
    match after_first {
        Some(r2) => {
            let (second, _) = split_first(r2, 44u8);
            match kind_of_field(second) {
                Some(k) => {
                    kind = Some(k);
                },
                None => {},
            }
            if key_of_field_ok(second, secret) {
                has_key = true;
            }
        },
        None => {},
    }
    match kind {
        Some(k) => {
            if has_key {
                Some((Endpoint::Store, k))
            } else {
                None
            }
        },
        None => None,
    }
}

} // verus!
