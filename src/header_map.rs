//! Header conversion at the HTTP client's edge: header pairs become the client's
//! header map, checked before any I/O, and the client's response headers become
//! text pairs.

use crate::http::{collapse_headers, header_map, names_unique, RequestError, RequestErrorKind, Response};
use crate::url_record::{url_parsed, url_parses};
use vstd::prelude::*;
use vstd::utf8::encode_utf8;

verus! {

#[verifier::external_type_specification]
#[verifier::external_body]
pub struct ExHeaderName(reqwest::header::HeaderName);

#[verifier::external_type_specification]
#[verifier::external_body]
pub struct ExHeaderValue(reqwest::header::HeaderValue);

#[verifier::external_type_specification]
#[verifier::external_body]
#[verifier::reject_recursive_types(T)]
pub struct ExHeaderMap<T>(reqwest::header::HeaderMap<T>);

#[verifier::external_type_specification]
#[verifier::external_body]
pub struct ExInvalidHeaderName(reqwest::header::InvalidHeaderName);

#[verifier::external_type_specification]
#[verifier::external_body]
pub struct ExInvalidHeaderValue(reqwest::header::InvalidHeaderValue);

#[verifier::external_type_specification]
#[verifier::external_body]
pub struct ExToStrError(reqwest::header::ToStrError);

#[verifier::external_type_specification]
#[verifier::external_body]
pub struct ExMethod(reqwest::Method);

/// Whether `Method::from_bytes` accepts `bytes` as a request method.
pub uninterp spec fn method_ok(bytes: Seq<u8>) -> bool;

/// Relies on http's Method::from_bytes (re-exported by reqwest) to read a request
/// method; a refusal comes back as its message.
#[verifier::external_body]
fn read_method(src: &[u8]) -> (r: Result<reqwest::Method, String>)
    ensures
        r is Ok <==> method_ok(src@),
{
    match reqwest::Method::from_bytes(src) {
        Ok(m) => Ok(m),
        Err(e) => Err(e.to_string()),
    }
}

/// A byte that a header name may hold: a token character, either case.
pub open spec fn header_name_byte(b: u8) -> bool {
    b == 33 || b == 34 || (35 <= b && b <= 39) || b == 42 || b == 43 || b == 45 || b == 46 || (48
        <= b && b <= 57) || (65 <= b && b <= 90) || (94 <= b && b <= 122) || b == 124 || b == 126
}

/// Whether `HeaderName::from_bytes` accepts `bytes` as a header name: 1 to 65535
/// name bytes.
pub open spec fn header_name_ok(bytes: Seq<u8>) -> bool {
    1 <= bytes.len() <= 65535 && forall|i: int| 0 <= i < bytes.len() ==> header_name_byte(#[trigger] bytes[i])
}

/// Number of names that a header map holds entries for.
pub uninterp spec fn header_count(m: reqwest::header::HeaderMap) -> nat;

/// What a header map holds: each name's bytes to its value's bytes.
pub uninterp spec fn header_entries(m: reqwest::header::HeaderMap) -> Map<Seq<u8>, Seq<u8>>;

/// The bytes of a header name, as normalized.
pub uninterp spec fn header_name_bytes(n: reqwest::header::HeaderName) -> Seq<u8>;

/// The bytes of a header value.
pub uninterp spec fn header_value_bytes(v: reqwest::header::HeaderValue) -> Seq<u8>;

/// `b` with ASCII capitals made small.
pub open spec fn ascii_lower(b: Seq<u8>) -> Seq<u8> {
    Seq::new(b.len(), |i: int| if 65 <= b[i] && b[i] <= 90 { (b[i] + 32) as u8 } else { b[i] })
}

/// A byte that `HeaderValue::to_str` accepts: visible ASCII, space or tab.
pub open spec fn visible_byte(b: u8) -> bool {
    (b >= 32 && b < 127) || b == 9
}

/// The characters of ASCII bytes.
pub open spec fn ascii_text(b: Seq<u8>) -> Seq<char> {
    Seq::new(b.len(), |i: int| b[i] as char)
}

/// A response header value as text: the value when every byte is visible, else empty.
pub open spec fn value_text(b: Seq<u8>) -> Seq<char> {
    if forall|i: int| 0 <= i < b.len() ==> visible_byte(#[trigger] b[i]) {
        ascii_text(b)
    } else {
        Seq::empty()
    }
}

/// What the client's header map holds after inserting `pairs` in order: names
/// lowercased, a later pair replacing an earlier one of the same name.
pub open spec fn pairs_entries(pairs: Seq<(String, String)>) -> Map<Seq<u8>, Seq<u8>>
    decreases pairs.len(),
{
    if pairs.len() == 0 {
        Map::empty()
    } else {
        pairs_entries(pairs.drop_last()).insert(
            ascii_lower(encode_utf8(pairs.last().0@)),
            encode_utf8(pairs.last().1@),
        )
    }
}

/// Entries below which a header map always takes one more: past this many, a
/// table that has grown under colliding names can no longer double.
pub const MAX_HEADER_ENTRIES: usize = 6554;

/// A byte that a header value may hold: visible ASCII, space, tab, or above ASCII.
pub open spec fn value_byte_ok(b: u8) -> bool {
    (b >= 32 && b != 127) || b == 9
}

/// Whether `HeaderValue::from_str` accepts `text`.
pub open spec fn header_value_ok(text: Seq<char>) -> bool {
    forall|i: int| 0 <= i < encode_utf8(text).len() ==> value_byte_ok(#[trigger] encode_utf8(text)[i])
}

/// Relies on http's HeaderName::from_bytes (re-exported by reqwest) to check and
/// normalize a header name: an accepted name is kept with ASCII capitals made small.
pub assume_specification[ reqwest::header::HeaderName::from_bytes ](src: &[u8]) -> (r: Result<
    reqwest::header::HeaderName,
    reqwest::header::InvalidHeaderName,
>)
    ensures
        r is Ok <==> header_name_ok(src@),
        r is Ok ==> header_name_bytes(r->Ok_0) == ascii_lower(src@),
;

/// Relies on http's HeaderValue::from_str: it accepts exactly the text whose
/// bytes are all tab or at least 32 and not 127.
pub assume_specification[ reqwest::header::HeaderValue::from_str ](src: &str) -> (r: Result<
    reqwest::header::HeaderValue,
    reqwest::header::InvalidHeaderValue,
>)
    ensures
        r is Ok <==> header_value_ok(src@),
        r is Ok ==> header_value_bytes(r->Ok_0) == encode_utf8(src@),
;

/// Relies on http's HeaderMap::new: an empty map.
pub assume_specification[ reqwest::header::HeaderMap::new ]() -> (r: reqwest::header::HeaderMap)
    ensures
        header_count(r) == 0,
        header_entries(r).dom() == Set::<Seq<u8>>::empty(),
;

/// Relies on http's HeaderMap::insert: adds the entry, replacing every value held
/// under the same name. It panics once the map would outgrow its largest capacity.
#[verifier::external_body]
fn insert_header(
    m: &mut reqwest::header::HeaderMap,
    name: reqwest::header::HeaderName,
    value: reqwest::header::HeaderValue,
)
    requires
        header_count(*old(m)) < MAX_HEADER_ENTRIES,
    ensures
        header_count(*final(m)) == header_count(*old(m)) + if header_entries(*old(m)).contains_key(
            header_name_bytes(name),
        ) {
            0nat
        } else {
            1nat
        },
        header_entries(*final(m)) == header_entries(*old(m)).insert(
            header_name_bytes(name),
            header_value_bytes(value),
        ),
{
    m.insert(name, value);
}

/// Relies on http's HeaderValue::to_str: the value as text exactly when every
/// byte is visible ASCII or tab.
pub assume_specification[ reqwest::header::HeaderValue::to_str ](
    v: &reqwest::header::HeaderValue,
) -> (r: Result<&str, reqwest::header::ToStrError>)
    ensures
        r is Ok <==> forall|i: int|
            0 <= i < header_value_bytes(*v).len() ==> visible_byte(
                #[trigger] header_value_bytes(*v)[i],
            ),
        r is Ok ==> r->Ok_0@ == ascii_text(header_value_bytes(*v)),
;

/// Relies on http's HeaderName::as_str: the normalized name as text.
pub assume_specification[ reqwest::header::HeaderName::as_str ](
    n: &reqwest::header::HeaderName,
) -> (r: &str)
    ensures
        encode_utf8(r@) == header_name_bytes(*n),
;

/// Why header pairs could not become a header map.
#[derive(Debug, Clone, Copy, PartialEq, Eq, Structural)]
pub enum HeaderError {
    /// A name is not a valid header name.
    InvalidName,
    /// A value holds a byte that a header value may not hold.
    InvalidValue,
    /// More pairs than a header map can hold.
    TooMany,
}

/// Both parts of the pair are accepted.
pub open spec fn pair_ok(p: (String, String)) -> bool {
    header_name_ok(encode_utf8(p.0@)) && header_value_ok(p.1@)
}

/// The header map built from pairs whose names differ even after lowercasing
/// holds one entry per pair.
pub proof fn lemma_distinct_names_count(pairs: Seq<(String, String)>)
    requires
        forall|i: int, j: int|
            0 <= i < j < pairs.len() ==> ascii_lower(encode_utf8(#[trigger] pairs[i].0@)) != ascii_lower(
                encode_utf8(#[trigger] pairs[j].0@),
            ),
    ensures
        pairs_entries(pairs).dom().finite(),
        pairs_entries(pairs).dom().len() == pairs.len(),
        forall|k: int|
            0 <= k < pairs.len() ==> #[trigger] pairs_entries(pairs).contains_key(
                ascii_lower(encode_utf8(pairs[k].0@)),
            ),
    decreases pairs.len(),
{
    if pairs.len() == 0 {
        assert(pairs_entries(pairs).dom() =~= Set::<Seq<u8>>::empty());
    } else {
        let front = pairs.drop_last();
        assert forall|i: int, j: int| 0 <= i < j < front.len() implies ascii_lower(
            encode_utf8(#[trigger] front[i].0@),
        ) != ascii_lower(encode_utf8(#[trigger] front[j].0@)) by {
            assert(front[i] == pairs[i] && front[j] == pairs[j]);
        }
        lemma_distinct_names_count(front);
        let k = ascii_lower(encode_utf8(pairs.last().0@));
        assert(!pairs_entries(front).contains_key(k)) by {
            if pairs_entries(front).contains_key(k) {
                lemma_entry_has_pair(front, k);
                let j = choose|j: int| 0 <= j < front.len() && ascii_lower(encode_utf8(front[j].0@)) == k;
                assert(front[j] == pairs[j]);
                assert(pairs[pairs.len() - 1] == pairs.last());
            }
        }
        assert(pairs_entries(pairs).dom() =~= pairs_entries(front).dom().insert(k));
        assert forall|x: int| 0 <= x < pairs.len() implies #[trigger] pairs_entries(pairs).contains_key(
            ascii_lower(encode_utf8(pairs[x].0@)),
        ) by {
            if x < pairs.len() - 1 {
                assert(front[x] == pairs[x]);
                assert(pairs_entries(front).contains_key(ascii_lower(encode_utf8(front[x].0@))));
            }
        }
    }
}

proof fn lemma_entry_has_pair(pairs: Seq<(String, String)>, k: Seq<u8>)
    requires
        pairs_entries(pairs).contains_key(k),
    ensures
        exists|j: int| 0 <= j < pairs.len() && ascii_lower(encode_utf8(pairs[j].0@)) == k,
    decreases pairs.len(),
{
    if pairs.len() > 0 {
        let front = pairs.drop_last();
        if k != ascii_lower(encode_utf8(pairs.last().0@)) {
            lemma_entry_has_pair(front, k);
            let j = choose|j: int| 0 <= j < front.len() && ascii_lower(encode_utf8(front[j].0@)) == k;
            assert(front[j] == pairs[j]);
        } else {
            assert(ascii_lower(encode_utf8(pairs[pairs.len() - 1].0@)) == k);
        }
    }
}

/// Builds the client's header map from `pairs`. It fails on the first pair whose
/// name, or else whose value, is refused, and when there are too many pairs.
pub fn request_headers(pairs: &Vec<(String, String)>) -> (r: Result<
    reqwest::header::HeaderMap,
    HeaderError,
>)
    ensures
        pairs@.len() >= MAX_HEADER_ENTRIES ==> r == Err::<reqwest::header::HeaderMap, HeaderError>(
            HeaderError::TooMany,
        ),
        pairs@.len() < MAX_HEADER_ENTRIES ==> (r is Ok <==> forall|k: int|
            0 <= k < pairs@.len() ==> #[trigger] pair_ok(pairs@[k])),
        r is Ok ==> header_entries(r->Ok_0) == pairs_entries(pairs@),
        r is Ok ==> header_count(r->Ok_0) == pairs_entries(pairs@).dom().len(),
        r == Err::<reqwest::header::HeaderMap, HeaderError>(HeaderError::InvalidName) ==> exists|k: int|
            0 <= k < pairs@.len() && !header_name_ok(encode_utf8(pairs@[k].0@)) && forall|j: int|
                0 <= j < k ==> #[trigger] pair_ok(pairs@[j]),
        r == Err::<reqwest::header::HeaderMap, HeaderError>(HeaderError::InvalidValue) ==> exists|k: int|
            0 <= k < pairs@.len() && header_name_ok(encode_utf8(pairs@[k].0@)) && !header_value_ok(
                pairs@[k].1@,
            ) && forall|j: int| 0 <= j < k ==> #[trigger] pair_ok(pairs@[j]),
{
    if pairs.len() >= MAX_HEADER_ENTRIES {
        return Err(HeaderError::TooMany);
    }
    let mut m = reqwest::header::HeaderMap::new();
    assert(header_entries(m) =~= pairs_entries(pairs@.take(0)));
    assert(pairs_entries(pairs@.take(0)).dom() =~= Set::<Seq<u8>>::empty());
    let mut i: usize = 0;
    while i < pairs.len()
        invariant
            i <= pairs@.len() < MAX_HEADER_ENTRIES,
            header_count(m) <= i,
            header_entries(m) == pairs_entries(pairs@.take(i as int)),
            header_count(m) == pairs_entries(pairs@.take(i as int)).dom().len(),
            pairs_entries(pairs@.take(i as int)).dom().finite(),
            forall|j: int| 0 <= j < i ==> #[trigger] pair_ok(pairs@[j]),
        decreases pairs@.len() - i,
    {
        let name_text = pairs[i].0.as_str();
        let value_text = pairs[i].1.as_str();
        let name = match reqwest::header::HeaderName::from_bytes(name_text.as_bytes()) {
            Ok(n) => n,
            Err(_) => {
                assert(!pair_ok(pairs@[i as int]));
                return Err(HeaderError::InvalidName);
            },
        };
        let value = match reqwest::header::HeaderValue::from_str(value_text) {
            Ok(v) => v,
            Err(_) => {
                assert(!pair_ok(pairs@[i as int]));
                return Err(HeaderError::InvalidValue);
            },
        };
        let ghost before = pairs_entries(pairs@.take(i as int));
        insert_header(&mut m, name, value);
        assert(pairs@.take(i + 1).drop_last() =~= pairs@.take(i as int));
        proof {
            let k = ascii_lower(encode_utf8(pairs@[i as int].0@));
            assert(pairs_entries(pairs@.take(i + 1)).dom() =~= before.dom().insert(k));
            if before.contains_key(k) {
                assert(before.dom().insert(k) =~= before.dom());
            }
        }
        i = i + 1;
    }
    assert(pairs@.take(i as int) =~= pairs@);
    Ok(m)
}

/// The method and absolute URL of an outbound request, read before any I/O. A
/// refusal is a request failure that names the URL.
pub fn request_target(method: &str, url: &str) -> (r: Result<(reqwest::Method, url::Url), RequestError>)
    ensures
        r is Ok <==> method_ok(encode_utf8(method@)) && url_parses(url@),
        r is Ok ==> r->Ok_0.1 == url_parsed(url@),
        r is Err ==> r->Err_0.kind == RequestErrorKind::Request && r->Err_0.url is Some
            && r->Err_0.url->Some_0@ == url@,
{
    let m = match read_method(method.as_bytes()) {
        Ok(m) => m,
        Err(message) => {
            return Err(RequestError { kind: RequestErrorKind::Request, url: Some(url.to_owned()), message });
        },
    };
    match url::Url::parse(url) {
        Ok(u) => Ok((m, u)),
        Err(e) => Err(RequestError { kind: RequestErrorKind::Request, url: Some(url.to_owned()), message: e.to_string() }),
    }
}

/// A response header as text: the value when it reads as visible ASCII, else empty.
pub fn header_text(v: &reqwest::header::HeaderValue) -> (r: String)
    ensures
        r@ == value_text(header_value_bytes(*v)),
{
    match v.to_str() {
        Ok(s) => s.to_owned(),
        Err(_) => String::new(),
    }
}

/// A response header as a pair of name and text.
pub fn header_pair(n: &reqwest::header::HeaderName, v: &reqwest::header::HeaderValue) -> (r: (
    String,
    String,
))
    ensures
        encode_utf8(r.0@) == header_name_bytes(*n),
        r.1@ == value_text(header_value_bytes(*v)),
{
    (n.as_str().to_owned(), header_text(v))
}

/// The response that the bridge reports: the status, one value per header name
/// (the last one given), and the whole body.
pub fn response_from_parts(status: u16, headers: Vec<(String, String)>, body: Vec<u8>) -> (r: Response)
    ensures
        r.status == status as usize,
        r.headers is Some,
        names_unique(r.headers->Some_0@),
        header_map(r.headers->Some_0@) == header_map(headers@),
        r.body == Some(body),
{
    Response { status: status as usize, body: Some(body), headers: Some(collapse_headers(headers)) }
}

} // verus!
