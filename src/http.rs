//! The data that crosses the fetch bridge: requests, responses, and the
//! transport error taxonomy with its classification of client failures.

use crate::url_record::url_href;
use vstd::prelude::*;

verus! {

#[verifier::external_type_specification]
#[verifier::external_body]
pub struct ExTransportError(reqwest::Error);

#[verifier::external_type_specification]
#[verifier::external_body]
pub struct ExStatusCode(reqwest::StatusCode);

/// What the HTTP client's predicates report about one of its failures; each of
/// them reads the error alone.
pub uninterp spec fn reported_traits(e: reqwest::Error) -> FailureTraits;

/// The number of a status code.
pub uninterp spec fn status_number(s: reqwest::StatusCode) -> u16;

/// Relies on reqwest::Error::is_timeout: the failure was a deadline.
pub assume_specification[ reqwest::Error::is_timeout ](e: &reqwest::Error) -> (r: bool)
    ensures
        r == reported_traits(*e).timeout,
;

/// Relies on reqwest::Error::is_decode: the response body could not be decoded.
pub assume_specification[ reqwest::Error::is_decode ](e: &reqwest::Error) -> (r: bool)
    ensures
        r == reported_traits(*e).decode,
;

/// Relies on reqwest::Error::is_body: the request or response body failed.
pub assume_specification[ reqwest::Error::is_body ](e: &reqwest::Error) -> (r: bool)
    ensures
        r == reported_traits(*e).body,
;

/// Relies on reqwest::Error::is_redirect: the redirect policy refused.
pub assume_specification[ reqwest::Error::is_redirect ](e: &reqwest::Error) -> (r: bool)
    ensures
        r == reported_traits(*e).redirect,
;

/// Relies on reqwest::Error::is_request: the request could not be sent.
pub assume_specification[ reqwest::Error::is_request ](e: &reqwest::Error) -> (r: bool)
    ensures
        r == reported_traits(*e).request,
;

/// Relies on reqwest::Error::status: the status code of a status failure, and
/// `None` for every other kind of failure.
pub assume_specification[ reqwest::Error::status ](e: &reqwest::Error) -> (r: Option<
    reqwest::StatusCode,
>)
    ensures
        match r {
            Some(code) => reported_traits(*e).status == Some(status_number(code)),
            None => reported_traits(*e).status is None,
        },
;

/// The URL a client failure concerns, if known.
pub uninterp spec fn reported_url(e: reqwest::Error) -> Option<url::Url>;

/// Relies on reqwest::Error::url: the URL the failure concerns, if known.
pub assume_specification[ reqwest::Error::url ](e: &reqwest::Error) -> (r: Option<&url::Url>)
    ensures
        match r {
            Some(u) => reported_url(*e) == Some(*u),
            None => reported_url(*e) is None,
        },
;

/// Relies on reqwest::StatusCode::as_u16 for the numeric code.
pub assume_specification[ reqwest::StatusCode::as_u16 ](s: &reqwest::StatusCode) -> (r: u16)
    ensures
        r == status_number(*s),
;

/// An outbound request: method, absolute URL, header pairs and optional body.
#[derive(Debug)]
pub struct Request {
    pub method: String,
    pub url: String,
    pub headers: Option<Vec<(String, String)>>,
    pub body: Option<Vec<u8>>,
}

/// A response: status code, one value per header name, optional body.
#[derive(Debug)]
pub struct Response {
    pub status: usize,
    pub body: Option<Vec<u8>>,
    pub headers: Option<Vec<(String, String)>>,
}

/// The kind of a transport failure.
#[derive(Debug, Clone, Copy, PartialEq, Eq, Structural)]
pub enum RequestErrorKind {
    /// A request or response could not be (de)serialized.
    Serial,
    /// The request could not be built or sent.
    Request,
    /// The redirect policy was violated.
    Redirect,
    /// The transport reported a non-success status.
    Status(u16),
    /// A body could not be read or decoded.
    Body,
    /// A deadline passed.
    Timeout,
    /// Anything else.
    Unknown,
}

/// A transport failure as the guest sees it.
#[derive(Debug)]
pub struct RequestError {
    pub kind: RequestErrorKind,
    pub url: Option<String>,
    pub message: String,
}

/// A transport failure behind a pointer, as it is passed around.
#[derive(Debug)]
pub struct BoxedRequestError(pub Box<RequestError>);

impl From<RequestError> for BoxedRequestError {
    fn from(inner: RequestError) -> (r: BoxedRequestError)
        ensures
            *r.0 == inner,
    {
        BoxedRequestError(Box::new(inner))
    }
}

impl vstd::std_specs::convert::FromSpecImpl<RequestError> for BoxedRequestError {
    open spec fn obeys_from_spec() -> bool {
        true
    }

    open spec fn from_spec(inner: RequestError) -> BoxedRequestError {
        BoxedRequestError(Box::new(inner))
    }
}

/// What the HTTP client reports about one of its failures.
#[derive(Debug, Clone, Copy, PartialEq, Eq, Structural)]
pub struct FailureTraits {
    pub timeout: bool,
    pub decode: bool,
    pub body: bool,
    pub redirect: bool,
    pub request: bool,
    /// The status code, for a failure that reports one.
    pub status: Option<u16>,
}

/// The kind of a failure: the first of timeout, body, redirect, request and
/// status that applies, else unknown.
pub open spec fn kind_of(t: FailureTraits) -> RequestErrorKind {
    if t.timeout {
        RequestErrorKind::Timeout
    } else if t.decode || t.body {
        RequestErrorKind::Body
    } else if t.redirect {
        RequestErrorKind::Redirect
    } else if t.request {
        RequestErrorKind::Request
    } else {
        match t.status {
            Some(code) => RequestErrorKind::Status(code),
            None => RequestErrorKind::Unknown,
        }
    }
}

/// Classifies a failure by what the client reports about it.
pub fn classify(t: FailureTraits) -> (r: RequestErrorKind)
    ensures
        r == kind_of(t),
{
    if t.timeout {
        RequestErrorKind::Timeout
    } else if t.decode || t.body {
        RequestErrorKind::Body
    } else if t.redirect {
        RequestErrorKind::Redirect
    } else if t.request {
        RequestErrorKind::Request
    } else {
        match t.status {
            Some(code) => RequestErrorKind::Status(code),
            None => RequestErrorKind::Unknown,
        }
    }
}

/// What the client reports about `e`.
pub fn failure_traits(e: &reqwest::Error) -> (r: FailureTraits)
    ensures
        r == reported_traits(*e),
{
    FailureTraits {
        timeout: e.is_timeout(),
        decode: e.is_decode(),
        body: e.is_body(),
        redirect: e.is_redirect(),
        request: e.is_request(),
        status: match e.status() {
            Some(s) => Some(s.as_u16()),
            None => None,
        },
    }
}

impl RequestError {
    /// The guest's view of a client failure: its kind by `classify`, the URL it
    /// concerns and the client's message.
    pub fn from_transport(e: &reqwest::Error) -> (r: RequestError)
        ensures
            r.kind == kind_of(reported_traits(*e)),
            vstd::string::to_string_from_display_ensures::<reqwest::Error>(e, r.message),
            match reported_url(*e) {
                Some(u) => r.url is Some && r.url->Some_0@ == url_href(u),
                None => r.url is None,
            },
    {
        let kind = classify(failure_traits(e));
        let url = match e.url() {
            Some(u) => Some(u.as_str().to_owned()),
            None => None,
        };
        RequestError { kind, url, message: e.to_string() }
    }

    /// The failure reported when a request or response cannot be (de)serialized.
    pub fn serial(message: &str) -> (r: RequestError)
        ensures
            r.kind == RequestErrorKind::Serial,
            r.url is Some && r.url->Some_0@ == Seq::<char>::empty(),
            r.message@ == message@,
    {
        RequestError { kind: RequestErrorKind::Serial, url: Some(String::new()), message: message.to_owned() }
    }
}

/// The mapping that header pairs describe: each name to the value of its last pair.
pub open spec fn header_map(pairs: Seq<(String, String)>) -> Map<Seq<char>, Seq<char>>
    decreases pairs.len(),
{
    if pairs.len() == 0 {
        Map::empty()
    } else {
        header_map(pairs.drop_last()).insert(pairs.last().0@, pairs.last().1@)
    }
}

/// No two pairs carry the same name.
pub open spec fn names_unique(pairs: Seq<(String, String)>) -> bool {
    forall|i: int, j: int|
        0 <= i < j < pairs.len() ==> #[trigger] pairs[i].0@ != #[trigger] pairs[j].0@
}

proof fn lemma_unique_map(pairs: Seq<(String, String)>)
    requires
        names_unique(pairs),
    ensures
        forall|k: int|
            0 <= k < pairs.len() ==> #[trigger] header_map(pairs).contains_key(pairs[k].0@)
                && header_map(pairs)[pairs[k].0@] == pairs[k].1@,
        forall|name: Seq<char>|
            #[trigger] header_map(pairs).contains_key(name) ==> exists|k: int|
                0 <= k < pairs.len() && pairs[k].0@ == name,
    decreases pairs.len(),
{
    if pairs.len() > 0 {
        let front = pairs.drop_last();
        assert(names_unique(front)) by {
            assert forall|i: int, j: int| 0 <= i < j < front.len() implies #[trigger] front[i].0@
                != #[trigger] front[j].0@ by {
                assert(front[i] == pairs[i] && front[j] == pairs[j]);
            }
        }
        lemma_unique_map(front);
        assert(header_map(pairs) == header_map(front).insert(pairs.last().0@, pairs.last().1@));
        assert forall|k: int| 0 <= k < pairs.len() implies #[trigger] header_map(
            pairs,
        ).contains_key(pairs[k].0@) && header_map(pairs)[pairs[k].0@] == pairs[k].1@ by {
            if k < pairs.len() - 1 {
                assert(front[k] == pairs[k]);
                assert(header_map(front).contains_key(front[k].0@));
                assert(pairs[k].0@ != pairs[pairs.len() - 1].0@);
            }
        }
        assert forall|name: Seq<char>| #[trigger]
            header_map(pairs).contains_key(name) implies exists|k: int|
            0 <= k < pairs.len() && pairs[k].0@ == name by {
            if name != pairs.last().0@ {
                assert(header_map(front).contains_key(name));
                let k = choose|k: int| 0 <= k < front.len() && front[k].0@ == name;
                assert(pairs[k] == front[k]);
            }
        }
    }
}

/// Header pairs with one pair per name, each name keeping the value of its last
/// pair: the form in which a response reports multi-valued headers.
pub fn collapse_headers(pairs: Vec<(String, String)>) -> (r: Vec<(String, String)>)
    ensures
        names_unique(r@),
        header_map(r@) == header_map(pairs@),
{
    let mut r: Vec<(String, String)> = Vec::new();
    let mut i: usize = 0;
    while i < pairs.len()
        invariant
            i <= pairs@.len(),
            names_unique(r@),
            header_map(r@) == header_map(pairs@.take(i as int)),
        decreases pairs@.len() - i,
    {
        let name = pairs[i].0.clone();
        let value = pairs[i].1.clone();
        let ghost before = r@;
        proof {
            lemma_unique_map(before);
            assert(pairs@.take(i + 1).drop_last() =~= pairs@.take(i as int));
        }
        let mut j: usize = 0;
        let mut found = false;
        while j < r.len() && !found
            invariant
                r@ == before,
                j <= r@.len(),
                found ==> j < r@.len() && r@[j as int].0@ == name@,
                !found ==> forall|k: int| 0 <= k < j ==> #[trigger] r@[k].0@ != name@,
            decreases r@.len() - j + (if found {
                0int
            } else {
                1int
            }),
        {
            if r[j].0 == name {
                found = true;
            } else {
                j = j + 1;
            }
        }
        if found {
            r.set(j, (name, value));
            proof {
                assert forall|a: int, b: int| 0 <= a < b < r@.len() implies #[trigger] r@[a].0@
                    != #[trigger] r@[b].0@ by {
                    assert(r@[a].0@ == before[a].0@ && r@[b].0@ == before[b].0@);
                }
                lemma_unique_map(r@);
                lemma_unique_map(before);
                let m = header_map(before).insert(name@, value@);
                assert(header_map(r@).contains_key(r@[j as int].0@));
                assert forall|key: Seq<char>| #[trigger] header_map(r@).contains_key(key) <==> m.contains_key(key) by {
                    if header_map(r@).contains_key(key) {
                        let k = choose|k: int| 0 <= k < r@.len() && r@[k].0@ == key;
                        assert(before[k].0@ == key);
                        assert(header_map(before).contains_key(before[k].0@));
                    }
                    if m.contains_key(key) && key != name@ {
                        assert(header_map(before).contains_key(key));
                        let k = choose|k: int| 0 <= k < before.len() && before[k].0@ == key;
                        assert(r@[k].0@ == key);
                        assert(header_map(r@).contains_key(r@[k].0@));
                    }
                }
                assert forall|key: Seq<char>| #[trigger] header_map(r@).contains_key(key) implies header_map(r@)[key] == m[key] by {
                    let k = choose|k: int| 0 <= k < r@.len() && r@[k].0@ == key;
                    if k != j {
                        assert(r@[k] == before[k]);
                    }
                }
                assert(header_map(r@) =~= m);
            }
        } else {
            r.push((name, value));
            proof {
                assert(r@.drop_last() =~= before);
                assert forall|a: int, b: int| 0 <= a < b < r@.len() implies #[trigger] r@[a].0@
                    != #[trigger] r@[b].0@ by {
                    if b == r@.len() - 1 {
                        assert(r@[a] == before[a]);
                    } else {
                        assert(r@[a] == before[a] && r@[b] == before[b]);
                    }
                }
            }
        }
        i = i + 1;
    }
    assert(pairs@.take(i as int) =~= pairs@);
    r
}

} // verus!
