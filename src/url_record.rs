//! The URL binding: parses a URL against a base with the `url` crate and reports
//! its parts as plain strings; each setter re-parses and reports a new record.

use crate::text::{decimal, parse_unsigned, to_decimal, unsigned_value};
use vstd::prelude::*;

verus! {

#[verifier::external_type_specification]
#[verifier::external_body]
pub struct ExUrl(url::Url);

#[verifier::external_type_specification]
#[verifier::external_body]
pub struct ExUrlParseError(url::ParseError);

/// Whether `url::Url::parse` accepts `input`.
pub uninterp spec fn url_parses(input: Seq<char>) -> bool;

/// The URL that `url::Url::parse` reads from `input`.
pub uninterp spec fn url_parsed(input: Seq<char>) -> url::Url;

/// Whether `url::Url::join` accepts `input` against `base`.
pub uninterp spec fn url_joins(base: url::Url, input: Seq<char>) -> bool;

/// The URL that `url::Url::join` reads from `input` against `base`.
pub uninterp spec fn url_joined(base: url::Url, input: Seq<char>) -> url::Url;

/// The serialization of a URL.
pub uninterp spec fn url_href(u: url::Url) -> Seq<char>;

/// The Unicode serialization of a URL's origin (`"null"` for an opaque one).
pub uninterp spec fn url_origin_text(u: url::Url) -> Seq<char>;

/// The scheme of a URL.
pub uninterp spec fn url_scheme(u: url::Url) -> Seq<char>;

/// The host of a URL, if any.
pub uninterp spec fn url_host(u: url::Url) -> Option<Seq<char>>;

/// The host of a URL when it is a domain name.
pub uninterp spec fn url_domain(u: url::Url) -> Option<Seq<char>>;

/// The explicit port of a URL.
pub uninterp spec fn url_port(u: url::Url) -> Option<u16>;

/// The path of a URL.
pub uninterp spec fn url_path(u: url::Url) -> Seq<char>;

/// The query of a URL, if any.
pub uninterp spec fn url_query(u: url::Url) -> Option<Seq<char>>;

/// The fragment of a URL, if any.
pub uninterp spec fn url_fragment(u: url::Url) -> Option<Seq<char>>;

/// The user name of a URL.
pub uninterp spec fn url_username(u: url::Url) -> Seq<char>;

/// The password of a URL, if any.
pub uninterp spec fn url_password(u: url::Url) -> Option<Seq<char>>;

/// The URL after `set_scheme(scheme)`.
pub uninterp spec fn scheme_set(u: url::Url, scheme: Seq<char>) -> url::Url;

/// The URL after `set_host(Some(host))`.
pub uninterp spec fn host_set(u: url::Url, host: Seq<char>) -> url::Url;

/// Whether `set_host(Some(host))` succeeds.
pub uninterp spec fn host_set_ok(u: url::Url, host: Seq<char>) -> bool;

/// The URL after `set_port(Some(port))`.
pub uninterp spec fn port_set(u: url::Url, port: u16) -> url::Url;

/// The URL after `set_path(path)`.
pub uninterp spec fn path_set(u: url::Url, path: Seq<char>) -> url::Url;

/// The URL after `set_query(Some(query))`.
pub uninterp spec fn query_set(u: url::Url, query: Seq<char>) -> url::Url;

/// The URL after `set_fragment(Some(fragment))`.
pub uninterp spec fn fragment_set(u: url::Url, fragment: Seq<char>) -> url::Url;

/// The URL after `set_username(username)`.
pub uninterp spec fn username_set(u: url::Url, username: Seq<char>) -> url::Url;

/// The URL after `set_password(Some(password))`.
pub uninterp spec fn password_set(u: url::Url, password: Seq<char>) -> url::Url;

/// Relies on url::Url::parse to read an absolute URL.
pub assume_specification[ url::Url::parse ](input: &str) -> (r: Result<url::Url, url::ParseError>)
    ensures
        r is Ok <==> url_parses(input@),
        r is Ok ==> r->Ok_0 == url_parsed(input@),
;

/// Relies on url::Url::join to read a URL relative to a base.
pub assume_specification[ url::Url::join ](base: &url::Url, input: &str) -> (r: Result<
    url::Url,
    url::ParseError,
>)
    ensures
        r is Ok <==> url_joins(*base, input@),
        r is Ok ==> r->Ok_0 == url_joined(*base, input@),
;

/// Relies on url::Url::as_str for the serialization.
pub assume_specification[ url::Url::as_str ](u: &url::Url) -> (r: &str)
    ensures
        r@ == url_href(*u),
;

/// Relies on url::Url::origin and url::Origin::unicode_serialization for the
/// origin's text. The origin value itself is not a function of the URL (each
/// opaque origin gets a fresh identity), but its text is.
#[verifier::external_body]
fn origin_text_of(u: &url::Url) -> (r: String)
    ensures
        r@ == url_origin_text(*u),
{
    u.origin().unicode_serialization()
}

/// Relies on url::Url::scheme for the scheme.
pub assume_specification[ url::Url::scheme ](u: &url::Url) -> (r: &str)
    ensures
        r@ == url_scheme(*u),
;

/// Relies on url::Url::host_str for the host, if any.
pub assume_specification[ url::Url::host_str ](u: &url::Url) -> (r: Option<&str>)
    ensures
        opt_view(r) == url_host(*u),
;

/// Relies on url::Url::domain for the host when it is a domain name.
pub assume_specification[ url::Url::domain ](u: &url::Url) -> (r: Option<&str>)
    ensures
        opt_view(r) == url_domain(*u),
;

/// Relies on url::Url::port for an explicit port.
pub assume_specification[ url::Url::port ](u: &url::Url) -> (r: Option<u16>)
    ensures
        r == url_port(*u),
;

/// Relies on url::Url::path for the path.
pub assume_specification[ url::Url::path ](u: &url::Url) -> (r: &str)
    ensures
        r@ == url_path(*u),
;

/// Relies on url::Url::query for the query, if any.
pub assume_specification[ url::Url::query ](u: &url::Url) -> (r: Option<&str>)
    ensures
        opt_view(r) == url_query(*u),
;

/// Relies on url::Url::fragment for the fragment, if any.
pub assume_specification[ url::Url::fragment ](u: &url::Url) -> (r: Option<&str>)
    ensures
        opt_view(r) == url_fragment(*u),
;

/// Relies on url::Url::username for the user name.
pub assume_specification[ url::Url::username ](u: &url::Url) -> (r: &str)
    ensures
        r@ == url_username(*u),
;

/// Relies on url::Url::password for the password, if any.
pub assume_specification[ url::Url::password ](u: &url::Url) -> (r: Option<&str>)
    ensures
        opt_view(r) == url_password(*u),
;

/// Relies on url::Url::set_scheme to change the scheme.
pub assume_specification[ url::Url::set_scheme ](u: &mut url::Url, scheme: &str) -> (r: Result<
    (),
    (),
>)
    ensures
        *final(u) == scheme_set(*old(u), scheme@),
;

/// Relies on url::Url::set_host to change the host.
pub assume_specification[ url::Url::set_host ](u: &mut url::Url, host: Option<&str>) -> (r: Result<
    (),
    url::ParseError,
>)
    ensures
        host is Some ==> *final(u) == host_set(*old(u), host->Some_0@),
        host is Some ==> (r is Ok <==> host_set_ok(*old(u), host->Some_0@)),
;

/// Relies on url::Url::set_port to change the port.
pub assume_specification[ url::Url::set_port ](u: &mut url::Url, port: Option<u16>) -> (r: Result<
    (),
    (),
>)
    ensures
        port is Some ==> *final(u) == port_set(*old(u), port->Some_0),
;

/// Relies on url::Url::set_path to change the path.
pub assume_specification[ url::Url::set_path ](u: &mut url::Url, path: &str)
    ensures
        *final(u) == path_set(*old(u), path@),
;

/// Relies on url::Url::set_query to change the query.
pub assume_specification[ url::Url::set_query ](u: &mut url::Url, query: Option<&str>)
    ensures
        query is Some ==> *final(u) == query_set(*old(u), query->Some_0@),
;

/// Relies on url::Url::set_fragment to change the fragment.
pub assume_specification[ url::Url::set_fragment ](u: &mut url::Url, fragment: Option<&str>)
    ensures
        fragment is Some ==> *final(u) == fragment_set(*old(u), fragment->Some_0@),
;

/// Relies on url::Url::set_username to change the user name.
pub assume_specification[ url::Url::set_username ](u: &mut url::Url, username: &str) -> (r: Result<
    (),
    (),
>)
    ensures
        *final(u) == username_set(*old(u), username@),
;

/// Relies on url::Url::set_password to change the password.
pub assume_specification[ url::Url::set_password ](
    u: &mut url::Url,
    password: Option<&str>,
) -> (r: Result<(), ()>)
    ensures
        password is Some ==> *final(u) == password_set(*old(u), password->Some_0@),
;

/// The parts of a parsed URL, as the guest's URL object shows them.
#[derive(Debug)]
pub struct UrlRecord {
    pub href: String,
    pub origin: String,
    pub protocol: String,
    pub host: String,
    pub hostname: String,
    pub port: String,
    pub pathname: String,
    pub search: String,
    pub hash: String,
    pub username: String,
    pub password: String,
}

/// Why a URL could not be parsed or changed.
#[derive(Debug)]
pub enum UrlError {
    /// The URL parser refused the input; its message.
    Invalid(String),
    /// A new port is not a decimal number in 0..=65535.
    InvalidPort,
}

/// The component that a setter changes.
#[derive(Debug, Clone, Copy, PartialEq, Eq, Structural)]
pub enum UrlField {
    Protocol,
    Host,
    Port,
    Pathname,
    Search,
    Hash,
    Username,
    Password,
}

/// An optional part, with the empty string for an absent one.
pub open spec fn or_empty(part: Option<Seq<char>>) -> Seq<char> {
    match part {
        Some(p) => p,
        None => Seq::empty(),
    }
}

/// An optional port, in decimal, with the empty string for an absent one.
pub open spec fn port_text(port: Option<u16>) -> Seq<char> {
    match port {
        Some(p) => decimal(p as nat),
        None => Seq::empty(),
    }
}

/// The view of an optional string slice.
pub open spec fn opt_view(part: Option<&str>) -> Option<Seq<char>> {
    match part {
        Some(p) => Some(p@),
        None => None,
    }
}

fn owned_or_empty(part: Option<&str>) -> (r: String)
    ensures
        r@ == or_empty(opt_view(part)),
{
    match part {
        Some(p) => p.to_owned(),
        None => String::new(),
    }
}

/// Builds a record from the parts that a parsed URL reports: absent parts read
/// as empty strings and the port is written in decimal.
pub fn url_record(
    href: &str,
    origin: String,
    scheme: &str,
    host: Option<&str>,
    domain: Option<&str>,
    port: Option<u16>,
    path: &str,
    query: Option<&str>,
    fragment: Option<&str>,
    username: &str,
    password: Option<&str>,
) -> (r: UrlRecord)
    ensures
        r.href@ == href@,
        r.origin@ == origin@,
        r.protocol@ == scheme@,
        r.host@ == or_empty(opt_view(host)),
        r.hostname@ == or_empty(opt_view(domain)),
        r.port@ == port_text(port),
        r.pathname@ == path@,
        r.search@ == or_empty(opt_view(query)),
        r.hash@ == or_empty(opt_view(fragment)),
        r.username@ == username@,
        r.password@ == or_empty(opt_view(password)),
{
    let port = match port {
        Some(p) => to_decimal(p as u32),
        None => String::new(),
    };
    UrlRecord {
        href: href.to_owned(),
        origin,
        protocol: scheme.to_owned(),
        host: owned_or_empty(host),
        hostname: owned_or_empty(domain),
        port,
        pathname: path.to_owned(),
        search: owned_or_empty(query),
        hash: owned_or_empty(fragment),
        username: username.to_owned(),
        password: owned_or_empty(password),
    }
}

/// `r` holds the parts of `u` as `url_record` lays them out.
pub open spec fn describes(r: UrlRecord, u: url::Url) -> bool {
    &&& r.href@ == url_href(u)
    &&& r.origin@ == url_origin_text(u)
    &&& r.protocol@ == url_scheme(u)
    &&& r.host@ == or_empty(url_host(u))
    &&& r.hostname@ == or_empty(url_domain(u))
    &&& r.port@ == port_text(url_port(u))
    &&& r.pathname@ == url_path(u)
    &&& r.search@ == or_empty(url_query(u))
    &&& r.hash@ == or_empty(url_fragment(u))
    &&& r.username@ == url_username(u)
    &&& r.password@ == or_empty(url_password(u))
}

/// The URL that `url` reads as against `base`, when the parser accepts both.
pub open spec fn parse_outcome(url: Seq<char>, base: Seq<char>) -> Option<url::Url> {
    if url_parses(base) && url_joins(url_parsed(base), url) {
        Some(url_joined(url_parsed(base), url))
    } else {
        None
    }
}

/// Whether changing `field` of `u` to `value` succeeds: a refused host and a port
/// that is not a number fail; the parser's refusal of any other change is ignored.
pub open spec fn field_accepted(u: url::Url, field: UrlField, value: Seq<char>) -> bool {
    match field {
        UrlField::Host => host_set_ok(u, value),
        UrlField::Port => unsigned_value(value, 65535) is Some,
        _ => true,
    }
}

/// The URL after changing `field` of `u` to `value`.
pub open spec fn with_field(u: url::Url, field: UrlField, value: Seq<char>) -> url::Url {
    match field {
        UrlField::Protocol => scheme_set(u, value),
        UrlField::Host => host_set(u, value),
        UrlField::Port => port_set(u, unsigned_value(value, 65535)->Some_0 as u16),
        UrlField::Pathname => path_set(u, value),
        UrlField::Search => query_set(u, value),
        UrlField::Hash => fragment_set(u, value),
        UrlField::Username => username_set(u, value),
        UrlField::Password => password_set(u, value),
    }
}

/// The URL that a setter reports: `href` with `field` changed to `value`,
/// re-parsed on its own, when each step succeeds.
pub open spec fn set_outcome(href: Seq<char>, field: UrlField, value: Seq<char>) -> Option<url::Url> {
    if url_parses(href) && field_accepted(url_parsed(href), field, value) {
        parse_outcome(url_href(with_field(url_parsed(href), field, value)), "about:blank"@)
    } else {
        None
    }
}

fn record_of(u: &url::Url) -> (r: UrlRecord)
    ensures
        describes(r, *u),
{
    url_record(
        u.as_str(),
        origin_text_of(u),
        u.scheme(),
        u.host_str(),
        u.domain(),
        u.port(),
        u.path(),
        u.query(),
        u.fragment(),
        u.username(),
        u.password(),
    )
}

fn invalid(e: url::ParseError) -> (r: UrlError)
    ensures
        r is Invalid,
{
    UrlError::Invalid(e.to_string())
}

/// Parses `url` against `base` and reports its parts. Only a parser refusal fails.
pub fn parse_url(url: &str, base: &str) -> (r: Result<UrlRecord, UrlError>)
    ensures
        match parse_outcome(url@, base@) {
            Some(u) => r is Ok && describes(r->Ok_0, u),
            None => r is Err && r->Err_0 is Invalid,
        },
{
    let base_url = match url::Url::parse(base) {
        Ok(b) => b,
        Err(e) => return Err(invalid(e)),
    };
    match base_url.join(url) {
        Ok(u) => Ok(record_of(&u)),
        Err(e) => Err(invalid(e)),
    }
}

/// Changes one component of `u`. A refused host is reported; a port that is
/// not a number is reported; the parser's refusal of any other change is
/// ignored and leaves the URL as it was.
pub fn apply_field(u: &mut url::Url, field: UrlField, value: &str) -> (r: Result<(), UrlError>)
    ensures
        r is Ok <==> field_accepted(*old(u), field, value@),
        r is Ok ==> *final(u) == with_field(*old(u), field, value@),
        field == UrlField::Port && r is Err ==> *final(u) == *old(u),
        field == UrlField::Host ==> *final(u) == host_set(*old(u), value@),
        r is Ok ==> field != UrlField::Port || unsigned_value(value@, 65535) is Some,
        r is Err ==> field == UrlField::Host || field == UrlField::Port,
        field == UrlField::Host && r is Err ==> r->Err_0 is Invalid,
        field == UrlField::Port ==> (r is Err <==> unsigned_value(value@, 65535) is None),
        field == UrlField::Port && r is Err ==> r->Err_0 is InvalidPort,
{
    match field {
        UrlField::Protocol => {
            let _ = u.set_scheme(value);
            Ok(())
        },
        UrlField::Host => match u.set_host(Some(value)) {
            Ok(()) => Ok(()),
            Err(e) => Err(invalid(e)),
        },
        UrlField::Port => {
            let chars = crate::text::chars_of(value);
            match parse_unsigned(chars.as_slice(), 65535) {
                Some(p) => {
                    let _ = u.set_port(Some(p as u16));
                    Ok(())
                },
                None => Err(UrlError::InvalidPort),
            }
        },
        UrlField::Pathname => {
            u.set_path(value);
            Ok(())
        },
        UrlField::Search => {
            u.set_query(Some(value));
            Ok(())
        },
        UrlField::Hash => {
            u.set_fragment(Some(value));
            Ok(())
        },
        UrlField::Username => {
            let _ = u.set_username(value);
            Ok(())
        },
        UrlField::Password => {
            let _ = u.set_password(Some(value));
            Ok(())
        },
    }
}

/// Parses `href`, changes `field` to `value`, and reports the parts of the result,
/// re-parsed on its own. A port that is not a number fails only the port setter.
pub fn set_url_field(href: &str, field: UrlField, value: &str) -> (r: Result<UrlRecord, UrlError>)
    ensures
        match set_outcome(href@, field, value@) {
            Some(u) => r is Ok && describes(r->Ok_0, u),
            None => r is Err,
        },
        r is Err && r->Err_0 is InvalidPort ==> field == UrlField::Port && unsigned_value(
            value@,
            65535,
        ) is None,
        field == UrlField::Port && unsigned_value(value@, 65535) is Some ==> !(r is Err
            && r->Err_0 is InvalidPort),
{
    let mut u = match url::Url::parse(href) {
        Ok(u) => u,
        Err(e) => return Err(invalid(e)),
    };
    match apply_field(&mut u, field, value) {
        Ok(()) => {},
        Err(e) => return Err(e),
    }
    let blank = "about:blank";
    parse_url(u.as_str(), blank)
}

} // verus!
