//! Script text that the host and the guest prepare around the handler: the
//! handler source made loadable as a global, and the statement that builds the
//! guest's request object.

use crate::byte_list::{trim, trim_range};
use crate::codec::utf8_str;
use crate::text::chars_of;
use vstd::prelude::*;
use vstd::utf8::{decode_utf8, valid_utf8};

verus! {

/// `s` with every occurrence of the non-empty `from` replaced by `to`, scanning
/// left to right without overlap.
pub open spec fn replaced(s: Seq<char>, from: Seq<char>, to: Seq<char>) -> Seq<char>
    recommends
        from.len() > 0,
    decreases s.len(),
{
    if s.len() < from.len() || from.len() == 0 {
        s
    } else if s.take(from.len() as int) == from {
        to + replaced(s.skip(from.len() as int), from, to)
    } else {
        seq![s[0]] + replaced(s.drop_first(), from, to)
    }
}

/// The text without White_Space characters at either end, as `str::trim` gives it.
fn trimmed(s: &str) -> (r: &str)
    ensures
        r@ == trim(s@),
{
    let cs = chars_of(s);
    let (a, b) = trim_range(cs.as_slice(), 0, cs.len());
    assert(s@.subrange(0, s@.len() as int) =~= s@);
    s.substring_char(a, b)
}

/// Relies on str::replace: every non-overlapping occurrence of `from`, left to
/// right, becomes `to`.
#[verifier::external_body]
fn replace_all(s: &str, from: &str, to: &str) -> (r: String)
    requires
        from@.len() > 0,
    ensures
        r@ == replaced(s@, from@, to@),
{
    s.replace(from, to)
}

/// The handler source as the guest loads it: trimmed, and with its exported
/// `handleRequest` turned into a global.
pub open spec fn loadable_handler(source: Seq<char>) -> Seq<char> {
    replaced(
        replaced(
            trim(source),
            "export const handleRequest = "@,
            "globalThis.handleRequest = "@,
        ),
        "export async function handleRequest"@,
        "async function handleRequest"@,
    )
}

/// Makes handler source loadable: an exported `handleRequest`, as a constant or
/// as an async function, becomes a global one.
pub fn prepare_handler(source: &str) -> (r: String)
    ensures
        r@ == loadable_handler(source@),
{
    proof {
        reveal_strlit("export const handleRequest = ");
        reveal_strlit("export async function handleRequest");
    }
    let a = replace_all(trimmed(source), "export const handleRequest = ", "globalThis.handleRequest = ");
    replace_all(a.as_str(), "export async function handleRequest", "async function handleRequest")
}

/// The request handed to the guest, as the process receives it.
#[derive(Debug)]
pub struct HttpRequest {
    pub body: Option<Vec<u8>>,
    pub cache: Option<String>,
    pub credentials: Option<String>,
    pub headers: Vec<(String, String)>,
    pub integrity: Option<String>,
    pub method: String,
    pub mode: Option<String>,
    pub redirect: Option<String>,
    pub referrer: Option<String>,
    pub referrer_policy: Option<String>,
    pub url: String,
}

/// Why the request statement could not be written.
#[derive(Debug, Clone, Copy, PartialEq, Eq, Structural)]
pub enum ScriptError {
    /// The body is not valid UTF-8.
    BodyNotUtf8,
}

/// A character that cannot stand as itself inside a quoted script string.
pub open spec fn needs_escape(c: char) -> bool {
    c == '\\' || c == '\'' || c == '"' || c == '\n' || c == '\r' || c == '\u{2028}' || c == '\u{2029}'
}

/// How `c` is written inside a quoted script string.
pub open spec fn escaped_char(c: char) -> Seq<char> {
    if c == '\\' {
        "\\\\"@
    } else if c == '\'' {
        "\\'"@
    } else if c == '"' {
        "\\\""@
    } else if c == '\n' {
        "\\n"@
    } else if c == '\r' {
        "\\r"@
    } else if c == '\u{2028}' {
        "\\u2028"@
    } else if c == '\u{2029}' {
        "\\u2029"@
    } else {
        seq![c]
    }
}

/// `s` written as the contents of a quoted script string, so that the string
/// reads back as `s` whichever quote encloses it.
pub open spec fn escaped(s: Seq<char>) -> Seq<char>
    decreases s.len(),
{
    if s.len() == 0 {
        Seq::empty()
    } else {
        escaped(s.drop_last()) + escaped_char(s.last())
    }
}

fn escape_of(c: char) -> (r: Option<&'static str>)
    ensures
        r is Some <==> needs_escape(c),
        r is Some ==> r->Some_0@ == escaped_char(c),
{
    if c == '\\' {
        Some("\\\\")
    } else if c == '\'' {
        Some("\\'")
    } else if c == '"' {
        Some("\\\"")
    } else if c == '\n' {
        Some("\\n")
    } else if c == '\r' {
        Some("\\r")
    } else if c == '\u{2028}' {
        Some("\\u2028")
    } else if c == '\u{2029}' {
        Some("\\u2029")
    } else {
        None
    }
}

fn append_escaped(out: &mut String, s: &str)
    ensures
        final(out)@ == old(out)@ + escaped(s@),
{
    let cs = chars_of(s);
    let ghost start = out@;
    let mut run: usize = 0;
    let mut i: usize = 0;
    while i < cs.len()
        invariant
            cs@ == s@,
            run <= i <= cs@.len(),
            start + escaped(s@.take(i as int)) == out@ + s@.subrange(run as int, i as int),
        decreases cs@.len() - i,
    {
        let c = cs[i];
        proof {
            assert(s@.take(i + 1).drop_last() =~= s@.take(i as int));
            assert(s@.take(i + 1).last() == c);
        }
        match escape_of(c) {
            Some(e) => {
                out.append(s.substring_char(run, i));
                out.append(e);
                assert(escaped(s@.take(i + 1)) == escaped(s@.take(i as int)) + escaped_char(c));
                run = i + 1;
                assert(s@.subrange(run as int, run as int) =~= Seq::<char>::empty());
                assert(start + escaped(s@.take(run as int)) =~= out@ + s@.subrange(run as int, run as int));
            },
            None => {
                assert(escaped_char(c) == seq![c]);
                assert(escaped(s@.take(i + 1)) == escaped(s@.take(i as int)) + escaped_char(c));
                let ghost e0 = escaped(s@.take(i as int));
                let ghost sub = s@.subrange(run as int, i as int);
                assert(s@.subrange(run as int, i + 1) =~= sub.push(c));
                assert(start + (e0 + seq![c]) =~= (start + e0) + seq![c]);
                assert(out@ + sub.push(c) =~= (out@ + sub) + seq![c]);
                assert(start + escaped(s@.take(i + 1)) =~= out@ + s@.subrange(run as int, i + 1));
            },
        }
        i = i + 1;
    }
    out.append(s.substring_char(run, i));
    assert(s@.take(i as int) =~= s@);
    assert(out@ =~= start + escaped(s@));
}

/// An optional field, with the empty string for an absent one.
pub open spec fn text_or_empty(field: Option<String>) -> Seq<char> {
    match field {
        Some(f) => f@,
        None => Seq::empty(),
    }
}

/// One header as an object entry: `"name": "value"`, both escaped.
pub open spec fn header_entry(pair: (String, String)) -> Seq<char> {
    "\""@ + escaped(pair.0@) + "\": \""@ + escaped(pair.1@) + "\""@
}

/// The header entries joined by `, `.
pub open spec fn header_entries(pairs: Seq<(String, String)>) -> Seq<char>
    decreases pairs.len(),
{
    if pairs.len() == 0 {
        Seq::empty()
    } else if pairs.len() == 1 {
        header_entry(pairs[0])
    } else {
        header_entries(pairs.drop_last()) + ", "@ + header_entry(pairs.last())
    }
}

/// A quoted option: `name: 'value', `, with the value escaped.
pub open spec fn option_text(name: Seq<char>, value: Seq<char>) -> Seq<char> {
    name + ": '"@ + escaped(value) + "', "@
}

/// The statement that builds the guest's request object from `req`, whose body
/// reads as `body`.
pub open spec fn request_statement(req: HttpRequest, body: Seq<char>) -> Seq<char> {
    "globalThis.___request = new Request('"@ + escaped(req.url@) + "', { "@
        + option_text("body"@, body)
        + option_text("cache"@, text_or_empty(req.cache))
        + option_text("credentials"@, text_or_empty(req.credentials))
        + "headers: { "@ + header_entries(req.headers@) + " }, "@
        + option_text("integrity"@, text_or_empty(req.integrity))
        + option_text("method"@, req.method@)
        + option_text("mode"@, text_or_empty(req.mode))
        + option_text("redirect"@, text_or_empty(req.redirect))
        + option_text("referrer"@, text_or_empty(req.referrer))
        + option_text("referrerPolicy"@, text_or_empty(req.referrer_policy))
        + option_text("url"@, req.url@)
        + "});"@
}

fn append_option(out: &mut String, name: &str, value: &str)
    ensures
        final(out)@ == old(out)@ + option_text(name@, value@),
{
    out.append(name);
    out.append(": '");
    append_escaped(out, value);
    out.append("', ");
    assert(final(out)@ =~= old(out)@ + option_text(name@, value@));
}

fn append_optional(out: &mut String, name: &str, value: &Option<String>)
    ensures
        final(out)@ == old(out)@ + option_text(name@, text_or_empty(*value)),
{
    match value {
        Some(v) => append_option(out, name, v.as_str()),
        None => {
            proof {
                reveal_strlit("");
            }
            append_option(out, name, "");
        },
    }
}

fn append_headers(out: &mut String, pairs: &Vec<(String, String)>)
    ensures
        final(out)@ == old(out)@ + header_entries(pairs@),
{
    let ghost start = out@;
    let mut i: usize = 0;
    while i < pairs.len()
        invariant
            i <= pairs@.len(),
            out@ == start + header_entries(pairs@.take(i as int)),
        decreases pairs@.len() - i,
    {
        let ghost before = out@;
        if i > 0 {
            out.append(", ");
        }
        out.append("\"");
        append_escaped(out, pairs[i].0.as_str());
        out.append("\": \"");
        append_escaped(out, pairs[i].1.as_str());
        out.append("\"");
        proof {
            let t = pairs@.take(i + 1);
            assert(t.drop_last() =~= pairs@.take(i as int));
            if i == 0 {
                assert(header_entries(pairs@.take(0)) == Seq::<char>::empty());
                assert(out@ =~= start + header_entry(t[0]));
            } else {
                assert(out@ =~= before + ", "@ + header_entry(t.last()));
            }
        }
        i = i + 1;
    }
    assert(pairs@.take(i as int) =~= pairs@);
}

/// Writes the statement that builds the guest's request object. The body must
/// be UTF-8; an absent body reads as empty.
pub fn request_script(req: &HttpRequest) -> (r: Result<String, ScriptError>)
    ensures
        match req.body {
            Some(b) => if valid_utf8(b@) {
                r is Ok && r->Ok_0@ == request_statement(*req, decode_utf8(b@))
            } else {
                r == Err::<String, ScriptError>(ScriptError::BodyNotUtf8)
            },
            None => r is Ok && r->Ok_0@ == request_statement(*req, Seq::empty()),
        },
{
    let body: &str = match &req.body {
        Some(b) => match utf8_str(b.as_slice()) {
            Some(s) => s,
            None => return Err(ScriptError::BodyNotUtf8),
        },
        None => {
            proof {
                reveal_strlit("");
            }
            ""
        },
    };
    assert(match req.body {
        Some(b) => body@ == decode_utf8(b@),
        None => body@ == Seq::<char>::empty(),
    });
    let mut out = String::new();
    out.append("globalThis.___request = new Request('");
    append_escaped(&mut out, req.url.as_str());
    out.append("', { ");
    append_option(&mut out, "body", body);
    append_optional(&mut out, "cache", &req.cache);
    append_optional(&mut out, "credentials", &req.credentials);
    out.append("headers: { ");
    append_headers(&mut out, &req.headers);
    out.append(" }, ");
    append_optional(&mut out, "integrity", &req.integrity);
    append_option(&mut out, "method", req.method.as_str());
    append_optional(&mut out, "mode", &req.mode);
    append_optional(&mut out, "redirect", &req.redirect);
    append_optional(&mut out, "referrer", &req.referrer);
    append_optional(&mut out, "referrerPolicy", &req.referrer_policy);
    append_option(&mut out, "url", req.url.as_str());
    out.append("});");
    assert(out@ =~= request_statement(*req, body@));
    Ok(out)
}

} // verus!
