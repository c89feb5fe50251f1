//! The vocabulary of a request and a response: methods, status codes, the
//! parsed request, path sanitizing and the text of a response.

use crate::text::{free_of, same, to_chars, to_text};
use vstd::hash_map::StringHashMap;
use vstd::prelude::*;
use vstd::slice::slice_subrange;
use vstd::string::StringExecFns;
use vstd::utf8::encode_utf8;

verus! {

/// The path of a request, sanitized.
pub type Path = String;

/// The query parameters of a request, by key.
pub type Query = StringHashMap<String>;

/// The header fields of a request, by name.
pub type Headers = StringHashMap<String>;

/// The body of a request.
pub type Body = String;

/// Marker for values that can be sent back to a client.
pub trait Response {
}

/// The request methods the server knows.
#[derive(Clone, Copy, Debug, PartialEq, Eq, Hash, Structural)]
pub enum Method {
    GET,
    HEAD,
    POST,
    PUT,
    DELETE,
    CONNECT,
    OPTIONS,
    PATCH,
    TRACE,
}

impl Method {
    /// The token that names the method on the wire. Matching is case-sensitive.
    pub open spec fn name(self) -> Seq<char> {
        match self {
            Method::GET => "GET"@,
            Method::HEAD => "HEAD"@,
            Method::POST => "POST"@,
            Method::PUT => "PUT"@,
            Method::DELETE => "DELETE"@,
            Method::CONNECT => "CONNECT"@,
            Method::OPTIONS => "OPTIONS"@,
            Method::PATCH => "PATCH"@,
            Method::TRACE => "TRACE"@,
        }
    }

    /// The token that names the method on the wire.
    pub fn as_str(&self) -> (r: &'static str)
        ensures
            r@ == self.name(),
    {
        match self {
            Method::GET => "GET",
            Method::HEAD => "HEAD",
            Method::POST => "POST",
            Method::PUT => "PUT",
            Method::DELETE => "DELETE",
            Method::CONNECT => "CONNECT",
            Method::OPTIONS => "OPTIONS",
            Method::PATCH => "PATCH",
            Method::TRACE => "TRACE",
        }
    }

    /// The method that `token` names, if it names one.
    pub open spec fn named(token: Seq<char>) -> Option<Method> {
        if token == "GET"@ {
            Some(Method::GET)
        } else if token == "HEAD"@ {
            Some(Method::HEAD)
        } else if token == "POST"@ {
            Some(Method::POST)
        } else if token == "PUT"@ {
            Some(Method::PUT)
        } else if token == "DELETE"@ {
            Some(Method::DELETE)
        } else if token == "CONNECT"@ {
            Some(Method::CONNECT)
        } else if token == "OPTIONS"@ {
            Some(Method::OPTIONS)
        } else if token == "PATCH"@ {
            Some(Method::PATCH)
        } else if token == "TRACE"@ {
            Some(Method::TRACE)
        } else {
            None
        }
    }

    /// The method that `token` names, if it names one.
    pub fn from_token(token: &[char]) -> (r: Option<Method>)
        ensures
            r == Method::named(token@),
    {
        if same_text(token, "GET") {
            return Some(Method::GET);
        }
        if same_text(token, "HEAD") {
            return Some(Method::HEAD);
        }
        if same_text(token, "POST") {
            return Some(Method::POST);
        }
        if same_text(token, "PUT") {
            return Some(Method::PUT);
        }
        if same_text(token, "DELETE") {
            return Some(Method::DELETE);
        }
        if same_text(token, "CONNECT") {
            return Some(Method::CONNECT);
        }
        if same_text(token, "OPTIONS") {
            return Some(Method::OPTIONS);
        }
        if same_text(token, "PATCH") {
            return Some(Method::PATCH);
        }
        if same_text(token, "TRACE") {
            return Some(Method::TRACE);
        }
        None
    }
}

/// Each method is the one that its name names, and no name holds a space or
/// a carriage return.
pub proof fn lemma_method_names(m: Method)
    ensures
        Method::named(m.name()) == Some(m),
        free_of(m.name(), ' '),
        free_of(m.name(), '\r'),
{
    reveal_strlit("GET");
    reveal_strlit("HEAD");
    reveal_strlit("POST");
    reveal_strlit("PUT");
    reveal_strlit("DELETE");
    reveal_strlit("CONNECT");
    reveal_strlit("OPTIONS");
    reveal_strlit("PATCH");
    reveal_strlit("TRACE");
    match m {
        Method::GET => {
            assert("GET"@[0] == 'G');
            assert("GET"@[1] == 'E');
            assert("GET"@[2] == 'T');
        },
        Method::HEAD => {
            assert("HEAD"@[0] == 'H');
            assert("HEAD"@[1] == 'E');
            assert("HEAD"@[2] == 'A');
            assert("HEAD"@[3] == 'D');
        },
        Method::POST => {
            assert("POST"@[0] == 'P');
            assert("POST"@[1] == 'O');
            assert("POST"@[2] == 'S');
            assert("POST"@[3] == 'T');
        },
        Method::PUT => {
            assert("PUT"@[0] == 'P');
            assert("PUT"@[1] == 'U');
            assert("PUT"@[2] == 'T');
        },
        Method::DELETE => {
            assert("DELETE"@[0] == 'D');
            assert("DELETE"@[1] == 'E');
            assert("DELETE"@[2] == 'L');
            assert("DELETE"@[3] == 'E');
            assert("DELETE"@[4] == 'T');
            assert("DELETE"@[5] == 'E');
        },
        Method::CONNECT => {
            assert("CONNECT"@[0] == 'C');
            assert("CONNECT"@[1] == 'O');
            assert("CONNECT"@[2] == 'N');
            assert("CONNECT"@[3] == 'N');
            assert("CONNECT"@[4] == 'E');
            assert("CONNECT"@[5] == 'C');
            assert("CONNECT"@[6] == 'T');
        },
        Method::OPTIONS => {
            assert("OPTIONS"@[0] == 'O');
            assert("OPTIONS"@[1] == 'P');
            assert("OPTIONS"@[2] == 'T');
            assert("OPTIONS"@[3] == 'I');
            assert("OPTIONS"@[4] == 'O');
            assert("OPTIONS"@[5] == 'N');
            assert("OPTIONS"@[6] == 'S');
        },
        Method::PATCH => {
            assert("PATCH"@[0] == 'P');
            assert("PATCH"@[1] == 'A');
            assert("PATCH"@[2] == 'T');
            assert("PATCH"@[3] == 'C');
            assert("PATCH"@[4] == 'H');
        },
        Method::TRACE => {
            assert("TRACE"@[0] == 'T');
            assert("TRACE"@[1] == 'R');
            assert("TRACE"@[2] == 'A');
            assert("TRACE"@[3] == 'C');
            assert("TRACE"@[4] == 'E');
        },
    }
}

/// Whether the slice holds exactly the characters of `word`.
pub fn same_text(s: &[char], word: &str) -> (r: bool)
    ensures
        r == (s@ == word@),
{
    let w = to_chars(word);
    same(s, w.as_slice())
}

/// The status of a response.
#[derive(Clone, Copy, Debug, PartialEq, Eq, Hash, Structural)]
pub enum StatusCode {
    // Success
    OK,
    Created,
    Accepted,
    NonAuthoritativeInformation,
    NoContent,
    ResetContent,
    PartialContent,
    // Redirection
    MultipleChoices,
    MovedPermanently,
    Found,
    SeeOther,
    NotModified,
    TemporaryRedirect,
    PermanentRedirect,
    // Client error
    BadRequest,
    Unauthorized,
    PaymentRequired,
    Forbidden,
    NotFound,
    MethodNotAllowed,
    NotAcceptable,
    ProxyAuthenticationRequired,
    RequestTimeout,
    Conflict,
    Gone,
    LengthRequired,
    PreconditionFailed,
    ContentTooLarge,
    UriTooLong,
    UnsupportedMediaType,
    RangeNotSatisfiable,
    ExpectationFailed,
    MisdirectedRequest,
    UnprocessableContent,
    UpgradeRequired,
    // Server error
    InternalServerError,
    NotImplemented,
    BadGateway,
    ServiceUnavailable,
    GatewayTimeout,
    HttpVersionNotSupported,
}

impl StatusCode {
    /// The three-digit number of the status.
    pub open spec fn number(self) -> nat {
        match self {
            StatusCode::OK => 200,
            StatusCode::Created => 201,
            StatusCode::Accepted => 202,
            StatusCode::NonAuthoritativeInformation => 203,
            StatusCode::NoContent => 204,
            StatusCode::ResetContent => 205,
            StatusCode::PartialContent => 206,
            StatusCode::MultipleChoices => 300,
            StatusCode::MovedPermanently => 301,
            StatusCode::Found => 302,
            StatusCode::SeeOther => 303,
            StatusCode::NotModified => 304,
            StatusCode::TemporaryRedirect => 307,
            StatusCode::PermanentRedirect => 308,
            StatusCode::BadRequest => 400,
            StatusCode::Unauthorized => 401,
            StatusCode::PaymentRequired => 402,
            StatusCode::Forbidden => 403,
            StatusCode::NotFound => 404,
            StatusCode::MethodNotAllowed => 405,
            StatusCode::NotAcceptable => 406,
            StatusCode::ProxyAuthenticationRequired => 407,
            StatusCode::RequestTimeout => 408,
            StatusCode::Conflict => 409,
            StatusCode::Gone => 410,
            StatusCode::LengthRequired => 411,
            StatusCode::PreconditionFailed => 412,
            StatusCode::ContentTooLarge => 413,
            StatusCode::UriTooLong => 414,
            StatusCode::UnsupportedMediaType => 415,
            StatusCode::RangeNotSatisfiable => 416,
            StatusCode::ExpectationFailed => 417,
            StatusCode::MisdirectedRequest => 421,
            StatusCode::UnprocessableContent => 422,
            StatusCode::UpgradeRequired => 426,
            StatusCode::InternalServerError => 500,
            StatusCode::NotImplemented => 501,
            StatusCode::BadGateway => 502,
            StatusCode::ServiceUnavailable => 503,
            StatusCode::GatewayTimeout => 504,
            StatusCode::HttpVersionNotSupported => 505,
        }
    }

    /// The reason phrase that follows the number on the status line.
    pub open spec fn reason(self) -> Seq<char> {
        match self {
            StatusCode::OK => "OK"@,
            StatusCode::Created => "Created"@,
            StatusCode::Accepted => "Accepted"@,
            StatusCode::NonAuthoritativeInformation => "Non-Authoritative Information"@,
            StatusCode::NoContent => "No Content"@,
            StatusCode::ResetContent => "Reset Content"@,
            StatusCode::PartialContent => "Partial Content"@,
            StatusCode::MultipleChoices => "Multiple Choices"@,
            StatusCode::MovedPermanently => "Moved Permanently"@,
            StatusCode::Found => "Found"@,
            StatusCode::SeeOther => "See Other"@,
            StatusCode::NotModified => "Not Modified"@,
            StatusCode::TemporaryRedirect => "Temporary Redirect"@,
            StatusCode::PermanentRedirect => "Permanent Redirect"@,
            StatusCode::BadRequest => "Bad Request"@,
            StatusCode::Unauthorized => "Unauthorized"@,
            StatusCode::PaymentRequired => "Payment Required"@,
            StatusCode::Forbidden => "Forbidden"@,
            StatusCode::NotFound => "Not Found"@,
            StatusCode::MethodNotAllowed => "Method Not Allowed"@,
            StatusCode::NotAcceptable => "Not Acceptable"@,
            StatusCode::ProxyAuthenticationRequired => "Proxy Authentication Required"@,
            StatusCode::RequestTimeout => "Request Timeout"@,
            StatusCode::Conflict => "Conflict"@,
            StatusCode::Gone => "Gone"@,
            StatusCode::LengthRequired => "Length Required"@,
            StatusCode::PreconditionFailed => "Precondition Failed"@,
            StatusCode::ContentTooLarge => "Content Too Large"@,
            StatusCode::UriTooLong => "URI Too Long"@,
            StatusCode::UnsupportedMediaType => "Unsupported Media Type"@,
            StatusCode::RangeNotSatisfiable => "Range Not Satisfiable"@,
            StatusCode::ExpectationFailed => "Expectation Failed"@,
            StatusCode::MisdirectedRequest => "Misdirected Request"@,
            StatusCode::UnprocessableContent => "Unprocessable Content"@,
            StatusCode::UpgradeRequired => "Upgrade Required"@,
            StatusCode::InternalServerError => "Internal Server Error"@,
            StatusCode::NotImplemented => "Not Implemented"@,
            StatusCode::BadGateway => "Bad Gateway"@,
            StatusCode::ServiceUnavailable => "Service Unavailable"@,
            StatusCode::GatewayTimeout => "Gateway Timeout"@,
            StatusCode::HttpVersionNotSupported => "HTTP Version Not Supported"@,
        }
    }

    /// The three-digit number of the status.
    pub fn code(&self) -> (r: u16)
        ensures
            r == self.number(),
            100 <= r <= 599,
    {
        match self {
            StatusCode::OK => 200,
            StatusCode::Created => 201,
            StatusCode::Accepted => 202,
            StatusCode::NonAuthoritativeInformation => 203,
            StatusCode::NoContent => 204,
            StatusCode::ResetContent => 205,
            StatusCode::PartialContent => 206,
            StatusCode::MultipleChoices => 300,
            StatusCode::MovedPermanently => 301,
            StatusCode::Found => 302,
            StatusCode::SeeOther => 303,
            StatusCode::NotModified => 304,
            StatusCode::TemporaryRedirect => 307,
            StatusCode::PermanentRedirect => 308,
            StatusCode::BadRequest => 400,
            StatusCode::Unauthorized => 401,
            StatusCode::PaymentRequired => 402,
            StatusCode::Forbidden => 403,
            StatusCode::NotFound => 404,
            StatusCode::MethodNotAllowed => 405,
            StatusCode::NotAcceptable => 406,
            StatusCode::ProxyAuthenticationRequired => 407,
            StatusCode::RequestTimeout => 408,
            StatusCode::Conflict => 409,
            StatusCode::Gone => 410,
            StatusCode::LengthRequired => 411,
            StatusCode::PreconditionFailed => 412,
            StatusCode::ContentTooLarge => 413,
            StatusCode::UriTooLong => 414,
            StatusCode::UnsupportedMediaType => 415,
            StatusCode::RangeNotSatisfiable => 416,
            StatusCode::ExpectationFailed => 417,
            StatusCode::MisdirectedRequest => 421,
            StatusCode::UnprocessableContent => 422,
            StatusCode::UpgradeRequired => 426,
            StatusCode::InternalServerError => 500,
            StatusCode::NotImplemented => 501,
            StatusCode::BadGateway => 502,
            StatusCode::ServiceUnavailable => 503,
            StatusCode::GatewayTimeout => 504,
            StatusCode::HttpVersionNotSupported => 505,
        }
    }

    /// The reason phrase that follows the number on the status line.
    pub fn reason_phrase(&self) -> (r: &'static str)
        ensures
            r@ == self.reason(),
    {
        match self {
            StatusCode::OK => "OK",
            StatusCode::Created => "Created",
            StatusCode::Accepted => "Accepted",
            StatusCode::NonAuthoritativeInformation => "Non-Authoritative Information",
            StatusCode::NoContent => "No Content",
            StatusCode::ResetContent => "Reset Content",
            StatusCode::PartialContent => "Partial Content",
            StatusCode::MultipleChoices => "Multiple Choices",
            StatusCode::MovedPermanently => "Moved Permanently",
            StatusCode::Found => "Found",
            StatusCode::SeeOther => "See Other",
            StatusCode::NotModified => "Not Modified",
            StatusCode::TemporaryRedirect => "Temporary Redirect",
            StatusCode::PermanentRedirect => "Permanent Redirect",
            StatusCode::BadRequest => "Bad Request",
            StatusCode::Unauthorized => "Unauthorized",
            StatusCode::PaymentRequired => "Payment Required",
            StatusCode::Forbidden => "Forbidden",
            StatusCode::NotFound => "Not Found",
            StatusCode::MethodNotAllowed => "Method Not Allowed",
            StatusCode::NotAcceptable => "Not Acceptable",
            StatusCode::ProxyAuthenticationRequired => "Proxy Authentication Required",
            StatusCode::RequestTimeout => "Request Timeout",
            StatusCode::Conflict => "Conflict",
            StatusCode::Gone => "Gone",
            StatusCode::LengthRequired => "Length Required",
            StatusCode::PreconditionFailed => "Precondition Failed",
            StatusCode::ContentTooLarge => "Content Too Large",
            StatusCode::UriTooLong => "URI Too Long",
            StatusCode::UnsupportedMediaType => "Unsupported Media Type",
            StatusCode::RangeNotSatisfiable => "Range Not Satisfiable",
            StatusCode::ExpectationFailed => "Expectation Failed",
            StatusCode::MisdirectedRequest => "Misdirected Request",
            StatusCode::UnprocessableContent => "Unprocessable Content",
            StatusCode::UpgradeRequired => "Upgrade Required",
            StatusCode::InternalServerError => "Internal Server Error",
            StatusCode::NotImplemented => "Not Implemented",
            StatusCode::BadGateway => "Bad Gateway",
            StatusCode::ServiceUnavailable => "Service Unavailable",
            StatusCode::GatewayTimeout => "Gateway Timeout",
            StatusCode::HttpVersionNotSupported => "HTTP Version Not Supported",
        }
    }
}

/// The character of a decimal digit.
pub open spec fn digit(d: nat) -> char {
    if d == 0 {
        '0'
    } else if d == 1 {
        '1'
    } else if d == 2 {
        '2'
    } else if d == 3 {
        '3'
    } else if d == 4 {
        '4'
    } else if d == 5 {
        '5'
    } else if d == 6 {
        '6'
    } else if d == 7 {
        '7'
    } else if d == 8 {
        '8'
    } else {
        '9'
    }
}

/// The decimal numeral of `n`, without leading zeros.
pub open spec fn decimal(n: nat) -> Seq<char>
    decreases n,
{
    if n < 10 {
        seq![digit(n)]
    } else {
        decimal(n / 10).push(digit(n % 10))
    }
}

fn digit_char(d: usize) -> (c: char)
    requires
        d < 10,
    ensures
        c == digit(d as nat),
{
    if d == 0 {
        '0'
    } else if d == 1 {
        '1'
    } else if d == 2 {
        '2'
    } else if d == 3 {
        '3'
    } else if d == 4 {
        '4'
    } else if d == 5 {
        '5'
    } else if d == 6 {
        '6'
    } else if d == 7 {
        '7'
    } else if d == 8 {
        '8'
    } else {
        '9'
    }
}

/// Appends the decimal numeral of `n` to `out`.
pub fn push_decimal(out: &mut String, n: usize)
    ensures
        final(out)@ == old(out)@ + decimal(n as nat),
    decreases n,
{
    if n >= 10 {
        push_decimal(out, n / 10);
    }
    out.push(digit_char(n % 10));
}

/// The text of a response: the status line, the length of the content in
/// bytes, an empty line, and the content.
pub open spec fn response_text(status: StatusCode, content: Option<Seq<char>>) -> Seq<char> {
    let body = match content {
        Some(c) => c,
        None => Seq::<char>::empty(),
    };
    "HTTP/1.1 "@ + decimal(status.number()) + " "@ + status.reason() + "\r\n"@
        + "Content-Length: "@ + decimal(encode_utf8(body).len()) + "\r\n\r\n"@ + body
}

/// Creates a formatted HTTP response.
pub fn create_response(status: StatusCode, content: Option<&str>) -> (r: String)
    ensures
        r@ == response_text(
            status,
            match content {
                Some(c) => Some(c@),
                None => None,
            },
        ),
{
    let body: &str = match content {
        Some(c) => c,
        None => "",
    };
    proof {
        reveal_strlit("");
    }
    let mut out = String::new();
    out.append("HTTP/1.1 ");
    push_decimal(&mut out, status.code() as usize);
    out.append(" ");
    out.append(status.reason_phrase());
    out.append("\r\n");
    out.append("Content-Length: ");
    push_decimal(&mut out, body.as_bytes().len());
    out.append("\r\n\r\n");
    out.append(body);
    out
}

/// What a table of fields holds: each key with the text of its value.
pub open spec fn entries(m: &StringHashMap<String>) -> Map<Seq<char>, Seq<char>> {
    Map::new(|k: Seq<char>| m@.contains_key(k), |k: Seq<char>| m@[k]@)
}

/// A request as plain values.
pub struct RequestView {
    pub method: Method,
    pub path: Seq<char>,
    pub query: Map<Seq<char>, Seq<char>>,
    pub headers: Map<Seq<char>, Seq<char>>,
    pub body: Option<Seq<char>>,
}

/// A parsed request. It does not change once it is made.
pub struct Request {
    method: Method,
    path: Path,
    query: Query,
    headers: Headers,
    body: Option<Body>,
}

impl View for Request {
    type V = RequestView;

    closed spec fn view(&self) -> RequestView {
        RequestView {
            method: self.method,
            path: self.path@,
            query: entries(&self.query),
            headers: entries(&self.headers),
            body: match self.body {
                Some(b) => Some(b@),
                None => None,
            },
        }
    }
}

impl Request {
    /// Puts a request together from its parts.
    pub fn from_parts(
        method: Method,
        path: Path,
        query: Query,
        headers: Headers,
        body: Option<Body>,
    ) -> (r: Request)
        ensures
            r@ == (RequestView {
                method,
                path: path@,
                query: entries(&query),
                headers: entries(&headers),
                body: match body {
                    Some(b) => Some(b@),
                    None => None,
                },
            }),
    {
        Request { method, path, query, headers, body }
    }

    /// The method of the request.
    pub fn method(&self) -> (m: Method)
        ensures
            m == self@.method,
    {
        self.method
    }

    /// The sanitized path of the request.
    pub fn path(&self) -> (p: &str)
        ensures
            p@ == self@.path,
    {
        self.path.as_str()
    }

    /// The query parameters of the request.
    pub fn query(&self) -> (q: &Query)
        ensures
            entries(q) == self@.query,
    {
        &self.query
    }

    /// The header fields of the request.
    pub fn headers(&self) -> (h: &Headers)
        ensures
            entries(h) == self@.headers,
    {
        &self.headers
    }

    /// The body of the request, if it has one.
    pub fn body(&self) -> (b: Option<&str>)
        ensures
            match b {
                Some(t) => self@.body == Some(t@),
                None => self@.body is None,
            },
    {
        match &self.body {
            Some(b) => Some(b.as_str()),
            None => None,
        }
    }
}

/// `.` and `/`: the characters a relative prefix such as `../` is made of.
pub open spec fn is_traversal(c: char) -> bool {
    c == '.' || c == '/'
}

/// `i` is the offset of the first character of `s` that is neither `.` nor `/`.
pub open spec fn clean_from(s: Seq<char>, i: int) -> bool {
    &&& 0 <= i < s.len()
    &&& !is_traversal(s[i])
    &&& forall|j: int| 0 <= j < i ==> is_traversal(#[trigger] s[j])
}

/// `s` without its leading run of `.` and `/`. A sequence made of nothing
/// else, the empty one included, is kept as it is.
pub open spec fn sanitized(s: Seq<char>) -> Seq<char> {
    if exists|i: int| clean_from(s, i) {
        s.skip(choose|i: int| clean_from(s, i))
    } else {
        s
    }
}

/// Only one offset can be the first clean one.
proof fn lemma_clean_from_unique(s: Seq<char>, i: int, k: int)
    requires
        clean_from(s, i),
        clean_from(s, k),
    ensures
        i == k,
{
    if i < k {
        assert(is_traversal(s[i]));
    } else if k < i {
        assert(is_traversal(s[k]));
    }
}

/// A prefix made of `.` and `/` alone is stripped whole, and what follows it
/// is returned unchanged.
pub proof fn lemma_sanitized_strips(prefix: Seq<char>, rest: Seq<char>)
    requires
        forall|j: int| 0 <= j < prefix.len() ==> is_traversal(#[trigger] prefix[j]),
        rest.len() > 0,
        !is_traversal(rest[0]),
    ensures
        sanitized(prefix + rest) == rest,
{
    let s = prefix + rest;
    let n = prefix.len() as int;
    assert(s[n] == rest[0]);
    assert forall|j: int| 0 <= j < n implies is_traversal(#[trigger] s[j]) by {
        assert(s[j] == prefix[j]);
    }
    assert(clean_from(s, n));
    lemma_clean_from_unique(s, n, choose|i: int| clean_from(s, i));
    assert(s.skip(n) =~= rest);
}

/// Sanitizing twice gives what sanitizing once gives.
pub proof fn lemma_sanitized_idempotent(s: Seq<char>)
    ensures
        sanitized(sanitized(s)) == sanitized(s),
{
    if exists|i: int| clean_from(s, i) {
        let i = choose|i: int| clean_from(s, i);
        let t = s.skip(i);
        assert(t[0] == s[i]);
        assert(clean_from(t, 0));
        lemma_clean_from_unique(t, 0, choose|k: int| clean_from(t, k));
        assert(t.skip(0) =~= t);
    }
}

/// What is left of a sanitized path begins with neither `.` nor `/`, unless
/// the path held nothing else.
pub proof fn lemma_sanitized_is_clean(s: Seq<char>)
    ensures
        sanitized(s).len() > 0 && !is_traversal(sanitized(s)[0]) || (sanitized(s) == s
            && forall|j: int| 0 <= j < s.len() ==> is_traversal(#[trigger] s[j])),
{
    if exists|i: int| clean_from(s, i) {
        let i = choose|i: int| clean_from(s, i);
        assert(s.skip(i)[0] == s[i]);
    } else {
        assert forall|j: int| 0 <= j < s.len() implies is_traversal(#[trigger] s[j]) by {
            if !is_traversal(s[j]) {
                lemma_first_clean_exists(s, j);
            }
        }
    }
}

/// Before a character that is neither `.` nor `/` there is a first such
/// character.
proof fn lemma_first_clean_exists(s: Seq<char>, j: int)
    requires
        0 <= j < s.len(),
        !is_traversal(s[j]),
    ensures
        exists|i: int| clean_from(s, i),
    decreases j,
{
    if exists|k: int| 0 <= k < j && !is_traversal(s[k]) {
        let k = choose|k: int| 0 <= k < j && !is_traversal(s[k]);
        lemma_first_clean_exists(s, k);
    } else {
        assert(clean_from(s, j));
    }
}

/// The slice without its leading run of `.` and `/`.
pub fn strip_traversal<'a>(s: &'a [char]) -> (r: &'a [char])
    ensures
        r@ == sanitized(s@),
{
    let n = s.len();
    let mut i: usize = 0;
    while i < n
        invariant
            n == s.len(),
            i <= n,
            forall|j: int| 0 <= j < i ==> is_traversal(#[trigger] s@[j]),
        decreases n - i,
    {
        if s[i] != '.' && s[i] != '/' {
            proof {
                assert(clean_from(s@, i as int));
                lemma_clean_from_unique(s@, i as int, choose|k: int| clean_from(s@, k));
            }
            return slice_subrange(s, i, n);
        }
        i += 1;
    }
    proof {
        if exists|k: int| clean_from(s@, k) {
            let k = choose|k: int| clean_from(s@, k);
            assert(is_traversal(s@[k]));
        }
    }
    s
}

/// Removes from a path what would let it climb out of a served directory.
pub trait Sanitize {
    /// Ensure no path-traversal unintended file access occurs.
    fn sanitize(&self) -> Self where Self: Sized;
}

impl Sanitize for String {
    fn sanitize(&self) -> (r: String)
        ensures
            r@ == sanitized(self@),
    {
        let chars = to_chars(self.as_str());
        to_text(strip_traversal(chars.as_slice()))
    }
}

} // verus!
