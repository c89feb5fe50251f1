//! HTTP request parsing logic.
//!
//! A message is a start line, header lines and an optional body. Lines end
//! with `\r\n`; the first empty line ends the head, and what follows it is the
//! body. What each parsing function returns is said by a function of the same
//! kind over `Seq<char>`: `method_of`, `endpoint_of`, `path_of`, `query_of`,
//! `headers_of`, `body_of` and, for the message as a whole, `request_of`.

use crate::http::{
    entries, lemma_method_names, sanitized, strip_traversal, Body, Headers, Method, Path, Query,
    Request, RequestView,
};
use crate::text::{
    all_free_of, find, first_index, free_of, halves, joined, lemma_first_index,
    lemma_halves_at_char, lemma_joined_free_of, lemma_pieces_at_char, lemma_pieces_of_joined,
    lemma_uncut_by_char, occurs_at, pieces, split_once, to_chars, to_text,
};
use vstd::hash_map::StringHashMap;
use vstd::prelude::*;
use vstd::slice::slice_subrange;

verus! {

/// Why a message could not be parsed.
#[derive(Clone, Copy, Debug, PartialEq, Eq, Structural)]
pub enum ParseError {
    /// The start line has no space, or its first token names no method.
    InvalidMethod,
    /// The start line has no second token.
    MissingPath,
    /// The endpoint has no `?`.
    MissingQuery,
    /// A piece of the query string has no `=`.
    MalformedQuery,
    /// The message has no empty line after its head.
    MissingBody,
}

impl ParseError {
    /// What to tell a reader about the error.
    pub fn message(&self) -> (r: &'static str)
        ensures
            r@ == "A parsing error occurred."@,
    {
        "A parsing error occurred."
    }
}

/// A single space, which separates the tokens of the start line.
pub open spec fn space() -> Seq<char> {
    seq![' ']
}

/// The line terminator.
pub open spec fn line_end() -> Seq<char> {
    seq!['\r', '\n']
}

/// The end of a line followed by an empty line: what ends the head.
pub open spec fn blank_line() -> Seq<char> {
    seq!['\r', '\n', '\r', '\n']
}

/// `?`, which separates the path from the query string.
pub open spec fn question_mark() -> Seq<char> {
    seq!['?']
}

/// `&`, which separates the pairs of a query string.
pub open spec fn ampersand() -> Seq<char> {
    seq!['&']
}

/// `=`, which separates a query key from its value.
pub open spec fn equals_sign() -> Seq<char> {
    seq!['=']
}

/// `:`, which separates a header name from its value.
pub open spec fn colon() -> Seq<char> {
    seq![':']
}

/// The first line of a message, without its terminator: the whole message
/// where it has no line terminator.
pub open spec fn start_line(r: Seq<char>) -> Seq<char> {
    match first_index(r, line_end()) {
        Some(i) => r.take(i),
        None => r,
    }
}

/// The head of a message: what stands before the first empty line, or the
/// whole message where it has none.
pub open spec fn head(r: Seq<char>) -> Seq<char> {
    match first_index(r, blank_line()) {
        Some(i) => r.take(i),
        None => r,
    }
}

/// Every item holds the separator.
pub open spec fn all_paired(items: Seq<Seq<char>>, sep: Seq<char>) -> bool {
    forall|i: int| 0 <= i < items.len() ==> halves(#[trigger] items[i], sep) is Some
}

/// The table that a list of `key<sep>value` items makes. Each item is cut at
/// its first separator; an item without one adds nothing; of two items with
/// one key the later one stays.
pub open spec fn fields(items: Seq<Seq<char>>, sep: Seq<char>) -> Map<Seq<char>, Seq<char>>
    decreases items.len(),
{
    if items.len() == 0 {
        Map::empty()
    } else {
        let earlier = fields(items.drop_last(), sep);
        match halves(items.last(), sep) {
            Some((key, value)) => earlier.insert(key, value),
            None => earlier,
        }
    }
}

/// The method of a message: the method that the first token of the start
/// line names.
pub open spec fn method_of(r: Seq<char>) -> Result<Method, ParseError> {
    match halves(start_line(r), space()) {
        Some((token, _)) => match Method::named(token) {
            Some(m) => Ok(m),
            None => Err(ParseError::InvalidMethod),
        },
        None => Err(ParseError::InvalidMethod),
    }
}

/// The endpoint of a message: the second of the tokens that single spaces
/// separate in the start line.
pub open spec fn endpoint_of(r: Seq<char>) -> Result<Seq<char>, ParseError> {
    match halves(start_line(r), space()) {
        Some((_, rest)) => match halves(rest, space()) {
            Some((endpoint, _)) => Ok(endpoint),
            None => Ok(rest),
        },
        None => Err(ParseError::MissingPath),
    }
}

/// The path of an endpoint: what stands before its first `?`, sanitized.
pub open spec fn path_of(e: Seq<char>) -> Seq<char> {
    match halves(e, question_mark()) {
        Some((path, _)) => sanitized(path),
        None => sanitized(e),
    }
}

/// The query parameters of an endpoint: the pairs that `&` separates in what
/// follows its first `?`. One piece without `=` spoils them all.
pub open spec fn query_of(e: Seq<char>) -> Result<Map<Seq<char>, Seq<char>>, ParseError> {
    match halves(e, question_mark()) {
        Some((_, query)) => {
            let pairs = pieces(query, ampersand());
            if all_paired(pairs, equals_sign()) {
                Ok(fields(pairs, equals_sign()))
            } else {
                Err(ParseError::MalformedQuery)
            }
        },
        None => Err(ParseError::MissingQuery),
    }
}

/// The header fields of a message: the lines of its head after the start
/// line, each cut at its first `:`. The value is all that follows the `:`, a
/// leading space included. A line without `:` is passed over.
pub open spec fn headers_of(r: Seq<char>) -> Map<Seq<char>, Seq<char>> {
    match halves(head(r), line_end()) {
        Some((_, lines)) => fields(pieces(lines, line_end()), colon()),
        None => Map::empty(),
    }
}

/// The body of a message: what follows the first empty line, if anything
/// does.
pub open spec fn body_of(r: Seq<char>) -> Result<Option<Seq<char>>, ParseError> {
    match halves(r, blank_line()) {
        Some((_, body)) => if body.len() == 0 {
            Ok(None)
        } else {
            Ok(Some(body))
        },
        None => Err(ParseError::MissingBody),
    }
}

/// The request that a message holds. Of several faults the first in this
/// order is reported: method, endpoint, query, body.
pub open spec fn request_of(r: Seq<char>) -> Result<RequestView, ParseError> {
    match method_of(r) {
        Err(e) => Err(e),
        Ok(method) => match endpoint_of(r) {
            Err(e) => Err(e),
            Ok(endpoint) => match query_of(endpoint) {
                Err(e) => Err(e),
                Ok(query) => match body_of(r) {
                    Err(e) => Err(e),
                    Ok(body) => Ok(
                        RequestView {
                            method,
                            path: path_of(endpoint),
                            query,
                            headers: headers_of(r),
                            body,
                        },
                    ),
                },
            },
        },
    }
}

/// Free of what ends a token of the start line: a space, or the carriage
/// return that a line terminator begins with.
pub open spec fn plain(s: Seq<char>) -> bool {
    free_of(s, ' ') && free_of(s, '\r')
}

/// What may follow the endpoint in a message: nothing, a space, or a line
/// terminator.
pub open spec fn ends_token(rest: Seq<char>) -> bool {
    rest.len() == 0 || rest[0] == ' ' || line_end().is_prefix_of(rest)
}

/// The start line of a message that begins with `pre`, where `pre` holds no
/// carriage return and is followed by nothing, a space or a line terminator:
/// `pre`, and then nothing or something that begins with a space.
proof fn lemma_start_line_from(pre: Seq<char>, rest: Seq<char>) -> (tail: Seq<char>)
    requires
        free_of(pre, '\r'),
        ends_token(rest),
    ensures
        start_line(pre + rest) == pre + tail,
        tail.len() == 0 || tail[0] == ' ',
{
    let s = pre + rest;
    let n = pre.len() as int;
    lemma_first_index(s, line_end());
    if line_end().is_prefix_of(rest) {
        assert(s.subrange(n, n + 2) =~= rest.subrange(0, 2));
        assert(occurs_at(s, line_end(), n));
    }
    match first_index(s, line_end()) {
        Some(i) => {
            assert(s.subrange(i, i + 2)[0] == s[i]);
            assert(line_end()[0] == '\r');
            if i < n {
                assert(s[i] == pre[i]);
            }
            let tail = rest.take(i - n);
            assert(s.take(i) =~= pre + tail);
            if tail.len() > 0 {
                assert(tail[0] == rest[0]);
            }
            tail
        },
        None => {
            assert(s =~= pre + rest);
            rest
        },
    }
}

/// A message that begins with the name of a method, a space and an endpoint
/// free of spaces and carriage returns, and goes on with nothing, a space or
/// a line terminator, has that method and that endpoint.
pub proof fn lemma_start_line_tokens(m: Method, endpoint: Seq<char>, rest: Seq<char>)
    requires
        plain(endpoint),
        ends_token(rest),
    ensures
        method_of(m.name() + seq![' '] + endpoint + rest) == Ok::<Method, ParseError>(m),
        endpoint_of(m.name() + seq![' '] + endpoint + rest) == Ok::<Seq<char>, ParseError>(
            endpoint,
        ),
{
    let name = m.name();
    let message = name + seq![' '] + endpoint + rest;
    lemma_method_names(m);
    let pre = name + seq![' '] + endpoint;
    assert(free_of(pre, '\r'));
    assert(message =~= pre + rest);
    let tail = lemma_start_line_from(pre, rest);
    let after = endpoint + tail;
    assert(pre + tail =~= name + seq![' '] + after);
    lemma_halves_at_char(name, ' ', after);
    if tail.len() == 0 {
        assert(after =~= endpoint);
        lemma_uncut_by_char(endpoint, ' ');
    } else {
        assert(after =~= endpoint + seq![' '] + tail.skip(1));
        lemma_halves_at_char(endpoint, ' ', tail.skip(1));
    }
}

/// A start line `METHOD PATH?k1=v1&k2=v2` is read as it is written. Where
/// the path and the keys and values are free of the characters that end them,
/// and the line goes on with nothing, a space or a line terminator, the
/// method is the one named, the path is `PATH` sanitized, and the query holds
/// `v1` under `k1` and `v2` under `k2`. The message as a whole then parses to
/// a request with that method, path and query, unless it lacks the empty line
/// that ends its head.
pub proof fn lemma_start_line_parses(
    m: Method,
    path: Seq<char>,
    k1: Seq<char>,
    v1: Seq<char>,
    k2: Seq<char>,
    v2: Seq<char>,
    rest: Seq<char>,
)
    requires
        plain(path) && free_of(path, '?'),
        plain(k1) && free_of(k1, '&') && free_of(k1, '='),
        plain(v1) && free_of(v1, '&'),
        plain(k2) && free_of(k2, '&') && free_of(k2, '='),
        plain(v2) && free_of(v2, '&'),
        ends_token(rest),
    ensures
        ({
            let endpoint = path + seq!['?'] + k1 + seq!['='] + v1 + seq!['&'] + k2 + seq!['=']
                + v2;
            let message = m.name() + seq![' '] + endpoint + rest;
            let query = Map::<Seq<char>, Seq<char>>::empty().insert(k1, v1).insert(k2, v2);
            &&& method_of(message) == Ok::<Method, ParseError>(m)
            &&& endpoint_of(message) == Ok::<Seq<char>, ParseError>(endpoint)
            &&& path_of(endpoint) == sanitized(path)
            &&& query_of(endpoint) == Ok::<Map<Seq<char>, Seq<char>>, ParseError>(query)
            &&& match request_of(message) {
                Ok(request) => request.method == m && request.path == sanitized(path)
                    && request.query == query,
                Err(e) => e == ParseError::MissingBody && body_of(message) is Err,
            }
        }),
{
    let first = k1 + seq!['='] + v1;
    let second = k2 + seq!['='] + v2;
    let query_text = first + seq!['&'] + second;
    let endpoint = path + seq!['?'] + k1 + seq!['='] + v1 + seq!['&'] + k2 + seq!['='] + v2;
    assert(endpoint =~= path + seq!['?'] + query_text);
    assert(plain(first));
    assert(plain(second));
    assert(plain(query_text));
    assert(plain(endpoint));
    lemma_start_line_tokens(m, endpoint, rest);

    // The path and the query string.
    lemma_halves_at_char(path, '?', query_text);
    assert(path_of(endpoint) == sanitized(path));

    // The two pairs.
    assert(free_of(first, '&'));
    assert(free_of(second, '&'));
    lemma_pieces_at_char(first, '&', second);
    lemma_uncut_by_char(second, '&');
    let pairs = seq![first, second];
    assert(seq![first] + seq![second] =~= pairs);
    assert(pieces(query_text, ampersand()) == pairs);
    lemma_halves_at_char(k1, '=', v1);
    lemma_halves_at_char(k2, '=', v2);
    assert(all_paired(pairs, equals_sign()));
    assert(pairs.drop_last() =~= seq![first]);
    assert(seq![first].drop_last() =~= Seq::<Seq<char>>::empty());
    assert(fields(seq![first], equals_sign()) == Map::<Seq<char>, Seq<char>>::empty().insert(
        k1,
        v1,
    )) by {
        reveal_with_fuel(fields, 2);
    }
    assert(fields(pairs, equals_sign()) == Map::<Seq<char>, Seq<char>>::empty().insert(
        k1,
        v1,
    ).insert(k2, v2));
}

/// One pair without `=` spoils the query: where the pieces between the `&`
/// of a query string are `items`, and one of them holds no `=`, the query is
/// malformed, whatever the other pieces hold.
pub proof fn lemma_malformed_query(path: Seq<char>, items: Seq<Seq<char>>, i: int)
    requires
        free_of(path, '?'),
        all_free_of(items, '&'),
        0 <= i < items.len(),
        free_of(items[i], '='),
    ensures
        query_of(path + seq!['?'] + joined(items, seq!['&'])) == Err::<
            Map<Seq<char>, Seq<char>>,
            ParseError,
        >(ParseError::MalformedQuery),
{
    let query_text = joined(items, seq!['&']);
    lemma_halves_at_char(path, '?', query_text);
    lemma_pieces_of_joined(items, '&');
    lemma_uncut_by_char(items[i], '=');
    assert(halves(pieces(query_text, ampersand())[i], equals_sign()) is None);
}

/// A message whose query string has one pair without `=` fails to parse with
/// `MalformedQuery`, though its method, its path and the other pairs are in
/// order.
pub proof fn lemma_malformed_query_fails_request(
    m: Method,
    path: Seq<char>,
    items: Seq<Seq<char>>,
    i: int,
    rest: Seq<char>,
)
    requires
        plain(path) && free_of(path, '?'),
        all_free_of(items, ' ') && all_free_of(items, '\r') && all_free_of(items, '&'),
        0 <= i < items.len(),
        free_of(items[i], '='),
        ends_token(rest),
    ensures
        request_of(m.name() + seq![' '] + (path + seq!['?'] + joined(items, seq!['&'])) + rest)
            == Err::<RequestView, ParseError>(ParseError::MalformedQuery),
{
    let query_text = joined(items, seq!['&']);
    let endpoint = path + seq!['?'] + query_text;
    lemma_joined_free_of(items, '&', ' ');
    lemma_joined_free_of(items, '&', '\r');
    assert(plain(endpoint));
    lemma_start_line_tokens(m, endpoint, rest);
    lemma_malformed_query(path, items, i);
}

/// The first line of a message, without its terminator.
fn first_line<'a>(r: &'a [char]) -> (line: &'a [char])
    ensures
        line@ == start_line(r@),
{
    let end = ['\r', '\n'];
    assert(end@ =~= line_end());
    match find(r, &end) {
        Some(i) => {
            proof {
                lemma_first_index(r@, line_end());
            }
            slice_subrange(r, 0, i)
        },
        None => r,
    }
}

/// The head of a message: what stands before its first empty line.
fn head_part<'a>(r: &'a [char]) -> (h: &'a [char])
    ensures
        h@ == head(r@),
{
    let end = ['\r', '\n', '\r', '\n'];
    assert(end@ =~= blank_line());
    match find(r, &end) {
        Some(i) => {
            proof {
                lemma_first_index(r@, blank_line());
            }
            slice_subrange(r, 0, i)
        },
        None => r,
    }
}

/// Parses the method from an HTTP/1.1 request.
pub fn parse_method(r: &str) -> (res: Result<Method, ParseError>)
    ensures
        res == method_of(r@),
{
    let chars = to_chars(r);
    let line = first_line(chars.as_slice());
    let sp = [' '];
    assert(sp@ =~= space());
    match split_once(line, &sp) {
        Some((token, _)) => match Method::from_token(token) {
            Some(m) => Ok(m),
            None => Err(ParseError::InvalidMethod),
        },
        None => Err(ParseError::InvalidMethod),
    }
}

/// Parses the endpoint (path and query string) from an HTTP/1.1 request.
pub fn parse_endpoint(r: &str) -> (res: Result<String, ParseError>)
    ensures
        match res {
            Ok(e) => endpoint_of(r@) == Ok::<Seq<char>, ParseError>(e@),
            Err(e) => endpoint_of(r@) == Err::<Seq<char>, ParseError>(e),
        },
{
    let chars = to_chars(r);
    let line = first_line(chars.as_slice());
    let sp = [' '];
    assert(sp@ =~= space());
    match split_once(line, &sp) {
        Some((_, rest)) => match split_once(rest, &sp) {
            Some((endpoint, _)) => Ok(to_text(endpoint)),
            None => Ok(to_text(rest)),
        },
        None => Err(ParseError::MissingPath),
    }
}

/// Parses the path from an endpoint (path and query string).
pub fn parse_path(e: &str) -> (res: Result<Path, ParseError>)
    ensures
        res matches Ok(p) && p@ == path_of(e@),
{
    let chars = to_chars(e);
    let mark = ['?'];
    assert(mark@ =~= question_mark());
    let raw = match split_once(chars.as_slice(), &mark) {
        Some((path, _)) => path,
        None => chars.as_slice(),
    };
    Ok(to_text(strip_traversal(raw)))
}

/// The owned strings of a pair of character slices.
pub fn tuple_str_to_string(t: (&[char], &[char])) -> (r: (String, String))
    ensures
        r.0@ == t.0@,
        r.1@ == t.1@,
{
    (to_text(t.0), to_text(t.1))
}

/// Reads the items that `item_sep` separates in `region` into a table,
/// cutting each at its first `pair_sep`. With `strict`, an item without
/// `pair_sep` makes the whole table `None`; without, such an item is passed
/// over.
pub fn collect_fields(region: &[char], item_sep: &[char], pair_sep: &[char], strict: bool) -> (r:
    Option<StringHashMap<String>>)
    ensures
        match r {
            Some(m) => {
                &&& entries(&m) == fields(pieces(region@, item_sep@), pair_sep@)
                &&& strict ==> all_paired(pieces(region@, item_sep@), pair_sep@)
            },
            None => strict && !all_paired(pieces(region@, item_sep@), pair_sep@),
        },
{
    let mut table: StringHashMap<String> = StringHashMap::new();
    let mut rest: &[char] = region;
    let mut more = true;
    let ghost mut done: Seq<Seq<char>> = Seq::empty();
    assert(entries(&table) =~= fields(done, pair_sep@));
    assert(done + pieces(rest@, item_sep@) =~= pieces(region@, item_sep@));
    while more
        invariant
            more ==> pieces(region@, item_sep@) == done + pieces(rest@, item_sep@),
            !more ==> pieces(region@, item_sep@) == done,
            entries(&table) == fields(done, pair_sep@),
            strict ==> all_paired(done, pair_sep@),
        decreases
                (if more {
                    rest@.len() + 1
                } else {
                    0
                }),
    {
        let ghost before = rest@;
        let ghost old_table = entries(&table);
        let item: &[char];
        let cut = if item_sep.len() > 0 {
            split_once(rest, item_sep)
        } else {
            None
        };
        match cut {
            Some((a, b)) => {
                proof {
                    lemma_first_index(before, item_sep@);
                    assert(done + (seq![a@] + pieces(b@, item_sep@)) =~= done.push(a@) + pieces(
                        b@,
                        item_sep@,
                    ));
                }
                item = a;
                rest = b;
            },
            None => {
                proof {
                    assert(done + seq![before] =~= done.push(before));
                }
                item = rest;
                more = false;
            },
        }
        proof {
            assert(pieces(region@, item_sep@)[done.len() as int] == item@);
            assert(done.push(item@).drop_last() =~= done);
            assert(done.push(item@).last() == item@);
        }
        match split_once(item, pair_sep) {
            Some((key, value)) => {
                let pair = tuple_str_to_string((key, value));
                table.insert(pair.0, pair.1);
                proof {
                    assert(entries(&table) =~= old_table.insert(key@, value@));
                }
            },
            None => {
                if strict {
                    return None;
                }
            },
        }
        proof {
            done = done.push(item@);
        }
    }
    Some(table)
}

/// Parses the query string from an endpoint (path and query string).
pub fn parse_query(e: &str) -> (res: Result<Query, ParseError>)
    ensures
        match res {
            Ok(q) => query_of(e@) == Ok::<Map<Seq<char>, Seq<char>>, ParseError>(entries(&q)),
            Err(err) => query_of(e@) == Err::<Map<Seq<char>, Seq<char>>, ParseError>(err),
        },
{
    let chars = to_chars(e);
    let mark = ['?'];
    let amp = ['&'];
    let eq = ['='];
    assert(mark@ =~= question_mark());
    assert(amp@ =~= ampersand());
    assert(eq@ =~= equals_sign());
    match split_once(chars.as_slice(), &mark) {
        Some((_, query)) => match collect_fields(query, &amp, &eq, true) {
            Some(table) => Ok(table),
            None => Err(ParseError::MalformedQuery),
        },
        None => Err(ParseError::MissingQuery),
    }
}

/// Parses all headers from an HTTP message.
pub fn parse_headers(r: &str) -> (res: Result<Headers, ParseError>)
    ensures
        res matches Ok(h) && entries(&h) == headers_of(r@),
{
    let chars = to_chars(r);
    let top = head_part(chars.as_slice());
    let end = ['\r', '\n'];
    let sep = [':'];
    assert(end@ =~= line_end());
    assert(sep@ =~= colon());
    match split_once(top, &end) {
        Some((_, lines)) => Ok(collect_fields(lines, &end, &sep, false).unwrap()),
        None => {
            let table: StringHashMap<String> = StringHashMap::new();
            assert(entries(&table) =~= Map::<Seq<char>, Seq<char>>::empty());
            Ok(table)
        },
    }
}

/// Optionally parses a message body from an HTTP message.
pub fn parse_body(r: &str) -> (res: Result<Option<Body>, ParseError>)
    ensures
        match res {
            Ok(Some(b)) => body_of(r@) == Ok::<Option<Seq<char>>, ParseError>(Some(b@)),
            Ok(None) => body_of(r@) == Ok::<Option<Seq<char>>, ParseError>(None),
            Err(e) => body_of(r@) == Err::<Option<Seq<char>>, ParseError>(e),
        },
{
    let chars = to_chars(r);
    let end = ['\r', '\n', '\r', '\n'];
    assert(end@ =~= blank_line());
    match split_once(chars.as_slice(), &end) {
        Some((_, body)) => {
            if body.len() == 0 {
                Ok(None)
            } else {
                Ok(Some(to_text(body)))
            }
        },
        None => Err(ParseError::MissingBody),
    }
}

/// Parses a UTF-8 string containing an HTTP request into a `Request`.
pub fn parse_http_request(data: &str) -> (res: Result<Request, ParseError>)
    ensures
        match res {
            Ok(request) => request_of(data@) == Ok::<RequestView, ParseError>(request@),
            Err(e) => request_of(data@) == Err::<RequestView, ParseError>(e),
        },
{
    let method = parse_method(data)?;
    let endpoint = parse_endpoint(data)?;
    let path = parse_path(endpoint.as_str())?;
    let query = parse_query(endpoint.as_str())?;
    let headers = parse_headers(data)?;
    let body = parse_body(data)?;
    Ok(Request::from_parts(method, path, query, headers, body))
}

} // verus!
