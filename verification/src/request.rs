//! Requests: the request line, the header block, and what the two make
//! together.

use vstd::prelude::*;
use vstd::slice::{slice_subrange, slice_to_vec};
use vstd::string::StringSliceAdditionalSpecFns;
use crate::headers::{Field, Headers, put};
use crate::text::{
    COLON, after_first_word, eq_ignore_ascii_case, find_byte, first_word, position,
    same_ignoring_case, split_word,
};
use crate::whitespace::{trim_white, trim_white_end, trim_white_end_of, trim_white_of};

verus! {

/// Why a request could not be read.
#[derive(Debug, Clone, Copy, PartialEq, Eq, Structural)]
pub enum ParseError {
    /// The request line holds no method or no path.
    MalformedRequest,
    /// The method is neither GET nor POST.
    UnsupportedMethod,
    /// A header line holds no colon.
    MalformedHeader,
}

#[derive(Debug, Clone, Copy, PartialEq, Eq, Structural)]
pub enum HttpMethod {
    Get,
    Post,
}

impl HttpMethod {
    /// The method that a token names, whatever the case of its letters.
    pub open spec fn of_token(token: Seq<u8>) -> Option<HttpMethod> {
        if same_ignoring_case(token, "GET".spec_bytes()) {
            Some(HttpMethod::Get)
        } else if same_ignoring_case(token, "POST".spec_bytes()) {
            Some(HttpMethod::Post)
        } else {
            None
        }
    }

    pub open spec fn name_spec(self) -> Seq<char> {
        match self {
            HttpMethod::Get => "GET"@,
            HttpMethod::Post => "POST"@,
        }
    }

    /// The method that a string names.
    pub fn try_from(value: &str) -> (r: Result<HttpMethod, ParseError>)
        ensures
            r == match Self::of_token(value.spec_bytes()) {
                Some(method) => Ok::<HttpMethod, ParseError>(method),
                None => Err(ParseError::UnsupportedMethod),
            },
    {
        Self::from_token(value.as_bytes())
    }

    /// The method that a word of a request line names.
    pub fn from_token(value: &[u8]) -> (r: Result<HttpMethod, ParseError>)
        ensures
            r == match Self::of_token(value@) {
                Some(method) => Ok::<HttpMethod, ParseError>(method),
                None => Err(ParseError::UnsupportedMethod),
            },
    {
        if eq_ignore_ascii_case(value, "GET".as_bytes()) {
            Ok(HttpMethod::Get)
        } else if eq_ignore_ascii_case(value, "POST".as_bytes()) {
            Ok(HttpMethod::Post)
        } else {
            Err(ParseError::UnsupportedMethod)
        }
    }

    /// The method as a request line writes it.
    pub fn name(&self) -> (r: &'static str)
        ensures
            r@ == self.name_spec(),
    {
        match self {
            HttpMethod::Get => "GET",
            HttpMethod::Post => "POST",
        }
    }
}

/// The version that a request line without one stands for.
pub open spec fn default_version() -> Seq<u8> {
    "HTTP/1.1".spec_bytes()
}

/// What a request line holds: its first three words are the method, the path
/// and the version. Further words are not read.
pub open spec fn request_line(line: Seq<u8>) -> Result<(HttpMethod, Seq<u8>, Seq<u8>), ParseError> {
    let method = first_word(line);
    let path = first_word(after_first_word(line));
    let version = first_word(after_first_word(after_first_word(line)));
    if method.len() == 0 {
        Err(ParseError::MalformedRequest)
    } else if HttpMethod::of_token(method).is_none() {
        Err(ParseError::UnsupportedMethod)
    } else if path.len() == 0 {
        Err(ParseError::MalformedRequest)
    } else {
        Ok(
            (
                HttpMethod::of_token(method).unwrap(),
                path,
                if version.len() == 0 {
                    default_version()
                } else {
                    version
                },
            ),
        )
    }
}

/// Reads the method, the path and the version off a request line.
pub fn parse_request_line(line: &[u8]) -> (r: Result<(HttpMethod, Vec<u8>, Vec<u8>), ParseError>)
    ensures
        match r {
            Ok((method, path, version)) => request_line(line@) == Ok::<
                (HttpMethod, Seq<u8>, Seq<u8>),
                ParseError,
            >((method, path@, version@)),
            Err(e) => request_line(line@) == Err::<(HttpMethod, Seq<u8>, Seq<u8>), ParseError>(e),
        },
{
    let (token, rest) = split_word(line);
    if token.len() == 0 {
        return Err(ParseError::MalformedRequest);
    }
    let method = match HttpMethod::from_token(token) {
        Ok(method) => method,
        Err(e) => {
            return Err(e);
        },
    };
    let (path, rest) = split_word(rest);
    if path.len() == 0 {
        return Err(ParseError::MalformedRequest);
    }
    let (version, _) = split_word(rest);
    let version = if version.len() == 0 {
        slice_to_vec("HTTP/1.1".as_bytes())
    } else {
        slice_to_vec(version)
    };
    Ok((method, slice_to_vec(path), version))
}

/// What a line of the header block holds: nothing, where only whitespace
/// stands on it, which ends the block; else the name before the first colon
/// and the value after it, each without the whitespace around it. Whitespace
/// is here every character with the property White_Space, in its UTF-8
/// encoding; the request line is split on ASCII whitespace alone.
pub open spec fn header_field(line: Seq<u8>) -> Result<Option<Field>, ParseError> {
    let t = trim_white_end(line);
    let c = position(t, COLON) as int;
    if t.len() == 0 {
        Ok(None)
    } else if c == t.len() {
        Err(ParseError::MalformedHeader)
    } else {
        Ok(Some((trim_white(t.take(c)), trim_white(t.skip(c + 1)))))
    }
}

/// Reads one line of the header block.
pub fn parse_header_line(line: &[u8]) -> (r: Result<Option<(Vec<u8>, Vec<u8>)>, ParseError>)
    ensures
        match r {
            Ok(Some((name, value))) => header_field(line@) == Ok::<Option<Field>, ParseError>(
                Some((name@, value@)),
            ),
            Ok(None) => header_field(line@) == Ok::<Option<Field>, ParseError>(None),
            Err(e) => header_field(line@) == Err::<Option<Field>, ParseError>(e),
        },
{
    let t = trim_white_end_of(line);
    if t.len() == 0 {
        return Ok(None);
    }
    let c = find_byte(t, COLON);
    if c == t.len() {
        return Err(ParseError::MalformedHeader);
    }
    proof {
        assert(t@.subrange(0, c as int) =~= t@.take(c as int));
        assert(t@.subrange(c + 1, t@.len() as int) =~= t@.skip(c + 1));
    }
    let name = trim_white_of(slice_subrange(t, 0, c));
    let value = trim_white_of(slice_subrange(t, c + 1, t.len()));
    Ok(Some((slice_to_vec(name), slice_to_vec(value))))
}

/// The fields that a header block adds to `acc`: each line's field in turn,
/// up to the first line that holds none, or to the last line.
pub open spec fn header_block(lines: Seq<Seq<u8>>, acc: Seq<Field>) -> Result<
    Seq<Field>,
    ParseError,
>
    decreases lines.len(),
{
    if lines.len() == 0 {
        Ok(acc)
    } else {
        match header_field(lines[0]) {
            Err(e) => Err(e),
            Ok(None) => Ok(acc),
            Ok(Some((name, value))) => header_block(lines.skip(1), put(acc, name, value)),
        }
    }
}

/// Takes one line of the header block into `headers`. `Ok(true)` asks for
/// the next line; `Ok(false)` says that the block has ended.
pub fn read_header_line(headers: &mut Headers, line: &[u8]) -> (r: Result<bool, ParseError>)
    ensures
        old(headers).wf() ==> final(headers).wf(),
        match header_field(line@) {
            Err(e) => {
                &&& r == Err::<bool, ParseError>(e)
                &&& final(headers).fields() == old(headers).fields()
            },
            Ok(None) => {
                &&& r == Ok::<bool, ParseError>(false)
                &&& final(headers).fields() == old(headers).fields()
            },
            Ok(Some((name, value))) => {
                &&& r == Ok::<bool, ParseError>(true)
                &&& final(headers).fields() == put(old(headers).fields(), name, value)
            },
        },
{
    match parse_header_line(line) {
        Err(e) => Err(e),
        Ok(None) => Ok(false),
        Ok(Some((name, value))) => {
            headers.insert(name, value);
            Ok(true)
        },
    }
}

/// The bytes of each line.
pub open spec fn line_views(lines: Seq<Vec<u8>>) -> Seq<Seq<u8>> {
    Seq::new(lines.len(), |i: int| lines[i]@)
}

/// Reads a header block, given line by line.
pub fn read_headers(lines: &Vec<Vec<u8>>) -> (r: Result<Headers, ParseError>)
    ensures
        match r {
            Ok(headers) => headers.wf() && header_block(line_views(lines@), Seq::empty()) == Ok::<
                Seq<Field>,
                ParseError,
            >(headers.fields()),
            Err(e) => header_block(line_views(lines@), Seq::empty()) == Err::<
                Seq<Field>,
                ParseError,
            >(e),
        },
{
    let mut headers = Headers::new();
    let mut i: usize = 0;
    let ghost all = line_views(lines@);
    proof {
        assert(all.skip(0) =~= all);
    }
    while i < lines.len()
        invariant
            i <= lines.len(),
            all == line_views(lines@),
            headers.wf(),
            header_block(all, Seq::empty()) == header_block(all.skip(i as int), headers.fields()),
        decreases lines.len() - i,
    {
        proof {
            assert(all.skip(i as int)[0] == lines@[i as int]@);
            assert(all.skip(i as int).skip(1) =~= all.skip(i + 1));
        }
        match read_header_line(&mut headers, lines[i].as_slice()) {
            Err(e) => {
                return Err(e);
            },
            Ok(false) => {
                return Ok(headers);
            },
            Ok(true) => {},
        }
        i += 1;
    }
    Ok(headers)
}

/// A request, once its line and its headers are read.
#[derive(Debug)]
pub struct RequestContext {
    pub method: HttpMethod,
    pub path: Vec<u8>,
    pub http_version: Vec<u8>,
    pub headers: Headers,
}

/// Reads a request from its first line and the lines that follow it. A
/// fault in the header block is reported before one in the request line.
pub fn parse_request(line: &[u8], header_lines: &Vec<Vec<u8>>) -> (r: Result<
    RequestContext,
    ParseError,
>)
    ensures
        match header_block(line_views(header_lines@), Seq::empty()) {
            Err(e) => r == Err::<RequestContext, ParseError>(e),
            Ok(fields) => match request_line(line@) {
                Err(e) => r == Err::<RequestContext, ParseError>(e),
                Ok((method, path, version)) => r.is_ok() && r.unwrap().method == method
                    && r.unwrap().path@ == path && r.unwrap().http_version@ == version
                    && r.unwrap().headers.fields() == fields && r.unwrap().headers.wf(),
            },
        },
{
    let headers = match read_headers(header_lines) {
        Ok(headers) => headers,
        Err(e) => {
            return Err(e);
        },
    };
    match parse_request_line(line) {
        Ok((method, path, http_version)) => Ok(
            RequestContext { method, path, http_version, headers },
        ),
        Err(e) => Err(e),
    }
}

} // verus!
