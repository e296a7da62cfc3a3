//! What holds of the handlers and of the serializer together, for every
//! request.

use vstd::prelude::*;
use vstd::string::StringSliceAdditionalSpecFns;
use vstd::utf8::{encode_utf8, is_ascii_chars_encode_utf8};
use std::path::PathBuf;
use crate::handlers::{
    FileLookup, Route, bare, echo_prefix, files_prefix, files_response, route_of, text_response,
    user_agent_name, user_agent_response,
};
use crate::headers::Field;
use crate::http::{HttpStatus, head_bytes, header_line, header_lines, response_bytes};
use crate::request::{HttpMethod, ParseError, header_field, request_line};
use crate::text::{
    COLON, SPACE, all_digits, decimal, digits_value, first_word, is_digit, is_space,
    lemma_first_word_concat, lemma_leading_space, lemma_position_concat, no_space, parsed_number,
    position, unsigned,
};
use crate::whitespace::{
    is_trimmed, trim_white, trim_white_end, trim_white_start, white_prefix, white_suffix,
};

verus! {

/// The lengths of the routed paths, and the byte by which they differ.
proof fn lemma_paths()
    ensures
        "/".spec_bytes().len() == 1,
        "/user-agent".spec_bytes().len() == 11,
        "/user-agent".spec_bytes()[1] == 117,
        echo_prefix().len() == 6,
        echo_prefix()[1] == 101,
        files_prefix().len() == 7,
        files_prefix()[1] == 102,
{
    reveal_strlit("/");
    reveal_strlit("/user-agent");
    reveal_strlit("/echo/");
    reveal_strlit("/files/");
    is_ascii_chars_encode_utf8("/"@);
    is_ascii_chars_encode_utf8("/user-agent"@);
    is_ascii_chars_encode_utf8("/echo/"@);
    is_ascii_chars_encode_utf8("/files/"@);
}

/// A request line as a client writes it: the method, the path and the
/// version, a space between them, and the line's end.
pub open spec fn request_line_bytes(method: HttpMethod, path: Seq<u8>, version: Seq<u8>) -> Seq<
    u8,
> {
    encode_utf8(method.name_spec()) + seq![SPACE] + path + seq![SPACE] + version
        + "\r\n".spec_bytes()
}

/// The method names are words, each names its own method, and a line's end
/// begins with whitespace.
proof fn lemma_method_names(method: HttpMethod)
    ensures
        encode_utf8(method.name_spec()).len() > 0,
        no_space(encode_utf8(method.name_spec())),
        HttpMethod::of_token(encode_utf8(method.name_spec())) == Some(method),
        "\r\n".spec_bytes().len() == 2,
        is_space("\r\n".spec_bytes()[0]),
{
    reveal_strlit("GET");
    reveal_strlit("POST");
    reveal_strlit("\r\n");
    is_ascii_chars_encode_utf8("GET"@);
    is_ascii_chars_encode_utf8("POST"@);
    is_ascii_chars_encode_utf8("\r\n"@);
}

/// A request line written with a path and a version that are words is read
/// back as it was written.
pub proof fn law_request_line(method: HttpMethod, path: Seq<u8>, version: Seq<u8>)
    requires
        path.len() > 0,
        no_space(path),
        version.len() > 0,
        no_space(version),
    ensures
        request_line(request_line_bytes(method, path, version)) == Ok::<
            (HttpMethod, Seq<u8>, Seq<u8>),
            ParseError,
        >((method, path, version)),
{
    lemma_method_names(method);
    let name = encode_utf8(method.name_spec());
    let end = "\r\n".spec_bytes();
    let line = request_line_bytes(method, path, version);
    let after_path = seq![SPACE] + (version + end);
    let after_name = seq![SPACE] + (path + after_path);
    assert(line =~= name + after_name);
    lemma_first_word_concat(name, after_name);
    lemma_leading_space(path + after_path);
    lemma_first_word_concat(path, after_path);
    lemma_leading_space(version + end);
    lemma_first_word_concat(version, end);
}

/// A request line that asks for `/echo/` and a word after it is read as a
/// GET for that path, and so answered with the word.
pub proof fn law_echo_request(x: Seq<u8>, version: Seq<u8>)
    requires
        no_space(x),
        version.len() > 0,
        no_space(version),
    ensures
        request_line(request_line_bytes(HttpMethod::Get, echo_prefix() + x, version)) == Ok::<
            (HttpMethod, Seq<u8>, Seq<u8>),
            ParseError,
        >((HttpMethod::Get, echo_prefix() + x, version)),
        route_of(HttpMethod::Get, echo_prefix() + x) == Route::Echo,
        (echo_prefix() + x).skip(echo_prefix().len() as int) == x,
{
    reveal_strlit("/echo/");
    is_ascii_chars_encode_utf8("/echo/"@);
    law_request_line(HttpMethod::Get, echo_prefix() + x, version);
    law_echo(x);
}

/// A header line as the serializer writes it is read back as the field it
/// was written for, where the name holds no colon and no whitespace
/// character stands at either end of the name or of the value.
pub proof fn law_header_line(name: Seq<u8>, value: Seq<u8>)
    requires
        forall|i: int| 0 <= i < name.len() ==> name[i] != COLON,
        is_trimmed(name),
        is_trimmed(value),
    ensures
        header_field(header_line((name, value))) == Ok::<Option<Field>, ParseError>(
            Some((name, value)),
        ),
{
    reveal_strlit(": ");
    reveal_strlit("\r\n");
    is_ascii_chars_encode_utf8(": "@);
    is_ascii_chars_encode_utf8("\r\n"@);
    let line = header_line((name, value));
    assert(": ".spec_bytes() =~= seq![COLON, SPACE]);
    assert("\r\n".spec_bytes() =~= seq![13u8, 10u8]);
    let body = name + seq![COLON, SPACE] + value;
    let t = if value.len() == 0 {
        name + seq![COLON]
    } else {
        body
    };
    assert(trim_white_end(line) == t) by {
        let with_return = body + seq![13u8];
        assert(line =~= with_return + seq![10u8]);
        assert(white_suffix(line) == 1);
        assert(line.take(line.len() - 1) =~= with_return);
        assert(white_suffix(with_return) == 1);
        assert(with_return.take(with_return.len() - 1) =~= body);
        assert(trim_white_end(line) == trim_white_end(with_return));
        assert(trim_white_end(with_return) == trim_white_end(body));
        if value.len() == 0 {
            assert(body =~= t + seq![SPACE]);
            assert(white_suffix(body) == 1);
            assert(body.take(body.len() - 1) =~= t);
            assert(t.last() == COLON);
            assert(white_suffix(t) == 0);
            assert(trim_white_end(body) == trim_white_end(t));
            assert(trim_white_end(t) == t);
        } else {
            let n = body.len() as int;
            let m = value.len() as int;
            assert(body[n - 1] == value[m - 1]);
            if m >= 2 {
                assert(body[n - 2] == value[m - 2]);
            } else {
                assert(body[n - 2] == SPACE);
            }
            if m >= 3 {
                assert(body[n - 3] == value[m - 3]);
            } else if m == 2 {
                assert(body[n - 3] == SPACE);
            } else {
                assert(body[n - 3] == COLON);
            }
            assert(white_suffix(body) == 0);
            assert(trim_white_end(body) == body);
        }
    }
    lemma_position_concat(name, COLON, t.skip(name.len() as int + 1));
    assert(t =~= name + seq![COLON] + t.skip(name.len() as int + 1));
    let c = position(t, COLON) as int;
    assert(c == name.len());
    assert(t.take(c) =~= name);
    assert(trim_white(name) == name);
    if value.len() == 0 {
        assert(t.skip(c + 1) =~= value);
    } else {
        let after = seq![SPACE] + value;
        assert(t.skip(c + 1) =~= after);
        assert(after[0] == SPACE);
        assert(white_prefix(after) == 1);
        assert(after.skip(1) =~= value);
        assert(trim_white_start(value) == value);
        assert(trim_white_start(after) == value);
    }
    assert(trim_white(t.skip(c + 1)) == value);
}

/// The decimal digits of a number write that number.
proof fn lemma_decimal_digits(n: nat)
    ensures
        decimal(n).len() > 0,
        all_digits(decimal(n)),
        digits_value(decimal(n)) == n,
    decreases n,
{
    if n >= 10 {
        lemma_decimal_digits(n / 10);
        let s = decimal(n);
        assert(s.drop_last() =~= decimal(n / 10));
        assert forall|i: int| 0 <= i < s.len() implies is_digit(#[trigger] s[i]) by {
            if i < s.len() - 1 {
                assert(s[i] == decimal(n / 10)[i]);
            }
        }
    } else {
        assert(decimal(n).drop_last() =~= Seq::<u8>::empty());
        assert(digits_value(decimal(n).drop_last()) == 0);
    }
}

/// A length that the serializer declares is read back as the same number.
pub proof fn law_declared_length(n: nat)
    requires
        n <= usize::MAX,
    ensures
        parsed_number(decimal(n)) == Some(n),
{
    lemma_decimal_digits(n);
    assert(is_digit(decimal(n)[0]));
    assert(unsigned(decimal(n)) == decimal(n));
}

/// What goes out for a response of a status alone: the status line and one
/// empty line, with nothing declared and no body.
pub open spec fn bare_bytes(status: HttpStatus) -> Seq<u8> {
    "HTTP/1.1 ".spec_bytes() + decimal(status.code_spec() as nat) + " ".spec_bytes()
        + encode_utf8(status.reason_spec()) + "\r\n".spec_bytes() + "\r\n".spec_bytes()
}

/// A response of a status alone goes out as its status line and one empty
/// line.
pub proof fn law_bare_response(status: HttpStatus)
    ensures
        response_bytes(bare(status), Seq::empty()) == bare_bytes(status),
{
    assert(header_lines(Seq::<Field>::empty()) =~= Seq::<u8>::empty());
    assert(response_bytes(bare(status), Seq::empty()) =~= bare_bytes(status));
}

/// A GET for `/echo/` and any bytes after it goes to the echo handler; the
/// answer carries exactly those bytes, declares their number as its length,
/// and ends with them.
pub proof fn law_echo(x: Seq<u8>)
    ensures
        route_of(HttpMethod::Get, echo_prefix() + x) == Route::Echo,
        (echo_prefix() + x).skip(echo_prefix().len() as int) == x,
        response_bytes(text_response(x), x) == "HTTP/1.1 ".spec_bytes() + decimal(200)
            + " ".spec_bytes() + encode_utf8("OK"@) + "\r\n".spec_bytes()
            + "Content-Type: ".spec_bytes() + encode_utf8("text/plain"@) + "\r\n".spec_bytes()
            + "Content-Length: ".spec_bytes() + decimal(x.len()) + "\r\n".spec_bytes()
            + "\r\n".spec_bytes() + x,
{
    lemma_paths();
    let path = echo_prefix() + x;
    assert(path.take(echo_prefix().len() as int) =~= echo_prefix());
    assert(path[1] == echo_prefix()[1]);
    assert(path.skip(echo_prefix().len() as int) =~= x);
    assert(header_lines(Seq::<Field>::empty()) =~= Seq::<u8>::empty());
    assert(response_bytes(text_response(x), x) =~= "HTTP/1.1 ".spec_bytes() + decimal(200)
        + " ".spec_bytes() + encode_utf8("OK"@) + "\r\n".spec_bytes()
        + "Content-Type: ".spec_bytes() + encode_utf8("text/plain"@) + "\r\n".spec_bytes()
        + "Content-Length: ".spec_bytes() + decimal(x.len()) + "\r\n".spec_bytes()
        + "\r\n".spec_bytes() + x);
}

/// A GET for `/user-agent` goes to its handler, and a request without a
/// `User-Agent` header is answered there with 400 and no body.
pub proof fn law_user_agent_missing(headers: Map<Seq<u8>, Seq<u8>>)
    requires
        !headers.contains_key(user_agent_name()),
    ensures
        route_of(HttpMethod::Get, "/user-agent".spec_bytes()) == Route::UserAgent,
        user_agent_response(headers) == bare(HttpStatus::BadRequest),
        response_bytes(user_agent_response(headers), Seq::empty()) == bare_bytes(
            HttpStatus::BadRequest,
        ),
{
    lemma_paths();
    law_bare_response(HttpStatus::BadRequest);
}

/// A GET for a name under `/files/` goes to the files handler, and a name
/// that is not there is answered with 404 and no body.
pub proof fn law_missing_file(name: Seq<u8>)
    ensures
        route_of(HttpMethod::Get, files_prefix() + name) == Route::Files,
        (files_prefix() + name).skip(files_prefix().len() as int) == name,
        files_response(FileLookup::Absent) == bare(HttpStatus::NotFound),
        response_bytes(files_response(FileLookup::Absent), Seq::empty()) == bare_bytes(
            HttpStatus::NotFound,
        ),
{
    lemma_paths();
    let path = files_prefix() + name;
    assert(path.take(files_prefix().len() as int) =~= files_prefix());
    assert(path[1] == files_prefix()[1]);
    assert(path.skip(files_prefix().len() as int) =~= name);
    if path.len() >= 6 {
        assert(path.take(6)[1] == path[1]);
    }
    law_bare_response(HttpStatus::NotFound);
}

/// A file that is there is answered with 200, and declared as a stream of
/// octets of the size that the filesystem reports for it.
pub proof fn law_file_found(path: PathBuf, file_size: u64)
    ensures
        head_bytes(files_response(FileLookup::Present(path)), file_size) == "HTTP/1.1 ".spec_bytes()
            + decimal(200) + " ".spec_bytes() + encode_utf8("OK"@) + "\r\n".spec_bytes()
            + "Content-Type: ".spec_bytes() + encode_utf8("application/octet-stream"@)
            + "\r\n".spec_bytes() + "Content-Length: ".spec_bytes() + decimal(file_size as nat)
            + "\r\n".spec_bytes() + "\r\n".spec_bytes(),
{
    assert(header_lines(Seq::<Field>::empty()) =~= Seq::<u8>::empty());
    assert(head_bytes(files_response(FileLookup::Present(path)), file_size)
        =~= "HTTP/1.1 ".spec_bytes() + decimal(200) + " ".spec_bytes() + encode_utf8("OK"@)
        + "\r\n".spec_bytes() + "Content-Type: ".spec_bytes() + encode_utf8(
        "application/octet-stream"@,
    ) + "\r\n".spec_bytes() + "Content-Length: ".spec_bytes() + decimal(file_size as nat)
        + "\r\n".spec_bytes() + "\r\n".spec_bytes());
}

/// A request line whose first word is neither GET nor POST, in any case of
/// letters, is refused as an unsupported method.
pub proof fn law_unsupported_method(line: Seq<u8>)
    requires
        first_word(line).len() > 0,
        HttpMethod::of_token(first_word(line)).is_none(),
    ensures
        request_line(line) == Err::<(HttpMethod, Seq<u8>, Seq<u8>), ParseError>(
            ParseError::UnsupportedMethod,
        ),
{
}

} // verus!
