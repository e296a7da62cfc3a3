//! Responses: the status, the content that a response carries, and the bytes
//! that go out ahead of the body.

use vstd::prelude::*;
use vstd::string::{StrSliceExecFns, StringSliceAdditionalSpecFns};
use vstd::utf8::encode_utf8;
use std::path::PathBuf;
use nom::ToUsize;
use crate::headers::{Field, Headers, distinct_names, put};
use crate::text::{append, decimal, push_decimal};

verus! {

/// `std::path::PathBuf`: a filesystem path, carried here and never read.
#[verifier::external_type_specification]
#[verifier::external_body]
pub struct ExPathBuf(std::path::PathBuf);

/// Calls `nom::ToUsize::to_usize` on a `u64`. nom casts the number with
/// `as usize`, in an impl that exists only where a pointer has 64 bits, so
/// the number comes back unchanged.
#[verifier::external_body]
fn to_usize(n: u64) -> (r: usize)
    ensures
        r == n,
{
    n.to_usize()
}

#[derive(Copy, Clone, Debug, PartialEq, Eq, Structural)]
pub enum HttpStatus {
    Okay,
    Created,
    BadRequest,
    NotFound,
    InternalServerError,
}

impl HttpStatus {
    /// The status code.
    pub open spec fn code_spec(self) -> u16 {
        match self {
            HttpStatus::Okay => 200,
            HttpStatus::Created => 201,
            HttpStatus::BadRequest => 400,
            HttpStatus::NotFound => 404,
            HttpStatus::InternalServerError => 500,
        }
    }

    /// The reason phrase that goes out where a response names none.
    pub open spec fn reason_spec(self) -> Seq<char> {
        match self {
            HttpStatus::Okay => "OK"@,
            HttpStatus::Created => "Created"@,
            HttpStatus::BadRequest => "BadRequest"@,
            HttpStatus::NotFound => "NotFound"@,
            HttpStatus::InternalServerError => "InternalServerError"@,
        }
    }

    #[verifier::when_used_as_spec(code_spec)]
    pub fn code(self) -> (r: u16)
        ensures
            r == self.code_spec(),
    {
        match self {
            HttpStatus::Okay => 200,
            HttpStatus::Created => 201,
            HttpStatus::BadRequest => 400,
            HttpStatus::NotFound => 404,
            HttpStatus::InternalServerError => 500,
        }
    }

    pub fn reason(self) -> (r: &'static str)
        ensures
            r@ == self.reason_spec(),
    {
        match self {
            HttpStatus::Okay => "OK",
            HttpStatus::Created => "Created",
            HttpStatus::BadRequest => "BadRequest",
            HttpStatus::NotFound => "NotFound",
            HttpStatus::InternalServerError => "InternalServerError",
        }
    }
}

/// Text held in memory, as the bytes that go out for it.
#[derive(Debug)]
pub struct PlainTextContent {
    text: Vec<u8>,
}

impl View for PlainTextContent {
    type V = Seq<u8>;

    closed spec fn view(&self) -> Seq<u8> {
        self.text@
    }
}

impl PlainTextContent {
    /// The text of a string, in its UTF-8 encoding.
    pub fn new(text: String) -> (r: Box<Self>)
        ensures
            r@ == encode_utf8(text@),
    {
        Box::new(Self { text: text.as_str().as_bytes_vec() })
    }

    /// Text that came as bytes, kept as it came.
    pub fn from_bytes(text: Vec<u8>) -> (r: Box<Self>)
        ensures
            r@ == text@,
    {
        Box::new(Self { text })
    }

    pub fn content_type(&self) -> (r: &'static str)
        ensures
            r@ == ContentView::Text(self@).media_type(),
    {
        "text/plain"
    }

    /// The number of bytes in the text.
    pub fn content_length(&self) -> (r: usize)
        ensures
            r == self@.len(),
    {
        self.text.len()
    }

    /// The bytes of the text, from the first.
    pub fn content(&self) -> (r: &[u8])
        ensures
            r@ == self@,
    {
        self.text.as_slice()
    }

    pub fn into_bytes(self) -> (r: Vec<u8>)
        ensures
            r@ == self@,
    {
        self.text
    }
}

/// A file on disk, named by its path. Making one touches no file.
#[derive(Debug)]
pub struct FileContent {
    path: PathBuf,
}

impl View for FileContent {
    type V = PathBuf;

    closed spec fn view(&self) -> PathBuf {
        self.path
    }
}

impl FileContent {
    pub fn new(path: PathBuf) -> (r: Box<Self>)
        ensures
            r@ == path,
    {
        Box::new(Self { path })
    }

    pub fn content_type(&self) -> (r: &'static str)
        ensures
            r@ == ContentView::File(self@).media_type(),
    {
        "application/octet-stream"
    }

    /// The length to declare for the file, given the size in bytes that the
    /// filesystem reports for it.
    pub fn content_length(&self, file_size: u64) -> (r: usize)
        ensures
            r == file_size,
    {
        to_usize(file_size)
    }

    /// The path to open for the file's bytes.
    pub fn path(&self) -> (r: &PathBuf)
        ensures
            *r == self@,
    {
        &self.path
    }

    pub fn into_path(self) -> (r: PathBuf)
        ensures
            r == self@,
    {
        self.path
    }
}

/// What a response carries.
#[derive(Debug)]
pub enum HttpContent {
    Text(PlainTextContent),
    File(FileContent),
}

/// What a content is made of.
pub ghost enum ContentView {
    Text(Seq<u8>),
    File(PathBuf),
}

impl ContentView {
    /// The media type to declare.
    pub open spec fn media_type(self) -> Seq<char> {
        match self {
            ContentView::Text(_) => "text/plain"@,
            ContentView::File(_) => "application/octet-stream"@,
        }
    }

    /// The length to declare, where the filesystem reports `file_size` bytes
    /// for a file.
    pub open spec fn length(self, file_size: u64) -> nat {
        match self {
            ContentView::Text(text) => text.len(),
            ContentView::File(_) => file_size as nat,
        }
    }
}

impl View for HttpContent {
    type V = ContentView;

    open spec fn view(&self) -> ContentView {
        match self {
            HttpContent::Text(text) => ContentView::Text(text@),
            HttpContent::File(file) => ContentView::File(file@),
        }
    }
}

impl HttpContent {
    pub fn from_text(text: String) -> (r: Self)
        ensures
            r@ == ContentView::Text(encode_utf8(text@)),
    {
        HttpContent::Text(*PlainTextContent::new(text))
    }

    pub fn from_bytes(text: Vec<u8>) -> (r: Self)
        ensures
            r@ == ContentView::Text(text@),
    {
        HttpContent::Text(*PlainTextContent::from_bytes(text))
    }

    pub fn from_file(path: PathBuf) -> (r: Self)
        ensures
            r@ == ContentView::File(path),
    {
        HttpContent::File(*FileContent::new(path))
    }

    pub fn content_type(&self) -> (r: &'static str)
        ensures
            r@ == self@.media_type(),
    {
        match self {
            HttpContent::Text(text) => text.content_type(),
            HttpContent::File(file) => file.content_type(),
        }
    }

    /// The length to declare. `file_size` is the size in bytes that the
    /// filesystem reports for the file; text does not read it.
    pub fn content_length(&self, file_size: u64) -> (r: usize)
        ensures
            r == self@.length(file_size),
    {
        match self {
            HttpContent::Text(text) => text.content_length(),
            HttpContent::File(file) => file.content_length(file_size),
        }
    }
}

/// What a response is made of.
pub ghost struct ResponseView {
    pub status: HttpStatus,
    pub status_message: Option<Seq<char>>,
    pub headers: Seq<Field>,
    pub content: Option<ContentView>,
}

/// A name that the serializer writes itself for a response with content.
pub open spec fn is_reserved(name: Seq<u8>) -> bool {
    name == "Content-Type".spec_bytes() || name == "Content-Length".spec_bytes()
}

/// `HTTP/1.1`, the code, and the response's own reason phrase or else the
/// status's.
pub open spec fn status_line(v: ResponseView) -> Seq<u8> {
    "HTTP/1.1 ".spec_bytes() + decimal(v.status.code_spec() as nat) + " ".spec_bytes()
        + encode_utf8(
        match v.status_message {
            Some(message) => message,
            None => v.status.reason_spec(),
        },
    ) + "\r\n".spec_bytes()
}

pub open spec fn header_line(f: Field) -> Seq<u8> {
    f.0 + ": ".spec_bytes() + f.1 + "\r\n".spec_bytes()
}

/// One line for each field, in the fields' order.
pub open spec fn header_lines(p: Seq<Field>) -> Seq<u8>
    decreases p.len(),
{
    if p.len() == 0 {
        Seq::empty()
    } else {
        header_lines(p.drop_last()) + header_line(p.last())
    }
}

/// The two lines that declare a content; nothing where there is none.
pub open spec fn content_lines(content: Option<ContentView>, file_size: u64) -> Seq<u8> {
    match content {
        Some(c) => "Content-Type: ".spec_bytes() + encode_utf8(c.media_type())
            + "\r\n".spec_bytes() + "Content-Length: ".spec_bytes() + decimal(c.length(file_size))
            + "\r\n".spec_bytes(),
        None => Seq::empty(),
    }
}

/// All that goes out ahead of the body: the status line, the response's
/// headers, the lines that declare the content, and one empty line.
pub open spec fn head_bytes(v: ResponseView, file_size: u64) -> Seq<u8> {
    status_line(v) + header_lines(v.headers) + content_lines(v.content, file_size)
        + "\r\n".spec_bytes()
}

/// The whole of a response whose body is `body`.
pub open spec fn response_bytes(v: ResponseView, body: Seq<u8>) -> Seq<u8> {
    head_bytes(v, body.len() as u64) + body
}

#[derive(Debug)]
pub struct HttpResponse {
    status: HttpStatus,
    status_message: Option<String>,
    headers: Headers,
    content: Option<HttpContent>,
}

impl View for HttpResponse {
    type V = ResponseView;

    closed spec fn view(&self) -> ResponseView {
        ResponseView {
            status: self.status,
            status_message: match self.status_message {
                Some(message) => Some(message@),
                None => None,
            },
            headers: self.headers.fields(),
            content: match self.content {
                Some(content) => Some(content@),
                None => None,
            },
        }
    }
}

impl HttpResponse {
    /// No header name occurs twice, and none is one that the serializer
    /// writes itself.
    pub open spec fn wf(&self) -> bool {
        &&& distinct_names(self@.headers)
        &&& forall|i: int| 0 <= i < self@.headers.len() ==> !is_reserved(#[trigger] self@.headers[i].0)
    }

    pub fn new(status: HttpStatus) -> (r: Self)
        ensures
            r.wf(),
            r@ == (ResponseView {
                status,
                status_message: None,
                headers: Seq::empty(),
                content: None,
            }),
    {
        Self { status, status_message: None, headers: Headers::new(), content: None }
    }

    pub fn with_status_message(self, message: String) -> (r: Self)
        ensures
            self.wf() ==> r.wf(),
            r@ == (ResponseView { status_message: Some(message@), ..self@ }),
    {
        Self {
            status: self.status,
            status_message: Some(message),
            headers: self.headers,
            content: self.content,
        }
    }

    pub fn with_content(self, content: HttpContent) -> (r: Self)
        ensures
            self.wf() ==> r.wf(),
            r@ == (ResponseView { content: Some(content@), ..self@ }),
    {
        Self {
            status: self.status,
            status_message: self.status_message,
            headers: self.headers,
            content: Some(content),
        }
    }

    /// Sets a header of the caller's own. The two that declare the content
    /// are not the caller's to set.
    pub fn with_header(self, name: Vec<u8>, value: Vec<u8>) -> (r: Self)
        requires
            !is_reserved(name@),
        ensures
            self.wf() ==> r.wf(),
            r@ == (ResponseView { headers: put(self@.headers, name@, value@), ..self@ }),
    {
        let mut headers = self.headers;
        headers.insert(name, value);
        Self {
            status: self.status,
            status_message: self.status_message,
            headers,
            content: self.content,
        }
    }

    pub fn status(&self) -> (r: HttpStatus)
        ensures
            r == self@.status,
    {
        self.status
    }

    pub fn status_message(&self) -> (r: Option<&String>)
        ensures
            match r {
                Some(message) => self@.status_message == Some(message@),
                None => self@.status_message.is_none(),
            },
    {
        self.status_message.as_ref()
    }

    pub fn content(&self) -> (r: Option<&HttpContent>)
        ensures
            match r {
                Some(content) => self@.content == Some(content@),
                None => self@.content.is_none(),
            },
    {
        self.content.as_ref()
    }

    pub fn headers(&self) -> (r: &Headers)
        ensures
            r.fields() == self@.headers,
            self.wf() ==> r.wf(),
    {
        &self.headers
    }

    /// The content alone, for the one who sends it.
    pub fn into_content(self) -> (r: Option<HttpContent>)
        ensures
            match r {
                Some(content) => self@.content == Some(content@),
                None => self@.content.is_none(),
            },
    {
        self.content
    }

    /// The bytes that go out ahead of the body. `file_size` is the size in
    /// bytes that the filesystem reports for the file, read only where the
    /// content is a file.
    pub fn head(&self, file_size: u64) -> (r: Vec<u8>)
        ensures
            r@ == head_bytes(self@, file_size),
    {
        let mut out: Vec<u8> = Vec::new();
        append(&mut out, "HTTP/1.1 ".as_bytes());
        push_decimal(&mut out, self.status.code() as usize);
        append(&mut out, " ".as_bytes());
        match &self.status_message {
            Some(message) => append(&mut out, message.as_str().as_bytes()),
            None => append(&mut out, self.status.reason().as_bytes()),
        }
        append(&mut out, "\r\n".as_bytes());
        assert(out@ =~= status_line(self@));
        let n = self.headers.len();
        let mut i: usize = 0;
        assert(self@.headers.take(0) =~= Seq::<Field>::empty());
        assert(out@ =~= status_line(self@) + header_lines(self@.headers.take(0)));
        while i < n
            invariant
                i <= n,
                n == self@.headers.len(),
                self@.headers == self.headers.fields(),
                out@ == status_line(self@) + header_lines(self@.headers.take(i as int)),
            decreases n - i,
        {
            let ghost before = out@;
            let (name, value) = self.headers.field(i);
            append(&mut out, name.as_slice());
            append(&mut out, ": ".as_bytes());
            append(&mut out, value.as_slice());
            append(&mut out, "\r\n".as_bytes());
            proof {
                let p = self@.headers.take(i + 1);
                assert(p.drop_last() =~= self@.headers.take(i as int));
                assert(p.last() == self@.headers[i as int]);
                assert(out@ =~= before + header_line(self@.headers[i as int]));
                assert(out@ =~= status_line(self@) + header_lines(p));
            }
            i += 1;
        }
        assert(self@.headers.take(n as int) =~= self@.headers);
        let ghost before = out@;
        match &self.content {
            Some(content) => {
                append(&mut out, "Content-Type: ".as_bytes());
                append(&mut out, content.content_type().as_bytes());
                append(&mut out, "\r\n".as_bytes());
                append(&mut out, "Content-Length: ".as_bytes());
                push_decimal(&mut out, content.content_length(file_size));
                append(&mut out, "\r\n".as_bytes());
            },
            None => {},
        }
        assert(out@ =~= before + content_lines(self@.content, file_size));
        append(&mut out, "\r\n".as_bytes());
        assert(out@ =~= head_bytes(self@, file_size));
        out
    }

    /// The whole response where the body is in memory: the head, then the
    /// text. `None` for a file, which is to be streamed from its path.
    pub fn to_bytes(&self) -> (r: Option<Vec<u8>>)
        ensures
            match self@.content {
                None => r.is_some() && r.unwrap()@ == response_bytes(self@, Seq::empty()),
                Some(ContentView::Text(text)) => r.is_some() && r.unwrap()@ == response_bytes(
                    self@,
                    text,
                ),
                Some(ContentView::File(_)) => r.is_none(),
            },
    {
        match &self.content {
            None => Some(self.head(0)),
            Some(HttpContent::Text(text)) => {
                let mut out = self.head(0);
                append(&mut out, text.content());
                Some(out)
            },
            Some(HttpContent::File(_)) => None,
        }
    }
}

} // verus!
