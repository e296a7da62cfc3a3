//! Routing, and the handlers that turn a request into a response. What a
//! handler needs from the filesystem comes in as a plain value; what it
//! leaves to the caller goes out as one.

use vstd::prelude::*;
use vstd::slice::{slice_subrange, slice_to_vec};
use vstd::string::StringSliceAdditionalSpecFns;
use std::path::PathBuf;
use crate::http::{
    ContentView, HttpContent, HttpResponse, HttpStatus, ResponseView, head_bytes,
};
use crate::request::{HttpMethod, ParseError, RequestContext};
use crate::text::{bytes_equal, has_prefix, parse_number, parsed_number, starts_with};

verus! {

pub open spec fn echo_prefix() -> Seq<u8> {
    "/echo/".spec_bytes()
}

pub open spec fn files_prefix() -> Seq<u8> {
    "/files/".spec_bytes()
}

/// The header that an upload states its length in.
pub open spec fn content_length_name() -> Seq<u8> {
    "Content-Length".spec_bytes()
}

/// The header that `/user-agent` answers with.
pub open spec fn user_agent_name() -> Seq<u8> {
    "User-Agent".spec_bytes()
}

/// A response of a status alone: no reason phrase of its own, no headers,
/// no content.
pub open spec fn bare(status: HttpStatus) -> ResponseView {
    ResponseView { status, status_message: None, headers: Seq::empty(), content: None }
}

/// A response that carries `text` under the status 200.
pub open spec fn text_response(text: Seq<u8>) -> ResponseView {
    ResponseView { content: Some(ContentView::Text(text)), ..bare(HttpStatus::Okay) }
}

/// Where a request goes.
#[derive(Debug, Clone, Copy, PartialEq, Eq, Structural)]
pub enum Route {
    Index,
    UserAgent,
    Echo,
    Files,
    FilesPost,
    /// A GET for a path that nothing serves.
    NotFound,
    /// Any other request.
    BadRequest,
}

pub open spec fn route_of(method: HttpMethod, path: Seq<u8>) -> Route {
    match method {
        HttpMethod::Get => if path == "/".spec_bytes() {
            Route::Index
        } else if path == "/user-agent".spec_bytes() {
            Route::UserAgent
        } else if has_prefix(path, echo_prefix()) {
            Route::Echo
        } else if has_prefix(path, files_prefix()) {
            Route::Files
        } else {
            Route::NotFound
        },
        HttpMethod::Post => if has_prefix(path, files_prefix()) {
            Route::FilesPost
        } else {
            Route::BadRequest
        },
    }
}

pub fn route(ctx: &RequestContext) -> (r: Route)
    ensures
        r == route_of(ctx.method, ctx.path@),
{
    let path = ctx.path.as_slice();
    match ctx.method {
        HttpMethod::Get => if bytes_equal(path, "/".as_bytes()) {
            Route::Index
        } else if bytes_equal(path, "/user-agent".as_bytes()) {
            Route::UserAgent
        } else if starts_with(path, "/echo/".as_bytes()) {
            Route::Echo
        } else if starts_with(path, "/files/".as_bytes()) {
            Route::Files
        } else {
            Route::NotFound
        },
        HttpMethod::Post => if starts_with(path, "/files/".as_bytes()) {
            Route::FilesPost
        } else {
            Route::BadRequest
        },
    }
}

pub fn index(_ctx: &RequestContext) -> (r: HttpResponse)
    ensures
        r.wf(),
        r@ == bare(HttpStatus::Okay),
{
    HttpResponse::new(HttpStatus::Okay)
}

/// Answers with what follows `/echo/` in the path, byte for byte.
pub fn echo(ctx: &RequestContext) -> (r: HttpResponse)
    requires
        ctx.path@.len() >= echo_prefix().len(),
    ensures
        r.wf(),
        r@ == text_response(ctx.path@.skip(echo_prefix().len() as int)),
{
    let path = ctx.path.as_slice();
    let remaining = slice_subrange(path, "/echo/".as_bytes().len(), path.len());
    proof {
        assert(remaining@ =~= ctx.path@.skip(echo_prefix().len() as int));
    }
    let content = HttpContent::from_bytes(slice_to_vec(remaining));
    HttpResponse::new(HttpStatus::Okay).with_content(content)
}

/// What `/user-agent` answers to a request with these headers.
pub open spec fn user_agent_response(headers: Map<Seq<u8>, Seq<u8>>) -> ResponseView {
    if headers.contains_key(user_agent_name()) {
        text_response(headers[user_agent_name()])
    } else {
        bare(HttpStatus::BadRequest)
    }
}

/// Answers with the value of the `User-Agent` header.
pub fn user_agent(ctx: &RequestContext) -> (r: HttpResponse)
    ensures
        r.wf(),
        r@ == user_agent_response(ctx.headers@),
{
    match ctx.headers.get("User-Agent".as_bytes()) {
        Some(agent) => {
            let content = HttpContent::from_bytes(slice_to_vec(agent.as_slice()));
            HttpResponse::new(HttpStatus::Okay).with_content(content)
        },
        None => HttpResponse::new(HttpStatus::BadRequest),
    }
}

/// The name that a request under `/files/` asks for: what follows the prefix
/// in the path, byte for byte.
pub fn file_name(ctx: &RequestContext) -> (r: Vec<u8>)
    requires
        ctx.path@.len() >= files_prefix().len(),
    ensures
        r@ == ctx.path@.skip(files_prefix().len() as int),
{
    let path = ctx.path.as_slice();
    let remaining = slice_subrange(path, "/files/".as_bytes().len(), path.len());
    proof {
        assert(remaining@ =~= ctx.path@.skip(files_prefix().len() as int));
    }
    slice_to_vec(remaining)
}

/// What the serving directory holds under a requested name.
#[derive(Debug)]
pub enum FileLookup {
    /// No serving directory is configured.
    Unconfigured,
    /// The directory holds no such file.
    Absent,
    /// The file exists, at this path.
    Present(PathBuf),
}

/// What a GET under `/files/` answers.
pub open spec fn files_response(lookup: FileLookup) -> ResponseView {
    match lookup {
        FileLookup::Unconfigured => bare(HttpStatus::InternalServerError),
        FileLookup::Absent => bare(HttpStatus::NotFound),
        FileLookup::Present(path) => ResponseView {
            content: Some(ContentView::File(path)),
            ..bare(HttpStatus::Okay)
        },
    }
}

/// Answers a GET under `/files/`, given what was found for the name.
pub fn files(_ctx: &RequestContext, lookup: FileLookup) -> (r: HttpResponse)
    ensures
        r.wf(),
        r@ == files_response(lookup),
{
    match lookup {
        FileLookup::Unconfigured => HttpResponse::new(HttpStatus::InternalServerError),
        FileLookup::Absent => HttpResponse::new(HttpStatus::NotFound),
        FileLookup::Present(path) => HttpResponse::new(HttpStatus::Okay).with_content(
            HttpContent::from_file(path),
        ),
    }
}

/// How far an upload has come.
#[derive(Debug, Clone, Copy, PartialEq, Eq, Structural)]
pub enum Progress {
    /// More bytes are to be read.
    More,
    /// All the bytes are in.
    Complete,
    /// The stream ended before all the bytes were in.
    Truncated,
}

/// The most bytes that one read of an upload asks for.
pub const CHUNK: usize = 8192;

/// The count of an upload's bytes: how many the request declared, and how
/// many have come.
#[derive(Debug)]
pub struct Upload {
    expected: usize,
    received: usize,
}

impl Upload {
    pub closed spec fn expected(&self) -> nat {
        self.expected as nat
    }

    pub closed spec fn received(&self) -> nat {
        self.received as nat
    }

    /// No more bytes have come than were declared.
    pub open spec fn wf(&self) -> bool {
        self.received() <= self.expected()
    }

    /// The number of bytes that the next read asks for.
    pub open spec fn wanted_spec(&self) -> nat {
        if self.expected() - self.received() < CHUNK {
            (self.expected() - self.received()) as nat
        } else {
            CHUNK as nat
        }
    }

    pub fn new(expected: usize) -> (r: Self)
        ensures
            r.wf(),
            r.expected() == expected,
            r.received() == 0,
    {
        Upload { expected, received: 0 }
    }

    pub fn wanted(&self) -> (r: usize)
        requires
            self.wf(),
        ensures
            r == self.wanted_spec(),
    {
        let left = self.expected - self.received;
        if left < CHUNK {
            left
        } else {
            CHUNK
        }
    }

    pub fn is_complete(&self) -> (r: bool)
        ensures
            r == (self.received() >= self.expected()),
    {
        self.received >= self.expected
    }

    /// Counts the bytes that a read brought: `count` is what the read
    /// returned when asked for `wanted()` bytes.
    pub fn record(&mut self, count: usize) -> (r: Progress)
        requires
            old(self).wf(),
            count <= old(self).wanted_spec(),
        ensures
            final(self).wf(),
            final(self).expected() == old(self).expected(),
            final(self).received() == old(self).received() + count,
            r == if final(self).received() == final(self).expected() {
                Progress::Complete
            } else if count == 0 {
                Progress::Truncated
            } else {
                Progress::More
            },
    {
        self.received = self.received + count;
        if self.received == self.expected {
            Progress::Complete
        } else if count == 0 {
            Progress::Truncated
        } else {
            Progress::More
        }
    }

    /// The answer to an upload that is complete.
    pub fn finish(self) -> (r: HttpResponse)
        requires
            self.received() == self.expected(),
        ensures
            r.wf(),
            r@ == bare(HttpStatus::Created),
    {
        HttpResponse::new(HttpStatus::Created)
    }
}

/// What to do with a POST under `/files/`.
#[derive(Debug)]
pub enum UploadPlan {
    /// Answer at once, and read nothing more.
    Refuse(HttpResponse),
    /// Read the body into the file, by this count.
    Receive(Upload),
}

/// The number of bytes that a request declares for its body.
pub open spec fn declared_length(headers: Map<Seq<u8>, Seq<u8>>) -> Option<nat> {
    if headers.contains_key(content_length_name()) {
        parsed_number(headers[content_length_name()])
    } else {
        None
    }
}

/// Decides on a POST under `/files/`: refused with 500 where no serving
/// directory is configured, else with 400 where the request declares no
/// length that can be read; accepted otherwise, for that many bytes.
pub fn files_post(ctx: &RequestContext, configured: bool) -> (r: UploadPlan)
    ensures
        match r {
            UploadPlan::Refuse(response) => {
                &&& response.wf()
                &&& !configured ==> response@ == bare(HttpStatus::InternalServerError)
                &&& configured ==> declared_length(ctx.headers@).is_none() && response@ == bare(
                    HttpStatus::BadRequest,
                )
            },
            UploadPlan::Receive(upload) => {
                &&& configured
                &&& declared_length(ctx.headers@) == Some(upload.expected())
                &&& upload.received() == 0
                &&& upload.wf()
            },
        },
{
    if !configured {
        return UploadPlan::Refuse(HttpResponse::new(HttpStatus::InternalServerError));
    }
    let length = match ctx.headers.get("Content-Length".as_bytes()) {
        Some(value) => parse_number(value.as_slice()),
        None => None,
    };
    match length {
        Some(length) => UploadPlan::Receive(Upload::new(length)),
        None => UploadPlan::Refuse(HttpResponse::new(HttpStatus::BadRequest)),
    }
}

/// Where the bytes of a body come from.
#[derive(Debug)]
pub enum Body {
    /// There is no body.
    Empty,
    /// These bytes are the body.
    Text(Vec<u8>),
    /// The file at this path is the body, to be copied out piece by piece.
    File(PathBuf),
}

/// What goes out for a response: the head, then the body; then the writer
/// is flushed once.
#[derive(Debug)]
pub struct Transmission {
    pub head: Vec<u8>,
    pub body: Body,
}

/// The response that goes out in place of `v`: `v` itself, unless it
/// carries a file that could not be opened, which makes it a bare 500.
/// `file_size` is the size that the filesystem reports for the file, and
/// `None` where the file could not be opened.
pub open spec fn transmitted(v: ResponseView, file_size: Option<u64>) -> ResponseView {
    match (v.content, file_size) {
        (Some(ContentView::File(_)), None) => bare(HttpStatus::InternalServerError),
        _ => v,
    }
}

/// The size to declare for a file; text does not read it.
pub open spec fn size_or_zero(file_size: Option<u64>) -> u64 {
    match file_size {
        Some(size) => size,
        None => 0,
    }
}

impl RequestContext {
    /// What answering with `response` puts on the wire. `file_size` is the
    /// size in bytes that the filesystem reports for the file that the
    /// response carries, and `None` where the file could not be opened or
    /// the response carries none.
    pub fn send(&self, response: HttpResponse, file_size: Option<u64>) -> (r: Transmission)
        ensures
            r.head@ == head_bytes(transmitted(response@, file_size), size_or_zero(file_size)),
            match transmitted(response@, file_size).content {
                None => r.body matches Body::Empty,
                Some(ContentView::Text(text)) => r.body matches Body::Text(bytes) && bytes@ == text,
                Some(ContentView::File(path)) => r.body matches Body::File(from) && from == path,
            },
    {
        let size = match file_size {
            Some(size) => size,
            None => 0,
        };
        let head = response.head(size);
        match response.into_content() {
            None => Transmission { head, body: Body::Empty },
            Some(HttpContent::Text(text)) => Transmission { head, body: Body::Text(text.into_bytes()) },
            Some(HttpContent::File(file)) => match file_size {
                Some(_) => Transmission { head, body: Body::File(file.into_path()) },
                None => Transmission {
                    head: HttpResponse::new(HttpStatus::InternalServerError).head(0),
                    body: Body::Empty,
                },
            },
        }
    }
}

/// The answer to a request that could not be read.
pub fn reject(_error: ParseError) -> (r: HttpResponse)
    ensures
        r.wf(),
        r@ == bare(HttpStatus::BadRequest),
{
    HttpResponse::new(HttpStatus::BadRequest)
}

/// What a request comes to.
#[derive(Debug)]
pub enum Outcome {
    /// The response is ready.
    Respond(HttpResponse),
    /// Look the file up that `file_name` names, and hand what was found to
    /// `files`.
    FindFile,
    /// Hand the request to `files_post`.
    ReceiveFile,
}

/// Routes a request, and answers it where the answer needs no file.
pub fn process_request(ctx: &RequestContext) -> (r: Outcome)
    ensures
        match route_of(ctx.method, ctx.path@) {
            Route::Index => r matches Outcome::Respond(response) && response.wf() && response@
                == bare(HttpStatus::Okay),
            Route::UserAgent => r matches Outcome::Respond(response) && response.wf() && response@
                == user_agent_response(ctx.headers@),
            Route::Echo => r matches Outcome::Respond(response) && response.wf() && response@
                == text_response(ctx.path@.skip(echo_prefix().len() as int)),
            Route::Files => r matches Outcome::FindFile,
            Route::FilesPost => r matches Outcome::ReceiveFile,
            Route::NotFound => r matches Outcome::Respond(response) && response.wf() && response@
                == bare(HttpStatus::NotFound),
            Route::BadRequest => r matches Outcome::Respond(response) && response.wf() && response@
                == bare(HttpStatus::BadRequest),
        },
{
    match route(ctx) {
        Route::Index => Outcome::Respond(index(ctx)),
        Route::UserAgent => Outcome::Respond(user_agent(ctx)),
        Route::Echo => Outcome::Respond(echo(ctx)),
        Route::Files => Outcome::FindFile,
        Route::FilesPost => Outcome::ReceiveFile,
        Route::NotFound => Outcome::Respond(HttpResponse::new(HttpStatus::NotFound)),
        Route::BadRequest => Outcome::Respond(HttpResponse::new(HttpStatus::BadRequest)),
    }
}

} // verus!
