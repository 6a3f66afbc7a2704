//! Rendering of a handler's result as a response, and the compression stage
//! that a route group may put around its handlers.

use crate::error::ErrorKind;
use crate::handlers::{result_view, Body, BodyView};
use vstd::prelude::*;
use vstd::string::{StringExecFns, StringSliceAdditionalSpecFns};
use vstd::utf8::encode_utf8;

verus! {

/// Status of a response that carries a handler's success.
pub const STATUS_OK: u16 = 200;

/// Status of a response to input that fails validation.
pub const STATUS_BAD_REQUEST: u16 = 400;

/// Status of a response to a path that nothing serves.
pub const STATUS_NOT_FOUND: u16 = 404;

/// Status of a response to a method that a known path does not take.
pub const STATUS_METHOD_NOT_ALLOWED: u16 = 405;

/// Status of a response to a request whose asset could not be read.
pub const STATUS_INTERNAL_SERVER_ERROR: u16 = 500;

/// The body of the response to a request whose asset could not be read.
pub const ASSET_FAILURE_BODY: &'static str = "I/O error";

/// The media type of a response body.
#[derive(Clone, Copy, Debug, PartialEq, Eq, Structural)]
pub enum ContentType {
    /// `text/plain; charset=utf-8`
    Plain,
    /// `text/html; charset=utf-8`
    Html,
}

/// A content coding that the compression stage can apply.
#[derive(Clone, Copy, Debug, PartialEq, Eq, Structural)]
pub enum Encoding {
    Gzip,
    Brotli,
}

/// A response: status, media type, body, and the content coding that the
/// body is to be sent under, if any.
#[derive(Clone, Debug, PartialEq, Eq)]
pub struct Response {
    pub status: u16,
    pub content_type: Option<ContentType>,
    pub body: String,
    pub encoding: Option<Encoding>,
}

/// A response as a mathematical value.
pub struct ResponseView {
    pub status: u16,
    pub content_type: Option<ContentType>,
    pub body: Seq<char>,
    pub encoding: Option<Encoding>,
}

impl View for Response {
    type V = ResponseView;

    open spec fn view(&self) -> ResponseView {
        ResponseView {
            status: self.status,
            content_type: self.content_type,
            body: self.body@,
            encoding: self.encoding,
        }
    }
}

impl ContentType {
    /// The value of the `content-type` header.
    pub fn header_value(&self) -> (r: &'static str)
        ensures
            r@ == match self {
                ContentType::Plain => "text/plain; charset=utf-8"@,
                ContentType::Html => "text/html; charset=utf-8"@,
            },
    {
        match self {
            ContentType::Plain => "text/plain; charset=utf-8",
            ContentType::Html => "text/html; charset=utf-8",
        }
    }
}

impl Encoding {
    /// The value of the `content-encoding` header.
    pub fn header_value(&self) -> (r: &'static str)
        ensures
            r@ == match self {
                Encoding::Gzip => "gzip"@,
                Encoding::Brotli => "br"@,
            },
    {
        match self {
            Encoding::Gzip => "gzip",
            Encoding::Brotli => "br",
        }
    }
}

impl ErrorKind {
    /// The status that answers a request which ended in this error.
    pub open spec fn status_of(self) -> u16 {
        match self {
            ErrorKind::Malformed => STATUS_BAD_REQUEST,
            ErrorKind::TooLong => STATUS_BAD_REQUEST,
            ErrorKind::AssetIo => STATUS_INTERNAL_SERVER_ERROR,
        }
    }

    /// The status that answers a request which ended in this error.
    pub fn status(&self) -> (r: u16)
        ensures
            r == self.status_of(),
    {
        match self {
            ErrorKind::Malformed => STATUS_BAD_REQUEST,
            ErrorKind::TooLong => STATUS_BAD_REQUEST,
            ErrorKind::AssetIo => STATUS_INTERNAL_SERVER_ERROR,
        }
    }
}

/// A response with the given status and nothing else.
pub open spec fn bare(status: u16) -> ResponseView {
    ResponseView { status, content_type: None, body: Seq::empty(), encoding: None }
}

/// The response that renders a handler's result: text and markup go out
/// under 200 with their media type, a validation failure under 400 with an
/// empty body, an asset failure under 500 with a fixed text.
pub open spec fn encoded(result: Result<BodyView, ErrorKind>) -> ResponseView {
    match result {
        Ok(BodyView::Text(s)) => ResponseView {
            status: STATUS_OK,
            content_type: Some(ContentType::Plain),
            body: s,
            encoding: None,
        },
        Ok(BodyView::Html(s)) => ResponseView {
            status: STATUS_OK,
            content_type: Some(ContentType::Html),
            body: s,
            encoding: None,
        },
        Err(ErrorKind::AssetIo) => ResponseView {
            status: STATUS_INTERNAL_SERVER_ERROR,
            content_type: Some(ContentType::Plain),
            body: ASSET_FAILURE_BODY@,
            encoding: None,
        },
        Err(e) => bare(e.status_of()),
    }
}

/// A response with the given status and nothing else.
pub fn status_only(status: u16) -> (r: Response)
    ensures
        r@ == bare(status),
{
    Response { status, content_type: None, body: String::new(), encoding: None }
}

/// Renders a handler's result as a response.
pub fn encode(result: Result<Body, ErrorKind>) -> (r: Response)
    ensures
        r@ == encoded(result_view(result)),
{
    match result {
        Ok(Body::Text(s)) => Response {
            status: STATUS_OK,
            content_type: Some(ContentType::Plain),
            body: s,
            encoding: None,
        },
        Ok(Body::Html(s)) => Response {
            status: STATUS_OK,
            content_type: Some(ContentType::Html),
            body: s,
            encoding: None,
        },
        Err(ErrorKind::AssetIo) => Response {
            status: STATUS_INTERNAL_SERVER_ERROR,
            content_type: Some(ContentType::Plain),
            body: String::from_str(ASSET_FAILURE_BODY),
            encoding: None,
        },
        Err(e) => status_only(e.status()),
    }
}

/// When the compression stage applies: to bodies of more than `min_size`
/// bytes.
#[derive(Clone, Copy, Debug, PartialEq, Eq, Structural)]
pub struct CompressionPolicy {
    pub min_size: u16,
}

impl CompressionPolicy {
    /// Whether a body of `size` bytes is large enough to be compressed.
    pub open spec fn admits_size(self, size: nat) -> bool {
        size > self.min_size
    }

    /// Whether a body of `size` bytes is large enough to be compressed.
    pub fn admits(&self, size: u64) -> (r: bool)
        ensures
            r == self.admits_size(size as nat),
    {
        size > self.min_size as u64
    }
}

/// The response after the compression stage: it goes out under the coding
/// that the client offered where there is one, the body is large enough and
/// no coding has been applied before; otherwise it goes out unchanged.
pub open spec fn compressed(
    policy: CompressionPolicy,
    offered: Option<Encoding>,
    response: ResponseView,
) -> ResponseView {
    if response.encoding is None && offered is Some && policy.admits_size(
        encode_utf8(response.body).len(),
    ) {
        ResponseView { encoding: offered, ..response }
    } else {
        response
    }
}

/// The compression stage of a route group.
pub fn compress(policy: &CompressionPolicy, offered: Option<Encoding>, response: Response) -> (r:
    Response)
    ensures
        r@ == compressed(*policy, offered, response@),
{
    let size = response.body.as_str().as_bytes().len();
    if response.encoding.is_none() && offered.is_some() && policy.admits(size as u64) {
        let mut response = response;
        response.encoding = offered;
        response
    } else {
        response
    }
}

/// The response after the stage of its route group: compressed as the
/// group's policy says, and unchanged where the group has no stage.
pub open spec fn staged(
    stage: Option<CompressionPolicy>,
    offered: Option<Encoding>,
    response: ResponseView,
) -> ResponseView {
    match stage {
        Some(policy) => compressed(policy, offered, response),
        None => response,
    }
}

/// Passes a response through the stage of its route group.
pub fn through_stage(
    stage: Option<CompressionPolicy>,
    offered: Option<Encoding>,
    response: Response,
) -> (r: Response)
    ensures
        r@ == staged(stage, offered, response@),
{
    match stage {
        Some(policy) => compress(&policy, offered, response),
        None => response,
    }
}

} // verus!
