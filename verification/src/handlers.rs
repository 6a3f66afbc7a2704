//! The handlers: each computes a response body from decoded parameters.

use crate::error::ErrorKind;
use crate::markup::{list_item, list_items, list_markup};
use crate::query::{HelloData, LinesData};
use crate::text::push_decimal;
use vstd::prelude::*;
use vstd::string::{StrSliceExecFns, StringExecFns};

verus! {

/// What a handler hands back on success.
#[derive(Clone, Debug, PartialEq, Eq)]
pub enum Body {
    /// Plain text.
    Text(String),
    /// HTML markup.
    Html(String),
}

/// A handler's success as a mathematical value.
pub enum BodyView {
    Text(Seq<char>),
    Html(Seq<char>),
}

impl View for Body {
    type V = BodyView;

    open spec fn view(&self) -> BodyView {
        match self {
            Body::Text(s) => BodyView::Text(s@),
            Body::Html(s) => BodyView::Html(s@),
        }
    }
}

/// A handler's result as a mathematical value.
pub open spec fn result_view(result: Result<Body, ErrorKind>) -> Result<BodyView, ErrorKind> {
    match result {
        Ok(body) => Ok(body@),
        Err(e) => Err(e),
    }
}

/// The greeting for a request that names nobody.
pub const DEFAULT_GREETING: &'static str = "Hello, world!";

/// The longest name, in characters, that the greeting route accepts.
pub const MAX_NAME_LEN: u16 = 500;

/// How long the delayed greeting waits before it answers, in milliseconds.
pub const SLOW_DURATION_MILLIS: u64 = 15;

/// The greeting for `name`.
pub open spec fn greeting(name: Seq<char>) -> Seq<char> {
    "Hello, "@ + name + "!"@
}

/// What the greeting route answers to `name`: the default greeting to the
/// empty name, a refusal to a name of more than `MAX_NAME_LEN` characters,
/// and the greeting for the name otherwise.
pub open spec fn hello_body(name: Seq<char>) -> Result<BodyView, ErrorKind> {
    if name.len() == 0 {
        Ok(BodyView::Text(DEFAULT_GREETING@))
    } else if name.len() > MAX_NAME_LEN {
        Err(ErrorKind::TooLong)
    } else {
        Ok(BodyView::Text(greeting(name)))
    }
}

/// Responds with a greeting based on the `name` parameter.
pub fn hello(data: &HelloData) -> (r: Result<Body, ErrorKind>)
    ensures
        result_view(r) == hello_body(data@),
{
    let name = data.name.as_str();
    let len = name.unicode_len();
    if len == 0 {
        return Ok(Body::Text(String::from_str(DEFAULT_GREETING)));
    }
    if len > MAX_NAME_LEN as usize {
        return Err(ErrorKind::TooLong);
    }
    let mut text = String::from_str("Hello, ");
    text.append(name);
    text.append("!");
    Ok(Body::Text(text))
}

/// Responds with the default greeting. The caller waits
/// `SLOW_DURATION_MILLIS` before it asks.
pub fn async_hello() -> (r: Result<Body, ErrorKind>)
    ensures
        result_view(r) == Ok::<BodyView, ErrorKind>(BodyView::Text(DEFAULT_GREETING@)),
{
    Ok(Body::Text(String::from_str(DEFAULT_GREETING)))
}

/// Responds with an ordered list of `n` items.
pub fn lines(data: &LinesData) -> (r: Result<Body, ErrorKind>)
    ensures
        result_view(r) == Ok::<BodyView, ErrorKind>(BodyView::Html(list_markup(data@))),
{
    let n = data.n;
    let mut result = String::from_str("<ol>\n");
    let mut i: usize = 0;
    while i < n
        invariant
            i <= n,
            result@ == "<ol>\n"@ + list_items(i as nat),
        decreases n - i,
    {
        i = i + 1;
        result.append("  <li>Item number: ");
        push_decimal(&mut result, i as u64);
        result.append("</li>\n");
        assert(result@ =~= "<ol>\n"@ + (list_items((i - 1) as nat) + list_item(i as nat)));
    }
    result.append("</ol>");
    Ok(Body::Html(result))
}

} // verus!
