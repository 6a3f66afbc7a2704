//! From a resolved request to its response: decoding, the handler, and the
//! rendering of its result, with the steps that the caller has to perform.

use crate::error::ErrorKind;
use crate::handlers::{
    async_hello, hello, hello_body, lines, Body, BodyView, DEFAULT_GREETING, SLOW_DURATION_MILLIS,
};
use crate::markup::list_markup;
use crate::query::{
    decoded_hello, decoded_lines, hello_from_pairs, lines_from_pairs, pairs_of, parse_pairs,
    urlencoded_pairs, Pairs,
};
use crate::response::{
    bare, encode, encoded, status_only, Response, ResponseView, STATUS_METHOD_NOT_ALLOWED,
    STATUS_NOT_FOUND,
};
use crate::router::{Handler, Target, TargetView};
use vstd::prelude::*;

verus! {

/// What the caller does to answer a request.
#[derive(Clone, Debug, PartialEq, Eq)]
pub enum Action {
    /// Send the response.
    Respond(Response),
    /// Wait for `millis` milliseconds without holding up other requests,
    /// then send the response.
    RespondAfter { millis: u64, response: Response },
    /// Sum `terms` terms of the series and send what `series_response`
    /// makes of the sum.
    Series { terms: usize },
}

/// An action as a mathematical value.
pub enum ActionView {
    Respond(ResponseView),
    RespondAfter { millis: u64, response: ResponseView },
    Series { terms: nat },
}

impl View for Action {
    type V = ActionView;

    open spec fn view(&self) -> ActionView {
        match self {
            Action::Respond(response) => ActionView::Respond(response@),
            Action::RespondAfter { millis, response } => ActionView::RespondAfter {
                millis: *millis,
                response: response@,
            },
            Action::Series { terms } => ActionView::Series { terms: *terms as nat },
        }
    }
}

/// What answers a request for `handler`, given the outcome of reading its
/// query string into pairs.
pub open spec fn answer_view(handler: Handler, pairs: Option<Pairs>) -> ActionView {
    match handler {
        Handler::Hello => ActionView::Respond(
            encoded(
                match decoded_hello(pairs) {
                    Ok(name) => hello_body(name),
                    Err(e) => Err(e),
                },
            ),
        ),
        Handler::AsyncHello => ActionView::RespondAfter {
            millis: SLOW_DURATION_MILLIS,
            response: encoded(Ok(BodyView::Text(DEFAULT_GREETING@))),
        },
        Handler::Lines => ActionView::Respond(
            encoded(
                match decoded_lines(pairs) {
                    Ok(n) => Ok(BodyView::Html(list_markup(n))),
                    Err(e) => Err(e),
                },
            ),
        ),
        Handler::PowerReciprocalsAlt => match decoded_lines(pairs) {
            Ok(n) => ActionView::Series { terms: n },
            Err(e) => ActionView::Respond(encoded(Err(e))),
        },
    }
}

/// Answers a request for `handler`, given the outcome of reading its query
/// string into pairs (`None` where that failed): fills the parameters, runs
/// the handler and renders its result.
pub fn answer_with(handler: Handler, pairs: Option<&Vec<(String, String)>>) -> (r: Action)
    ensures
        r@ == answer_view(
            handler,
            match pairs {
                Some(p) => Some(pairs_of(p@)),
                None => None,
            },
        ),
{
    match handler {
        Handler::Hello => {
            let result = match pairs {
                Some(p) => match hello_from_pairs(p) {
                    Ok(data) => hello(&data),
                    Err(e) => Err(e),
                },
                None => Err(ErrorKind::Malformed),
            };
            Action::Respond(encode(result))
        },
        Handler::AsyncHello => Action::RespondAfter {
            millis: SLOW_DURATION_MILLIS,
            response: encode(async_hello()),
        },
        Handler::Lines => {
            let result = match pairs {
                Some(p) => match lines_from_pairs(p) {
                    Ok(data) => lines(&data),
                    Err(e) => Err(e),
                },
                None => Err(ErrorKind::Malformed),
            };
            Action::Respond(encode(result))
        },
        Handler::PowerReciprocalsAlt => {
            let decoded = match pairs {
                Some(p) => lines_from_pairs(p),
                None => Err(ErrorKind::Malformed),
            };
            match decoded {
                Ok(data) => Action::Series { terms: data.n },
                Err(e) => Action::Respond(encode(Err(e))),
            }
        },
    }
}

/// Answers a request for `handler` with the query string `query`: reads the
/// query string into pairs and answers as `answer_with` does. A request
/// without a query string is answered as one whose query holds no pair.
pub fn answer(handler: Handler, query: &str) -> (r: Action)
    ensures
        r@ == answer_view(handler, urlencoded_pairs(query@)),
        query@.len() == 0 ==> r@ == answer_view(handler, Some(Seq::empty())),
{
    match parse_pairs(query) {
        Ok(pairs) => {
            assert(query@.len() == 0 ==> pairs_of(pairs@) =~= Seq::empty());
            answer_with(handler, Some(&pairs))
        },
        Err(_) => answer_with(handler, None),
    }
}

/// The response that carries the sum of the series, written out as text.
pub fn series_response(sum: String) -> (r: Response)
    ensures
        r@ == encoded(Ok(BodyView::Text(sum@))),
{
    encode(Ok(Body::Text(sum)))
}

/// The response to a request that resolves to nothing that could answer it.
pub open spec fn refusal_view(target: TargetView) -> Option<ResponseView> {
    match target {
        TargetView::NotFound => Some(bare(STATUS_NOT_FOUND)),
        TargetView::MethodNotAllowed => Some(bare(STATUS_METHOD_NOT_ALLOWED)),
        _ => None,
    }
}

/// The response to a request that resolves to nothing that could answer it:
/// 404 for a path that nothing serves, 405 for a method that a served path
/// does not take.
pub fn refusal(target: &Target) -> (r: Option<Response>)
    ensures
        match r {
            Some(response) => refusal_view(target@) == Some(response@),
            None => refusal_view(target@) is None,
        },
{
    match target {
        Target::NotFound => Some(status_only(STATUS_NOT_FOUND)),
        Target::MethodNotAllowed => Some(status_only(STATUS_METHOD_NOT_ALLOWED)),
        _ => None,
    }
}

/// The response to a request for a static asset that could not be read.
pub fn asset_failure() -> (r: Response)
    ensures
        r@ == encoded(Err(ErrorKind::AssetIo)),
{
    encode(Err(ErrorKind::AssetIo))
}

/// Requests with the same handler and the same query are answered alike:
/// whatever meets the contract of `answer_with` for one of them is, as a
/// value, what meets it for the other. Nothing but the request decides.
pub proof fn lemma_answer_is_repeatable(
    handler: Handler,
    pairs: Option<Pairs>,
    first: Action,
    second: Action,
)
    requires
        first@ == answer_view(handler, pairs),
        second@ == answer_view(handler, pairs),
    ensures
        first@ == second@,
{
}

} // verus!
