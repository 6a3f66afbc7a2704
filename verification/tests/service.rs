use demo_service::response::{ContentType, Response};
use demo_service::router::{dispatch, Handler, Method, Target};
use demo_service::service::{
    answer, answer_with, asset_failure, refusal, series_response, Action,
};

fn plain(body: &str) -> Response {
    Response {
        status: 200,
        content_type: Some(ContentType::Plain),
        body: body.to_string(),
        encoding: None,
    }
}

fn bad_request() -> Response {
    Response { status: 400, content_type: None, body: String::new(), encoding: None }
}

#[test]
fn hello_without_name() {
    assert_eq!(answer(Handler::Hello, ""), Action::Respond(plain("Hello, world!")));
}

#[test]
fn hello_with_name() {
    assert_eq!(answer(Handler::Hello, "name=Bob"), Action::Respond(plain("Hello, Bob!")));
}

#[test]
fn hello_with_long_name() {
    let query = format!("name={}", "x".repeat(501));
    assert_eq!(answer(Handler::Hello, &query), Action::Respond(bad_request()));
    let fits = format!("name={}", "x".repeat(500));
    assert_eq!(
        answer(Handler::Hello, &fits),
        Action::Respond(plain(&format!("Hello, {}!", "x".repeat(500))))
    );
}

#[test]
fn hello_with_repeated_name() {
    assert_eq!(answer(Handler::Hello, "name=a&name=b"), Action::Respond(bad_request()));
}

#[test]
fn async_hello_waits_and_greets() {
    let expected = Action::RespondAfter { millis: 15, response: plain("Hello, world!") };
    assert_eq!(answer(Handler::AsyncHello, ""), expected);
    assert_eq!(answer(Handler::AsyncHello, "name=Bob&n=x&n=y"), expected);
}

#[test]
fn lines_without_count() {
    assert_eq!(
        answer(Handler::Lines, ""),
        Action::Respond(Response {
            status: 200,
            content_type: Some(ContentType::Html),
            body: "<ol>\n</ol>".to_string(),
            encoding: None,
        })
    );
}

#[test]
fn lines_with_count() {
    assert_eq!(
        answer(Handler::Lines, "n=3"),
        Action::Respond(Response {
            status: 200,
            content_type: Some(ContentType::Html),
            body: "<ol>\n  <li>Item number: 1</li>\n  <li>Item number: 2</li>\n  <li>Item number: 3</li>\n</ol>"
                .to_string(),
            encoding: None,
        })
    );
}

#[test]
fn lines_with_malformed_count() {
    assert_eq!(answer(Handler::Lines, "n=three"), Action::Respond(bad_request()));
    assert_eq!(answer(Handler::Lines, "n=-3"), Action::Respond(bad_request()));
}

#[test]
fn series_asks_for_its_terms() {
    assert_eq!(answer(Handler::PowerReciprocalsAlt, ""), Action::Series { terms: 0 });
    assert_eq!(answer(Handler::PowerReciprocalsAlt, "n=1"), Action::Series { terms: 1 });
    assert_eq!(answer(Handler::PowerReciprocalsAlt, "n=2000"), Action::Series { terms: 2000 });
}

#[test]
fn series_with_malformed_count() {
    assert_eq!(answer(Handler::PowerReciprocalsAlt, "n=x"), Action::Respond(bad_request()));
}

#[test]
fn series_sum_goes_out_as_plain_text() {
    assert_eq!(series_response("0.5".to_string()), plain("0.5"));
    assert_eq!(series_response("1".to_string()), plain("1"));
}

#[test]
fn missing_asset_is_a_server_error() {
    let r = asset_failure();
    assert_eq!(r.status, 500);
    assert_eq!(r.body, "I/O error");
    assert_eq!(r.content_type, Some(ContentType::Plain));
    assert_eq!(r.encoding, None);
}

#[test]
fn unserved_requests_are_refused() {
    assert_eq!(
        refusal(&Target::NotFound),
        Some(Response { status: 404, content_type: None, body: String::new(), encoding: None })
    );
    assert_eq!(
        refusal(&Target::MethodNotAllowed),
        Some(Response { status: 405, content_type: None, body: String::new(), encoding: None })
    );
    assert_eq!(refusal(&dispatch(Method::Get, "/strings/hello")), None);
    assert_eq!(refusal(&dispatch(Method::Get, "/static/a")), None);
    assert_eq!(refusal(&dispatch(Method::Get, "/nothing")).map(|r| r.status), Some(404));
}

#[test]
fn same_request_same_answer() {
    for handler in [Handler::Hello, Handler::AsyncHello, Handler::Lines, Handler::PowerReciprocalsAlt] {
        for query in ["", "name=Bob", "n=3", "n=x", "name=a&name=b", "n=12&name=%C3%A9"] {
            assert_eq!(answer(handler, query), answer(handler, query));
        }
    }
}

#[test]
fn request_line_to_response() {
    match dispatch(Method::Get, "/strings/hello") {
        Target::Handler { handler, .. } => {
            assert_eq!(answer(handler, "name=Bob"), Action::Respond(plain("Hello, Bob!")))
        }
        other => panic!("not a handler: {:?}", other),
    }
}

#[test]
fn answer_with_takes_the_pairs_as_they_are() {
    let pairs = vec![("name".to_string(), "a+b%20c".to_string())];
    assert_eq!(
        answer_with(Handler::Hello, Some(&pairs)),
        Action::Respond(plain("Hello, a+b%20c!"))
    );
    let count = vec![("n".to_string(), "+2".to_string()), ("m".to_string(), "x".to_string())];
    assert_eq!(answer_with(Handler::PowerReciprocalsAlt, Some(&count)), Action::Series { terms: 2 });
}

#[test]
fn answer_with_no_pairs_is_a_bad_request() {
    assert_eq!(answer_with(Handler::Hello, None), Action::Respond(bad_request()));
    assert_eq!(answer_with(Handler::Lines, None), Action::Respond(bad_request()));
    assert_eq!(answer_with(Handler::PowerReciprocalsAlt, None), Action::Respond(bad_request()));
    assert_eq!(
        answer_with(Handler::AsyncHello, None),
        Action::RespondAfter { millis: 15, response: plain("Hello, world!") }
    );
}

#[test]
fn empty_pairs_between_ampersands_are_skipped() {
    assert_eq!(answer(Handler::Hello, "&&name=Bob&&"), Action::Respond(plain("Hello, Bob!")));
}
