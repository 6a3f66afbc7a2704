use demo_service::error::ErrorKind;
use demo_service::handlers::Body;
use demo_service::response::{
    compress, encode, status_only, through_stage, CompressionPolicy, ContentType, Encoding, Response,
    ASSET_FAILURE_BODY, STATUS_BAD_REQUEST, STATUS_INTERNAL_SERVER_ERROR,
    STATUS_METHOD_NOT_ALLOWED, STATUS_NOT_FOUND, STATUS_OK,
};

fn text_of(len: usize) -> Response {
    encode(Ok(Body::Text("a".repeat(len))))
}

#[test]
fn statuses_have_their_numbers() {
    assert_eq!(STATUS_OK, 200);
    assert_eq!(STATUS_BAD_REQUEST, 400);
    assert_eq!(STATUS_NOT_FOUND, 404);
    assert_eq!(STATUS_METHOD_NOT_ALLOWED, 405);
    assert_eq!(STATUS_INTERNAL_SERVER_ERROR, 500);
    assert_eq!(ASSET_FAILURE_BODY, "I/O error");
}

#[test]
fn text_goes_out_as_plain_text() {
    assert_eq!(
        encode(Ok(Body::Text("Hello, Bob!".to_string()))),
        Response {
            status: 200,
            content_type: Some(ContentType::Plain),
            body: "Hello, Bob!".to_string(),
            encoding: None,
        }
    );
}

#[test]
fn markup_goes_out_as_html() {
    assert_eq!(
        encode(Ok(Body::Html("<ol>\n</ol>".to_string()))),
        Response {
            status: 200,
            content_type: Some(ContentType::Html),
            body: "<ol>\n</ol>".to_string(),
            encoding: None,
        }
    );
}

#[test]
fn validation_failures_go_out_as_bad_request() {
    for e in [ErrorKind::TooLong, ErrorKind::Malformed] {
        assert_eq!(
            encode(Err(e)),
            Response { status: 400, content_type: None, body: String::new(), encoding: None }
        );
        assert_eq!(e.status(), 400);
    }
}

#[test]
fn asset_failure_goes_out_as_server_error() {
    assert_eq!(
        encode(Err(ErrorKind::AssetIo)),
        Response {
            status: 500,
            content_type: Some(ContentType::Plain),
            body: "I/O error".to_string(),
            encoding: None,
        }
    );
    assert_eq!(ErrorKind::AssetIo.status(), 500);
}

#[test]
fn status_only_has_no_body() {
    assert_eq!(
        status_only(404),
        Response { status: 404, content_type: None, body: String::new(), encoding: None }
    );
}

#[test]
fn header_values_are_spelled_out() {
    assert_eq!(ContentType::Plain.header_value(), "text/plain; charset=utf-8");
    assert_eq!(ContentType::Html.header_value(), "text/html; charset=utf-8");
    assert_eq!(Encoding::Gzip.header_value(), "gzip");
    assert_eq!(Encoding::Brotli.header_value(), "br");
}

#[test]
fn policy_admits_what_exceeds_the_threshold() {
    let policy = CompressionPolicy { min_size: 256 };
    assert!(!policy.admits(0));
    assert!(!policy.admits(255));
    assert!(!policy.admits(256));
    assert!(policy.admits(257));
    assert!(policy.admits(u64::MAX));
    let all = CompressionPolicy { min_size: 0 };
    assert!(!all.admits(0));
    assert!(all.admits(1));
}

#[test]
fn large_bodies_are_compressed_for_clients_that_offer() {
    let policy = CompressionPolicy { min_size: 256 };
    let r = compress(&policy, Some(Encoding::Brotli), text_of(257));
    assert_eq!(r.encoding, Some(Encoding::Brotli));
    assert_eq!(r.status, 200);
    assert_eq!(r.content_type, Some(ContentType::Plain));
    assert_eq!(r.body, "a".repeat(257));
    let g = compress(&policy, Some(Encoding::Gzip), text_of(1000));
    assert_eq!(g.encoding, Some(Encoding::Gzip));
}

#[test]
fn small_bodies_go_out_as_they_are() {
    let policy = CompressionPolicy { min_size: 256 };
    assert_eq!(compress(&policy, Some(Encoding::Gzip), text_of(256)), text_of(256));
    assert_eq!(compress(&policy, Some(Encoding::Gzip), text_of(0)), text_of(0));
    assert_eq!(
        compress(&policy, Some(Encoding::Gzip), encode(Err(ErrorKind::Malformed))),
        encode(Err(ErrorKind::Malformed))
    );
}

#[test]
fn nothing_is_compressed_for_clients_that_do_not_offer() {
    let policy = CompressionPolicy { min_size: 256 };
    assert_eq!(compress(&policy, None, text_of(5000)), text_of(5000));
}

#[test]
fn nothing_is_compressed_twice() {
    let policy = CompressionPolicy { min_size: 256 };
    let once = compress(&policy, Some(Encoding::Gzip), text_of(300));
    let twice = compress(&policy, Some(Encoding::Brotli), once.clone());
    assert_eq!(twice, once);
    assert_eq!(twice.encoding, Some(Encoding::Gzip));
}

#[test]
fn body_size_is_counted_in_bytes() {
    let policy = CompressionPolicy { min_size: 256 };
    let body = "é".repeat(129);
    assert_eq!(body.chars().count(), 129);
    let r = compress(&policy, Some(Encoding::Gzip), encode(Ok(Body::Text(body))));
    assert_eq!(r.encoding, Some(Encoding::Gzip));
    let short = "é".repeat(128);
    let s = compress(&policy, Some(Encoding::Gzip), encode(Ok(Body::Text(short))));
    assert_eq!(s.encoding, None);
}

#[test]
fn a_group_without_stage_changes_nothing() {
    assert_eq!(through_stage(None, Some(Encoding::Gzip), text_of(5000)), text_of(5000));
}

#[test]
fn a_group_with_stage_compresses() {
    let stage = Some(CompressionPolicy { min_size: 256 });
    assert_eq!(
        through_stage(stage, Some(Encoding::Brotli), text_of(5000)).encoding,
        Some(Encoding::Brotli)
    );
    assert_eq!(through_stage(stage, Some(Encoding::Brotli), text_of(10)), text_of(10));
    assert_eq!(through_stage(stage, None, text_of(5000)), text_of(5000));
}
