use freshed_rs::respond::{
    default_error_mapper, finish_stream, render_error_comment, render_page, render_partial, render_result, render_result_with, send_outcome,
    HtmlStreamWriter,
    StreamClosed, HTML_CONTENT_TYPE,
};
use freshed_rs::web::{
    feature_flags_of, locale_of, request_metadata_from_headers, request_metadata_from_request,
    request_metadata_from_values, RenderContext, RequestMetadata, RequestMetadataLayer,
};

fn received(rx: &mut tokio::sync::mpsc::UnboundedReceiver<Result<axum::body::Bytes, std::convert::Infallible>>) -> Vec<String> {
    let mut chunks = Vec::new();
    while let Ok(chunk) = rx.try_recv() {
        let bytes = match chunk {
            Ok(bytes) => bytes,
            Err(never) => match never {},
        };
        chunks.push(String::from_utf8(bytes.to_vec()).expect("utf-8 chunk"));
    }
    chunks
}

#[test]
fn render_page_sets_html_status_header_and_body() {
    let response = render_page("<p>ok</p>".to_string());

    assert_eq!(response.status, 200);
    assert_eq!(response.content_type, "text/html; charset=utf-8");
    assert_eq!(response.body, "<p>ok</p>");
}

#[test]
fn integration_render_page_sets_html_status_header_and_body() {
    let response = render_partial("<p>ok</p>".to_string());

    assert_eq!(response.status, 200);
    assert_eq!(response.content_type, "text/html; charset=utf-8");
    assert_eq!(response.body, "<p>ok</p>");
}

#[test]
fn render_result_with_uses_custom_error_mapper() {
    let response = render_result_with::<std::fmt::Error, _>(Err(std::fmt::Error), |_| {
        (502, "custom error".to_string())
    });

    assert_eq!(response.status, 502);
    assert_eq!(response.body, "custom error");
}

#[test]
fn integration_render_result_with_uses_custom_error_mapper() {
    let response = render_result_with::<std::fmt::Error, _>(Err(std::fmt::Error), |_| {
        (502, "custom error".to_string())
    });

    assert_eq!(response.status, 502);
    assert_eq!(response.content_type, "text/html; charset=utf-8");
    assert_eq!(response.body, "custom error");
}

#[test]
fn render_result_falls_back_to_a_500_page() {
    let failed = render_result::<std::fmt::Error>(Err(std::fmt::Error));
    assert_eq!(failed.status, 500);
    assert_eq!(failed.body, "<h1>500</h1><p>Rendering failed</p>");
    let (status, body) = default_error_mapper(&"anything");
    assert_eq!(status, 500);
    assert_eq!(body, "<h1>500</h1><p>Rendering failed</p>");

    let ok = render_result::<std::fmt::Error>(Ok("<main/>".to_string()));
    assert_eq!(ok.status, 200);
    assert_eq!(ok.body, "<main/>");
}

#[test]
fn render_stream_streams_body_content() {
    let (sender, mut receiver) = tokio::sync::mpsc::unbounded_channel();
    let mut out = HtmlStreamWriter::new(sender);
    out.write_str("<head><title>x</title></head>").expect("open channel");
    out.write_fragment("<body>streamed</body>").expect("open channel");
    out.flush().expect("open channel");

    assert_eq!(HTML_CONTENT_TYPE, "text/html; charset=utf-8");
    let body: String = received(&mut receiver).concat();
    assert_eq!(body, "<head><title>x</title></head><body>streamed</body>");
}

#[test]
fn integration_render_stream_streams_body_content() {
    let (sender, mut receiver) = tokio::sync::mpsc::unbounded_channel();
    let mut out = HtmlStreamWriter::new(sender);
    out.write_str("<head><title>x</title></head>").expect("open channel");
    out.write_fragment("<body>streamed</body>").expect("open channel");
    out.flush().expect("open channel");

    let body: String = received(&mut receiver).concat();
    assert_eq!(body, "<head><title>x</title></head><body>streamed</body>");
}

#[test]
fn stream_writer_hands_over_at_the_threshold() {
    let (sender, mut receiver) = tokio::sync::mpsc::unbounded_channel();
    let mut out = HtmlStreamWriter::new(sender);
    assert_eq!(out.flush_threshold(), 8 * 1024);
    out.set_flush_threshold(0);
    assert_eq!(out.flush_threshold(), 1);
    out.set_flush_threshold(4);

    out.write_str("abc").expect("open channel");
    assert_eq!(out.pending_len(), 3);
    assert!(received(&mut receiver).is_empty());

    out.write_str("de").expect("open channel");
    assert_eq!(out.pending_len(), 0);
    assert_eq!(received(&mut receiver), vec!["abcde".to_string()]);

    out.write_str("é").expect("open channel");
    assert_eq!(out.pending_len(), 2);
    assert!(out.flush().is_ok());
    assert!(out.flush().is_ok());
    assert_eq!(received(&mut receiver), vec!["é".to_string()]);
}

#[test]
fn stream_writer_reports_a_closed_channel() {
    let (sender, receiver) = tokio::sync::mpsc::unbounded_channel();
    drop(receiver);
    let mut out = HtmlStreamWriter::new(sender);
    out.set_flush_threshold(2);
    assert_eq!(out.write_str("x"), Ok(()));
    assert_eq!(out.write_str("yz"), Err(StreamClosed));
    assert_eq!(out.pending_len(), 0);
}

#[test]
fn request_metadata_helper_reads_headers() {
    let req = actix_web::test::TestRequest::default()
        .insert_header(("x-request-id", "req-1"))
        .insert_header(("x-auth-user", "u42"))
        .insert_header(("accept-language", "en-US,en;q=0.9"))
        .insert_header(("x-feature-flags", "a, b, c"))
        .to_http_request();

    let metadata = request_metadata_from_request(&req);
    assert_eq!(metadata.request_id.as_deref(), Some("req-1"));
    assert_eq!(metadata.auth_user.as_deref(), Some("u42"));
    assert_eq!(metadata.locale.as_deref(), Some("en-US"));
    assert_eq!(metadata.feature_flags, vec!["a", "b", "c"]);
}

#[test]
fn request_metadata_from_http_headers() {
    let mut headers = axum::http::HeaderMap::new();
    headers.insert("x-request-id", axum::http::HeaderValue::from_static("r-9"));
    headers.insert("accept-language", axum::http::HeaderValue::from_static("fr"));
    headers.insert("x-feature-flags", axum::http::HeaderValue::from_static(" ,beta,, gamma ,"));
    headers.append("x-request-id", axum::http::HeaderValue::from_static("second"));

    let metadata = request_metadata_from_headers(&headers);
    assert_eq!(metadata.request_id.as_deref(), Some("r-9"));
    assert_eq!(metadata.auth_user, None);
    assert_eq!(metadata.locale.as_deref(), Some("fr"));
    assert_eq!(metadata.feature_flags, vec!["beta", "gamma"]);

    let mut odd = axum::http::HeaderMap::new();
    odd.insert("x-auth-user", axum::http::HeaderValue::from_bytes(b"caf\xc3\xa9").expect("header value"));
    assert_eq!(request_metadata_from_headers(&odd).auth_user, None);
}

#[test]
fn header_texts_are_split_and_trimmed() {
    assert_eq!(locale_of("de-CH, de;q=0.8"), "de-CH");
    assert_eq!(locale_of("no-comma"), "no-comma");
    assert_eq!(locale_of(",x"), "");
    assert_eq!(feature_flags_of("a, b, c"), vec!["a", "b", "c"]);
    assert_eq!(feature_flags_of("\tx\u{3000},  ,y y"), vec!["x", "y y"]);
    assert!(feature_flags_of("").is_empty());

    let m = request_metadata_from_values(None, Some("u".to_string()), None, None);
    assert_eq!(m.request_id, None);
    assert_eq!(m.auth_user.as_deref(), Some("u"));
    assert_eq!(m.locale, None);
    assert!(m.feature_flags.is_empty());
}

#[test]
fn defaults_and_layer() {
    let m = RequestMetadata::default();
    assert!(m.request_id.is_none() && m.auth_user.is_none() && m.locale.is_none());
    assert!(m.feature_flags.is_empty());
    let ctx = RenderContext::default();
    assert!(ctx.metadata.feature_flags.is_empty());

    let service = RequestMetadataLayer.layer(41u32);
    assert_eq!(*service.get_ref(), 41);
    assert_eq!(service.into_inner(), 41);
}

#[test]
fn send_outcomes() {
    assert_eq!(send_outcome(true), Ok(()));
    assert_eq!(send_outcome(false), Err(StreamClosed));
}

#[test]
fn finishing_a_failed_stream_writes_the_error_comment_then_flushes() {
    let (sender, mut receiver) = tokio::sync::mpsc::unbounded_channel();
    let mut out = HtmlStreamWriter::new(sender);
    out.write_str("<p>partial").expect("open channel");
    finish_stream(&mut out, Some("Boom"));
    assert_eq!(out.pending_len(), 0);
    assert_eq!(received(&mut receiver).concat(), "<p>partial<!-- render error: Boom -->");
    assert_eq!(render_error_comment("E"), "<!-- render error: E -->");
}

#[test]
fn finishing_a_successful_stream_only_flushes() {
    let (sender, mut receiver) = tokio::sync::mpsc::unbounded_channel();
    let mut out = HtmlStreamWriter::new(sender);
    out.write_str("<p>done</p>").expect("open channel");
    finish_stream(&mut out, None);
    assert_eq!(received(&mut receiver), vec!["<p>done</p>".to_string()]);
}

#[test]
fn write_fragment_below_the_threshold_hands_nothing_over() {
    let (sender, mut receiver) = tokio::sync::mpsc::unbounded_channel();
    let mut out = HtmlStreamWriter::new(sender);
    out.set_flush_threshold(10);
    assert_eq!(out.write_fragment("<b>"), Ok(()));
    assert!(received(&mut receiver).is_empty());
    assert_eq!(out.write_fragment("1234567"), Ok(()));
    assert_eq!(out.pending_len(), 0);
    assert_eq!(received(&mut receiver), vec!["<b>1234567".to_string()]);
}
