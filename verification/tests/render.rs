use filehost::json::{error_body, upload_body};
use filehost::page::{replace_all_bytes, dl_url, render_info_page};
use filehost::service::{
    hello_response, not_found_response, page_missing_response, missing_field_response,
};

#[test]
fn error_body_wraps_the_message() {
    assert_eq!(error_body(b"boom"), b"{\"error\":\"boom\"}".to_vec());
}

#[test]
fn error_body_escapes_quotes_backslashes_and_control_bytes() {
    assert_eq!(
        error_body(b"a \"quoted\" word"),
        b"{\"error\":\"a \\\"quoted\\\" word\"}".to_vec()
    );
    assert_eq!(error_body(b"a\\b"), b"{\"error\":\"a\\\\b\"}".to_vec());
    assert_eq!(error_body(b"line\nbreak"), b"{\"error\":\"line\\u000abreak\"}".to_vec());
    assert_eq!(error_body(b"\x1f"), b"{\"error\":\"\\u001f\"}".to_vec());
}

#[test]
fn upload_body_carries_id_and_ext() {
    assert_eq!(
        upload_body(b"ab12", b"png"),
        b"{\"id\":\"ab12\",\"ext\":\"png\"}".to_vec()
    );
}

#[test]
fn fixed_responses_are_exact() {
    assert_eq!(hello_response(), b"Hello world!".to_vec());
    assert_eq!(
        not_found_response(),
        b"{\"error\":\"file was not found\"}".to_vec()
    );
    assert_eq!(
        page_missing_response(),
        b"{\"error\":\"could not find file to dl\"}".to_vec()
    );
    assert_eq!(
        missing_field_response(),
        b"{\"error\":\"missing file field\"}".to_vec()
    );
}

#[test]
fn replace_all_is_leftmost_and_does_not_rescan() {
    assert_eq!(replace_all_bytes(b"aa", b"a", b"ab"), b"abab".to_vec());
    assert_eq!(replace_all_bytes(b"xyx", b"x", b""), b"y".to_vec());
    assert_eq!(replace_all_bytes(b"abc", b"", b"z"), b"abc".to_vec());
    assert_eq!(replace_all_bytes(b"abcabc", b"bc", b"X"), b"aXaX".to_vec());
    assert_eq!(replace_all_bytes(b"no match", b"zz", b"y"), b"no match".to_vec());
    assert_eq!(replace_all_bytes(b"end.", b".", b"!"), b"end!".to_vec());
}

#[test]
fn download_url_prefixes_the_name() {
    assert_eq!(dl_url(b"ab12.png"), b"/dl/ab12.png".to_vec());
}

#[test]
fn info_page_substitutes_all_placeholders() {
    let template =
        b"<h1>{{filename}}</h1><a href=\"{{download_url}}\">get</a><p>{{filesize}}</p>";
    let page = render_info_page(template, b"ab12.png", 215);
    let expected_size = bytesize::ByteSize(215).to_string();
    let mut expected = b"<h1>ab12.png</h1><a href=\"/dl/ab12.png\">get</a><p>".to_vec();
    expected.extend_from_slice(expected_size.as_bytes());
    expected.extend_from_slice(b"</p>");
    assert_eq!(page, expected);
    assert_eq!(expected_size, "215 B");
}

#[test]
fn info_page_humanizes_large_sizes_with_binary_prefixes() {
    let page = render_info_page(b"{{filesize}}", b"a.bin", 1024 * 1024);
    assert_eq!(page, b"1.0 MiB".to_vec());
}
