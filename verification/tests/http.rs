use bollard::http::get_response;

#[test]
fn responses_split_into_status_headers_and_body() {
    let raw = b"HTTP/1.1 200 OK\r\nContent-Type: text/plain\r\nX-A: b\r\n\r\nhello".to_vec();
    let response = get_response(&raw).unwrap();
    assert_eq!(response.http_version, "HTTP/1.1");
    assert_eq!(response.status_code, 200);
    assert_eq!(response.headers.get("Content-Type").map(String::as_str), Some("text/plain"));
    assert_eq!(response.body, b"hello".to_vec());
    assert_eq!(response.get_encoded_body().unwrap(), "hello");
}

#[test]
fn chunked_bodies_are_unframed() {
    let raw = b"HTTP/1.1 200 OK\r\nTransfer-Encoding: chunked\r\n\r\n5\r\nhello\r\n6\r\n world\r\n0\r\n\r\n".to_vec();
    let response = get_response(&raw).unwrap();
    assert_eq!(response.get_encoded_body().unwrap(), "hello world");
}

#[test]
fn invalid_header_text_is_an_error() {
    let raw = vec![0xff, 0xfe, 13, 10, 13, 10, b'x'];
    assert!(get_response(&raw).is_err());
}

#[test]
fn chunked_encoding_of_many_chunks_is_undone() {
    let chunks = ["a", "bc\r", "\nd", "0123456789abcdefXYZ"];
    let mut body = String::new();
    for c in chunks {
        body.push_str(&format!("{:x}\r\n{}\r\n", c.len(), c));
    }
    body.push_str("0\r\n\r\n");
    let raw = format!("HTTP/1.1 200 OK\r\nTransfer-Encoding: chunked\r\n\r\n{body}").into_bytes();
    let response = get_response(&raw).unwrap();
    assert_eq!(response.get_encoded_body().unwrap(), chunks.concat());
}
