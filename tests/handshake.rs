use screencast::handshake::{parse_size_response, size_from_captures, HandshakeError, SIZE_REQUEST};

#[test]
fn size_answer_lower_case() {
    assert_eq!(parse_size_response("size 800 600\n"), Ok((800, 600)));
}

#[test]
fn size_answer_garbage() {
    assert_eq!(parse_size_response("GARBAGE\n"), Err(HandshakeError::Malformed));
}

#[test]
fn size_answer_whitespace() {
    assert_eq!(parse_size_response("  SIZE\t1920   1080  \r\n"), Ok((1920, 1080)));
    assert_eq!(parse_size_response("SiZe 1 2"), Ok((1, 2)));
}

#[test]
fn size_answer_missing_height() {
    assert_eq!(parse_size_response("SIZE 800\n"), Err(HandshakeError::Malformed));
    assert_eq!(parse_size_response("SIZE -1 2\n"), Err(HandshakeError::Malformed));
}

#[test]
fn size_answer_too_large() {
    assert_eq!(parse_size_response("SIZE 70000 10\n"), Err(HandshakeError::InvalidNumber));
    assert_eq!(parse_size_response("SIZE 10 65536\n"), Err(HandshakeError::InvalidNumber));
    assert_eq!(parse_size_response("SIZE 65535 0\n"), Ok((65535, 0)));
}

#[test]
fn captured_texts_read_as_numbers() {
    let g = |a: &str, b: &str| Some((a.to_string(), b.to_string()));
    assert_eq!(size_from_captures(g("800", "600")), Ok((800, 600)));
    assert_eq!(size_from_captures(g("+5", "0007")), Ok((5, 7)));
    assert_eq!(size_from_captures(g("", "1")), Err(HandshakeError::InvalidNumber));
    assert_eq!(size_from_captures(g("1", "x")), Err(HandshakeError::InvalidNumber));
    assert_eq!(size_from_captures(None), Err(HandshakeError::Malformed));
}

#[test]
fn size_request_line() {
    assert_eq!(SIZE_REQUEST, "SIZE\n");
}
