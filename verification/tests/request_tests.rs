use shutdown_helper::request::{handle_request, Reply, Verdict, READ_BUFFER_SIZE};

fn reply_text(received: &[u8], token: &[u8]) -> String {
    match handle_request(received, token) {
        Ok(Verdict::Respond(r)) => r.text().to_string(),
        Ok(Verdict::NoReply) => String::new(),
        Err(e) => panic!("parse error: {}", e),
    }
}

#[test]
fn test_handle_connection_unauthorized() {
    let response = reply_text(b"POST /shutdown HTTP/1.1\r\nx-auth-token: wrong\r\n\r\n", b"secret");
    assert!(response.contains("401 Unauthorized"));
}

#[test]
fn test_handle_connection_authorized() {
    let response = reply_text(b"POST /shutdown HTTP/1.1\r\nx-auth-token: secret\r\n\r\n", b"secret");
    assert!(response.contains("200 OK"));
}

#[test]
fn test_handle_connection_not_found() {
    let response = reply_text(b"GET / HTTP/1.1\r\n\r\n", b"secret");
    assert!(response.contains("404 Not Found"));
}

#[test]
fn authorized_request_is_the_only_one_that_shuts_down() {
    let ok = handle_request(b"POST /shutdown HTTP/1.1\r\nx-auth-token: secret\r\n\r\n", b"secret");
    assert_eq!(ok.unwrap(), Verdict::Respond(Reply::Authorized));
    let wrong = handle_request(b"POST /shutdown HTTP/1.1\r\nx-auth-token: secreT\r\n\r\n", b"secret");
    assert_eq!(wrong.unwrap(), Verdict::Respond(Reply::Unauthorized));
}

#[test]
fn header_name_case_is_ignored() {
    let v = handle_request(b"POST /shutdown HTTP/1.1\r\nX-AUTH-TOKEN: secret\r\n\r\n", b"secret");
    assert_eq!(v.unwrap(), Verdict::Respond(Reply::Authorized));
    let v = handle_request(b"POST /shutdown HTTP/1.1\r\nX-Auth-Token: secret\r\n\r\n", b"secret");
    assert_eq!(v.unwrap(), Verdict::Respond(Reply::Authorized));
}

#[test]
fn any_matching_token_header_is_accepted() {
    let req = b"POST /shutdown HTTP/1.1\r\nHost: pc\r\nx-auth-token: nope\r\nx-auth-token: secret\r\n\r\n";
    assert_eq!(handle_request(req, b"secret").unwrap(), Verdict::Respond(Reply::Authorized));
}

#[test]
fn missing_token_is_unauthorized() {
    let v = handle_request(b"POST /shutdown HTTP/1.1\r\nHost: pc\r\n\r\n", b"secret");
    assert_eq!(v.unwrap(), Verdict::Respond(Reply::Unauthorized));
}

#[test]
fn wrong_method_or_path_is_not_found() {
    let v = handle_request(b"GET /shutdown HTTP/1.1\r\nx-auth-token: secret\r\n\r\n", b"secret");
    assert_eq!(v.unwrap(), Verdict::Respond(Reply::NotFound));
    let v = handle_request(b"POST /shutdown/ HTTP/1.1\r\nx-auth-token: secret\r\n\r\n", b"secret");
    assert_eq!(v.unwrap(), Verdict::Respond(Reply::NotFound));
    let v = handle_request(b"post /shutdown HTTP/1.1\r\nx-auth-token: secret\r\n\r\n", b"secret");
    assert_eq!(v.unwrap(), Verdict::Respond(Reply::NotFound));
}

#[test]
fn empty_read_gets_no_reply() {
    assert_eq!(handle_request(b"", b"secret").unwrap(), Verdict::NoReply);
}

#[test]
fn incomplete_head_gets_no_reply() {
    let v = handle_request(b"POST /shutdown HTTP/1.1\r\nx-auth-token: secret\r\n", b"secret");
    assert_eq!(v.unwrap(), Verdict::NoReply);
}

#[test]
fn invalid_head_is_an_error() {
    assert!(handle_request(b"POST /shutdown HTTP/9\r\n\r\n", b"secret").is_err());
    assert!(handle_request(b"\x01\x02 garbage\r\n\r\n", b"secret").is_err());
}

#[test]
fn too_many_headers_is_an_error() {
    let mut req = b"POST /shutdown HTTP/1.1\r\n".to_vec();
    for i in 0..17 {
        req.extend_from_slice(format!("h{}: v\r\n", i).as_bytes());
    }
    req.extend_from_slice(b"\r\n");
    assert_eq!(handle_request(&req, b"secret").unwrap_err(), httparse::Error::TooManyHeaders);
}

#[test]
fn parser_error_is_passed_on() {
    let err = handle_request(b"POST /shutdown HTTP/9\r\n\r\n", b"secret").unwrap_err();
    assert_eq!(err, httparse::Error::Version);
    let err = handle_request(b"POST /shutdown HTTP/1.1\r\nbad header\r\n\r\n", b"secret").unwrap_err();
    assert_eq!(err, httparse::Error::HeaderName);
}

#[test]
fn reply_texts_are_full_responses() {
    assert_eq!(Reply::Authorized.text(), "HTTP/1.1 200 OK\r\n\r\n");
    assert_eq!(Reply::Unauthorized.text(), "HTTP/1.1 401 Unauthorized\r\n\r\n");
    assert_eq!(Reply::NotFound.text(), "HTTP/1.1 404 Not Found\r\n\r\n");
    assert_eq!(READ_BUFFER_SIZE, 512);
}
