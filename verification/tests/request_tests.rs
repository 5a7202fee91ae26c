use menial_2::request::parse_request;
use menial_2::auth::{read_credentials_exec, authfile_accepts_exec, Credentials};

#[test]
fn request_head_fields() {
    let r = parse_request(
        "GET /index.html?x=1 HTTP/1.1\r\nHost: localhost:8080\r\nIf-None-Match: \"abc\"\r\nIf-Modified-Since: Sun, 06 Nov 1994 08:49:37 GMT\r\nAuthorization: Basic dXNlcjpwYXNz\r\n\r\n\0\0\0",
    )
    .unwrap();
    assert_eq!(r.document, "/index.html?x=1");
    assert_eq!(r.host, "localhost:8080");
    assert_eq!(r.none_match, "\"abc\"");
    assert_eq!(r.modified_since, "Sun, 06 Nov 1994 08:49:37 GMT");
    assert_eq!(r.auth, "Basic dXNlcjpwYXNz");
}

#[test]
fn request_post_and_missing_fields() {
    // The target is cut at byte 4 for POST too.
    let r = parse_request("POST /form HTTP/1.1\r\n\r\n").unwrap();
    assert_eq!(r.document, " /form");
    assert_eq!(r.host, "");
    assert_eq!(r.auth, "");
    let r = parse_request("GET /nohttp\r\n").unwrap();
    assert_eq!(r.document, "");
    let r = parse_request("").unwrap();
    assert_eq!(r.document, "");
}

#[test]
fn request_later_lines_override() {
    let r = parse_request("Host: a\r\nHost: b\r\n").unwrap();
    assert_eq!(r.host, "b");
}

#[test]
fn request_non_ascii_values() {
    let r = parse_request("GET /caf\u{e9} HTTP/1.1\r\nHost: h\u{e9}\r\n").unwrap();
    assert_eq!(r.document, "/caf\u{e9}");
    assert_eq!(r.host, "h\u{e9}");
}

#[test]
fn request_malformed_lines() {
    // The request target would end before it starts.
    assert!(parse_request("GET HTTP/1.1\r\n").is_none());
    assert!(parse_request("GETHTTP\r\n").is_none());
    // A header with nothing after its name.
    assert!(parse_request("Host:\r\n").is_none());
    assert!(parse_request("If-None-Match:\r\n").is_none());
    assert_eq!(parse_request("If-None-Match: \r\n").unwrap().none_match, "");
    // A header whose last byte is inside a character.
    assert!(parse_request("Host: h\u{e9}").is_none());
    // A target cut inside a character.
    assert!(parse_request("GET\u{e9}x HTTP/1.1\r\n").is_none());
}

#[test]
fn credentials() {
    match read_credentials_exec(&String::from("Basic dXNlcjpwYXNz")) {
        Credentials::Given { user, password } => {
            assert_eq!(user, "user");
            assert_eq!(password, "cGFzcw==");
        }
        _ => panic!("credentials expected"),
    }
    match read_credentials_exec(&String::from("Basic dTpwOnE=")) {
        Credentials::Given { user, password } => {
            assert_eq!(user, "u");
            assert_eq!(password, "cA==");
        }
        _ => panic!("credentials expected"),
    }
    assert!(matches!(read_credentials_exec(&String::from("Basic")), Credentials::Missing));
    assert!(matches!(read_credentials_exec(&String::new()), Credentials::Missing));
    assert!(matches!(read_credentials_exec(&String::from("Basic !!!!")), Credentials::Malformed));
    assert!(matches!(read_credentials_exec(&String::from("Basic dXNlcg==")), Credentials::Malformed));
    assert!(matches!(read_credentials_exec(&String::from("Basic /w==")), Credentials::Malformed));
}

#[test]
fn password_file() {
    let file = String::from("# users\nadmin:c2VjcmV0\nuser:cGFzcw==\nbroken:a:b\n");
    assert!(authfile_accepts_exec(&file, &String::from("user"), &String::from("cGFzcw==")));
    assert!(authfile_accepts_exec(&file, &String::from("admin"), &String::from("c2VjcmV0")));
    assert!(!authfile_accepts_exec(&file, &String::from("user"), &String::from("c2VjcmV0")));
    assert!(!authfile_accepts_exec(&file, &String::from("broken"), &String::from("a")));
    assert!(!authfile_accepts_exec(&String::new(), &String::new(), &String::new()));
}
