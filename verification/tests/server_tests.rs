use menial_2::config::{config_from_cli, config_from_yaml_text, CliArgs, Config};
use menial_2::server::{begin_request, advance_request, Action, Event, Exchange};

const NOW: i64 = 784111777;
const NOW_DATE: &str = "Sun, 06 Nov 1994 08:49:37 GMT";

fn cli_config(resources: Option<&str>) -> Config {
    config_from_cli(&CliArgs {
        host: Some(String::from("localhost")),
        port: Some(String::from("8080")),
        root: Some(String::from("www")),
        resources: resources.map(String::from),
        file: None,
        key: None,
        cert: None,
        loglevel: None,
        redirect_to: None,
        redirect_permanent: false,
    })
}

fn buffer(head: &str) -> Vec<u8> {
    let mut b = vec![0u8; 1024];
    b[..head.len()].copy_from_slice(head.as_bytes());
    b
}

fn expect_next(r: (Option<Exchange>, Action)) -> (Exchange, Action) {
    match r {
        (Some(x), a) => (x, a),
        (None, _) => panic!("the request should still be open"),
    }
}

fn expect_response(r: (Option<Exchange>, Action)) -> (String, Vec<u8>) {
    match r {
        (None, Action::Respond(h, b)) => (h, b),
        _ => panic!("a response was expected"),
    }
}

#[test]
fn existing_file_is_served() {
    let config = cli_config(None);
    let (x, a) = expect_next(begin_request(&config, &buffer("GET /a.html HTTP/1.1\r\nHost: localhost:8080\r\n\r\n"), "80", NOW));
    assert!(matches!(a, Action::CheckDocument(ref p) if p == "www/a.html"));
    let (x, a) = expect_next(advance_request(x, Event::DocumentExists(true), NOW));
    assert!(matches!(a, Action::LoadFile(ref p) if p == "www/a.html"));
    let (h, b) = expect_response(advance_request(x, Event::FileLoaded(b"hello".to_vec(), 0), NOW));
    assert_eq!(
        h,
        format!(
            "HTTP/1.1 200 OK\nServer: menial/2\nDate: {}\nContent-Length: 5\nETag: \"2cf24dba5fb0a30e26e83b2ac5b9e29e1b161e5c1fa7425e73043362938b9824\"\nLast-Modified: Thu, 01 Jan 1970 00:00:00 GMT\nContent-Type: text/html\r\n\r\n",
            NOW_DATE
        )
    );
    assert_eq!(b, b"hello".to_vec());
}

#[test]
fn root_is_index_and_query_dropped() {
    let config = cli_config(None);
    let (_, a) = expect_next(begin_request(&config, &buffer("GET / HTTP/1.1\r\n\r\n"), "80", NOW));
    assert!(matches!(a, Action::CheckDocument(ref p) if p == "www/index.html"));
    let (_, a) = expect_next(begin_request(&config, &buffer("GET /q.html?a=b?c HTTP/1.1\r\n\r\n"), "80", NOW));
    assert!(matches!(a, Action::CheckDocument(ref p) if p == "www/q.html"));
}

#[test]
fn missing_document_is_not_found() {
    let config = cli_config(Some("pages"));
    let (x, _) = expect_next(begin_request(&config, &buffer("GET /none HTTP/1.1\r\n\r\n"), "80", NOW));
    let (x, a) = expect_next(advance_request(x, Event::DocumentExists(false), NOW));
    assert!(matches!(a, Action::LoadFile(ref p) if p == "pages/404.html"));
    let (h, b) = expect_response(advance_request(x, Event::FileLoaded(b"nf".to_vec(), 0), NOW));
    assert!(h.starts_with("HTTP/1.1 404 Not Found\nServer: menial/2\nDate: "));
    assert!(h.contains("\nContent-Length: 2\n"));
    assert_eq!(b, b"nf".to_vec());
}

#[test]
fn post_of_existing_document_is_not_found() {
    let config = cli_config(Some(""));
    let (x, _) = expect_next(begin_request(&config, &buffer("POST /a.html HTTP/1.1\r\n\r\n"), "80", NOW));
    let (h, b) = expect_response(advance_request(x, Event::DocumentExists(true), NOW));
    assert!(h.starts_with("HTTP/1.1 404 Not Found\n"));
    assert!(h.contains("\nETag: \"\"\n"));
    assert!(h.ends_with("\nContent-Type: text/html\r\n\r\n"));
    assert_eq!(b, b"404 Not Found - Menial 2".to_vec());
}

#[test]
fn intrusion_is_bad_request() {
    let config = cli_config(Some(""));
    let (h, b) = expect_response(begin_request(&config, &buffer("GET /../etc/passwd HTTP/1.1\r\n\r\n"), "80", NOW));
    assert!(h.starts_with("HTTP/1.1 400 Bad Request\n"));
    assert_eq!(b, b"400 Bad Request - Menial 2".to_vec());
    let config = cli_config(Some("pages"));
    let (_, a) = expect_next(begin_request(&config, &buffer("GET //a//b HTTP/1.1\r\n\r\n"), "80", NOW));
    assert!(matches!(a, Action::LoadFile(ref p) if p == "pages/400.html"));
}

#[test]
fn matching_etag_is_not_modified() {
    let config = cli_config(None);
    let head = "GET /a.html HTTP/1.1\r\nIf-None-Match: \"2cf24dba5fb0a30e26e83b2ac5b9e29e1b161e5c1fa7425e73043362938b9824\"\r\n\r\n";
    let (x, _) = expect_next(begin_request(&config, &buffer(head), "80", NOW));
    let (x, _) = expect_next(advance_request(x, Event::DocumentExists(true), NOW));
    let (h, b) = expect_response(advance_request(x, Event::FileLoaded(b"hello".to_vec(), 0), NOW));
    assert_eq!(
        h,
        format!(
            "HTTP/1.1 304 Not Modified\nServer: menial/2\nDate: {}\nLast-Modified: Thu, 01 Jan 1970 00:00:00 GMT\nETag: \"2cf24dba5fb0a30e26e83b2ac5b9e29e1b161e5c1fa7425e73043362938b9824\"\r\n\r\n",
            NOW_DATE
        )
    );
    assert!(b.is_empty());
}

#[test]
fn unmodified_since_is_not_modified() {
    let config = cli_config(None);
    let head = "GET /a.html HTTP/1.1\r\nIf-Modified-Since: Sun, 06 Nov 1994 08:49:37 GMT\r\n\r\n";
    let (x, _) = expect_next(begin_request(&config, &buffer(head), "80", NOW));
    let (x, _) = expect_next(advance_request(x, Event::DocumentExists(true), NOW));
    let (h, b) = expect_response(advance_request(x, Event::FileLoaded(b"hello".to_vec(), NOW), NOW));
    assert!(h.starts_with("HTTP/1.1 304 Not Modified\n"));
    assert!(b.is_empty());
    // Modified after the date the request names.
    let (x, _) = expect_next(begin_request(&config, &buffer(head), "80", NOW));
    let (x, _) = expect_next(advance_request(x, Event::DocumentExists(true), NOW));
    let (h, b) = expect_response(advance_request(x, Event::FileLoaded(b"hello".to_vec(), NOW + 1), NOW));
    assert!(h.starts_with("HTTP/1.1 200 OK\n"));
    assert_eq!(b, b"hello".to_vec());
}

const YAML: &str = "hosts:
  plain.org:80:
    root: plain
  moved.org:80:
    root: moved
    redirect_to: https://new.org/
  safe.org:80:
    root: safe
    authfile: users.txt
ssl: {}
";

fn yaml_config() -> Config {
    config_from_yaml_text(String::from("menial.yml"), YAML).unwrap()
}

#[test]
fn host_gets_default_port_and_unknown_host_falls_back() {
    let config = yaml_config();
    let (_, a) = expect_next(begin_request(&config, &buffer("GET /x HTTP/1.1\r\nHost: plain.org\r\n\r\n"), "80", NOW));
    assert!(matches!(a, Action::CheckDocument(ref p) if p == "plain/x"));
    let (_, a) = expect_next(begin_request(&config, &buffer("GET /x HTTP/1.1\r\nHost: other.org\r\n\r\n"), "80", NOW));
    assert!(matches!(a, Action::CheckDocument(ref p) if p == "plain/x"));
}

#[test]
fn redirect_host() {
    let config = yaml_config();
    let (h, b) = expect_response(begin_request(&config, &buffer("GET /x HTTP/1.1\r\nHost: moved.org\r\n\r\n"), "80", NOW));
    assert_eq!(h, format!("HTTP/1.1 302 Found\nLocation: https://new.org/\nServer: menial/2\nDate: {}\r\n\r\n", NOW_DATE));
    assert!(b.is_empty());
}

#[test]
fn protected_host() {
    let config = yaml_config();
    let (h, b) = expect_response(begin_request(&config, &buffer("GET /x HTTP/1.1\r\nHost: safe.org\r\n\r\n"), "80", NOW));
    assert_eq!(h, "HTTP/1.1 401 Unauthorized\n");
    assert_eq!(b, b"WWW-Authenticate: Basic realm=User Visible Realm\n\n".to_vec());

    let head = "GET /x HTTP/1.1\r\nHost: safe.org\r\nAuthorization: Basic dXNlcjpwYXNz\r\n\r\n";
    let (x, a) = expect_next(begin_request(&config, &buffer(head), "80", NOW));
    assert!(matches!(a, Action::ReadAuthFile(ref p) if p == "users.txt"));
    let (_, a) = expect_next(advance_request(x, Event::AuthFile(String::from("user:cGFzcw==\n")), NOW));
    assert!(matches!(a, Action::CheckDocument(ref p) if p == "safe/x"));

    let (x, _) = expect_next(begin_request(&config, &buffer(head), "80", NOW));
    let (h, _) = expect_response(advance_request(x, Event::AuthFile(String::from("user:other\n")), NOW));
    assert_eq!(h, "HTTP/1.1 401 Unauthorized\n");

    let bad = "GET /x HTTP/1.1\r\nHost: safe.org\r\nAuthorization: Basic !!!!\r\n\r\n";
    assert!(matches!(begin_request(&config, &buffer(bad), "80", NOW), (None, Action::Abort)));
}

#[test]
fn malformed_or_unserved_requests_are_given_up() {
    let config = cli_config(None);
    assert!(matches!(begin_request(&config, &buffer("GET HTTP/1.1\r\n\r\n"), "80", NOW), (None, Action::Abort)));
    assert!(matches!(begin_request(&config, &buffer("GET / HTTP/1.1\r\n"), "80", i64::MAX), (None, Action::Abort)));
    let empty = config_from_yaml_text(String::from("f"), "hosts: {}\nssl: {}\n").unwrap();
    assert!(matches!(begin_request(&empty, &buffer("GET / HTTP/1.1\r\n"), "80", NOW), (None, Action::Abort)));
    let (x, _) = expect_next(begin_request(&config, &buffer("GET / HTTP/1.1\r\n"), "80", NOW));
    assert!(matches!(advance_request(x, Event::AuthFile(String::new()), NOW), (None, Action::Abort)));
}

#[test]
fn invalid_utf8_is_read_lossily() {
    let config = cli_config(None);
    let mut b = buffer("GET /a HTTP/1.1\r\n\r\n");
    b[1000] = 0xff;
    let (_, a) = expect_next(begin_request(&config, &b, "80", NOW));
    assert!(matches!(a, Action::CheckDocument(ref p) if p == "www/a"));
}
