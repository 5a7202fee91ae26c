use menial_2::utils::{
    get_status_line, get_status_part, make304, get_redirect_response, get_file_name_extension,
    get_content_type, intrusion_try_detected, get_response_headers, file_data_from,
    get_default_status_page, get_base_headers, base_headers_at, default_page_at,
};
use menial_2::text::{u64_to_string, i64_to_string};
use menial_2::digest::lower_hex_exec;

#[test]
fn status_lines() {
    assert_eq!(get_status_line(200), "HTTP/1.1 200 OK");
    assert_eq!(get_status_line(400), "HTTP/1.1 400 Bad Request");
    assert_eq!(get_status_line(401), "HTTP/1.1 401 Unauthorized");
    assert_eq!(get_status_line(404), "HTTP/1.1 404 Not Found");
    assert_eq!(get_status_part(404), "404 Not Found");
}

#[test]
fn base_headers_at_epoch() {
    assert_eq!(
        base_headers_at(784111777).unwrap(),
        "Server: menial/2\nDate: Sun, 06 Nov 1994 08:49:37 GMT"
    );
    assert!(base_headers_at(i64::MAX).is_none());
}

#[test]
fn base_headers_now() {
    let h = get_base_headers();
    assert!(h.starts_with("Server: menial/2\nDate: "));
    assert!(h.ends_with(" GMT"));
}

#[test]
fn not_modified_head() {
    let r = make304(String::from("Last-Modified: X"), String::from("ETag: \"e\""));
    assert!(r.starts_with("HTTP/1.1 304 Not Modified\nServer: menial/2\nDate: "));
    assert!(r.ends_with(" GMT\nLast-Modified: X\nETag: \"e\"\r\n\r\n"));
}

#[test]
fn redirects() {
    let (h, b) = get_redirect_response(true, String::from("https://example.org/"), String::from("BASE"));
    assert_eq!(h, "HTTP/1.1 301 Moved Permanently\nLocation: https://example.org/\nBASE\r\n\r\n");
    assert!(b.is_empty());
    let (h, b) = get_redirect_response(false, String::from("/x"), String::from("B"));
    assert_eq!(h, "HTTP/1.1 302 Found\nLocation: /x\nB\r\n\r\n");
    assert!(b.is_empty());
}

#[test]
fn extensions() {
    assert_eq!(get_file_name_extension(&String::from("root/a.tar.gz")), "gz");
    assert_eq!(get_file_name_extension(&String::from("index.html")), "html");
    assert_eq!(get_file_name_extension(&String::from("README")), "README");
    assert_eq!(get_file_name_extension(&String::from("dir.d/")), "d/");
    assert_eq!(get_file_name_extension(&String::from("trailing.")), "");
}

#[test]
fn content_types() {
    assert_eq!(get_content_type(String::from("html")), "text/html");
    assert_eq!(get_content_type(String::from("htm")), "text/html");
    assert_eq!(get_content_type(String::from("css")), "text/css");
    assert_eq!(get_content_type(String::from("jpeg")), "image/jpeg");
    assert_eq!(get_content_type(String::from("mp4")), "audio/mp4");
    assert_eq!(get_content_type(String::from("svg")), "image/svg+xml");
    assert_eq!(get_content_type(String::from("txt")), "text/txt");
    assert_eq!(get_content_type(String::from("woff2")), "font/woff2");
    assert_eq!(get_content_type(String::from("HTML")), "text/plain");
    assert_eq!(get_content_type(String::from("")), "text/plain");
}

#[test]
fn intrusions() {
    assert!(intrusion_try_detected(String::from("GET /../etc/passwd HTTP/1.1")));
    assert!(intrusion_try_detected(String::from("GET /a.. HTTP/1.1")));
    assert!(intrusion_try_detected(String::from("GET //a//b HTTP/1.1")));
    assert!(intrusion_try_detected(String::from("GET ////")));
    assert!(!intrusion_try_detected(String::from("GET ///")));
    assert!(!intrusion_try_detected(String::from("GET //a HTTP/1.1")));
    assert!(!intrusion_try_detected(String::from("GET /a.b/c.d HTTP/1.1")));
    assert!(!intrusion_try_detected(String::new()));
}

#[test]
fn response_header_lines() {
    let (len, etag, modified, ctype) =
        get_response_headers(&vec![1, 2, 3, 4, 5], 0, &String::from("abc"), &String::from("www/x.html")).unwrap();
    assert_eq!(len, "Content-Length: 5");
    assert_eq!(etag, "ETag: \"abc\"");
    assert_eq!(modified, "Last-Modified: Thu, 01 Jan 1970 00:00:00 GMT");
    assert_eq!(ctype, "Content-Type: text/html");
    assert!(get_response_headers(&vec![], i64::MIN, &String::new(), &String::new()).is_none());
}

#[test]
fn file_data_digest() {
    let f = file_data_from(b"hello".to_vec(), 784111777).unwrap();
    assert_eq!(f.hash, "2cf24dba5fb0a30e26e83b2ac5b9e29e1b161e5c1fa7425e73043362938b9824");
    assert_eq!(f.contents, b"hello".to_vec());
    assert_eq!(f.modified, 784111777);
    assert_eq!(f.modified_short, 784111777);
    let e = file_data_from(Vec::new(), 0).unwrap();
    assert_eq!(e.hash, "e3b0c44298fc1c149afbf4c8996fb92427ae41e4649b934ca495991b7852b855");
    assert_eq!(e.hash.len(), 64);
    assert!(file_data_from(Vec::new(), i64::MAX).is_none());
}

#[test]
fn default_pages() {
    let p = default_page_at(404, 0).unwrap();
    assert_eq!(p.contents, b"404 Not Found - Menial 2".to_vec());
    assert_eq!(p.modified, 0);
    assert_eq!(p.modified_short, 0);
    assert_eq!(p.hash, "");
    let q = get_default_status_page(400).unwrap();
    assert_eq!(q.contents, b"400 Bad Request - Menial 2".to_vec());
    assert!(q.modified > 0);
    assert_eq!(q.hash, "");
}

#[test]
fn numerals() {
    assert_eq!(u64_to_string(0), "0");
    assert_eq!(u64_to_string(8080), "8080");
    assert_eq!(u64_to_string(u64::MAX), "18446744073709551615");
    assert_eq!(i64_to_string(-443), "-443");
    assert_eq!(i64_to_string(i64::MIN), "-9223372036854775808");
    assert_eq!(i64_to_string(443), "443");
}

#[test]
fn hex_digits() {
    let h: String = lower_hex_exec(&[0x00, 0x0a, 0xff, 0x10]).into_iter().collect();
    assert_eq!(h, "000aff10");
}
