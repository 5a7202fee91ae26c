//! The pieces of an HTTP response: status lines, header lines, content
//! types, and the ports the server listens on.
use vstd::prelude::*;
pub use crate::ports::{get_ports, get_ssl_ports};
use crate::text::{
    chars_of, string_from_chars, split_on, split_exec, views_of, decimal, u64_to_string, lemma_split_nonempty,
    count_pair, count_pair_exec, has_pair, lemma_count_pair_positive,
};
use vstd::utf8::encode_utf8;
use vstd::string::StrSliceExecFns;
use crate::clock::{spec_http_date, spec_parse_http_date, now_timestamp, http_date, parse_http_date};
use crate::digest::{spec_sha256, sha256, lower_hex, lower_hex_exec};

verus! {

/// The statuses the server answers with.
pub open spec fn status_known(status: u16) -> bool {
    status == 200 || status == 400 || status == 401 || status == 404
}

/// The code and reason phrase of a status.
pub open spec fn status_part(status: u16) -> Seq<char> {
    if status == 200 {
        "200 OK"@
    } else if status == 400 {
        "400 Bad Request"@
    } else if status == 401 {
        "401 Unauthorized"@
    } else {
        "404 Not Found"@
    }
}

/// The code and reason phrase of a known status.
pub fn get_status_part(status: u16) -> (r: String)
    requires
        status_known(status),
    ensures
        r@ == status_part(status),
{
    if status == 200 {
        "200 OK".to_owned()
    } else if status == 400 {
        "400 Bad Request".to_owned()
    } else if status == 401 {
        "401 Unauthorized".to_owned()
    } else {
        "404 Not Found".to_owned()
    }
}

pub open spec fn status_line(status: u16) -> Seq<char> {
    "HTTP/1.1 "@ + status_part(status)
}

/// The status line of a response with a known status.
pub fn get_status_line(status: u16) -> (r: String)
    requires
        status_known(status),
    ensures
        r@ == status_line(status),
{
    let mut r = "HTTP/1.1 ".to_owned();
    let part = get_status_part(status);
    r.append(part.as_str());
    r
}

/// The headers every response carries, for an HTTP date `date`.
pub open spec fn base_headers_text(date: Seq<char>) -> Seq<char> {
    "Server: menial/2\nDate: "@ + date
}

/// `h` is the text of the base headers at some time.
pub open spec fn is_base_headers(h: Seq<char>) -> bool {
    exists|t: int| t >= 0 && #[trigger] spec_http_date(t) is Some && h == base_headers_text(spec_http_date(t)->0)
}

/// The base headers of a response sent at Unix time `now`; `None` where
/// `now` has no date.
pub fn base_headers_at(now: i64) -> (r: Option<String>)
    ensures
        match spec_http_date(now as int) {
            Some(d) => r matches Some(h) && h@ == base_headers_text(d),
            None => r is None,
        },
{
    match http_date(now) {
        Some(d) => {
            let mut r = "Server: menial/2\nDate: ".to_owned();
            r.append(d.as_str());
            Some(r)
        },
        None => None,
    }
}

/// The base headers of a response sent now: the server line and the date.
pub fn get_base_headers() -> (r: String)
    ensures
        is_base_headers(r@),
{
    let t = now_timestamp();
    match base_headers_at(t) {
        Some(r) => {
            assert(spec_http_date(t as int) is Some);
            r
        },
        None => {
            assert(false);
            String::new()
        },
    }
}

/// The head of a `304 Not Modified` response.
pub open spec fn not_modified_text(base: Seq<char>, modified: Seq<char>, etag: Seq<char>) -> Seq<char> {
    "HTTP/1.1 304 Not Modified"@ + "\n"@ + base + "\n"@ + modified + "\n"@ + etag + "\r\n\r\n"@
}

pub fn not_modified_with(base: &String, modified: &String, etag: &String) -> (r: String)
    ensures
        r@ == not_modified_text(base@, modified@, etag@),
{
    let mut r = "HTTP/1.1 304 Not Modified".to_owned();
    r.append("\n");
    r.append(base.as_str());
    r.append("\n");
    r.append(modified.as_str());
    r.append("\n");
    r.append(etag.as_str());
    r.append("\r\n\r\n");
    r
}

/// The head of a `304 Not Modified` response sent now, with the given
/// `Last-Modified` and `ETag` header lines.
pub fn make304(modified: String, etag: String) -> (r: String)
    ensures
        exists|base: Seq<char>| is_base_headers(base) && r@ == not_modified_text(base, modified@, etag@),
{
    let base = get_base_headers();
    not_modified_with(&base, &modified, &etag)
}

/// The head of a redirect response.
pub open spec fn redirect_text(permanent: bool, to: Seq<char>, base: Seq<char>) -> Seq<char> {
    (if permanent {
        "HTTP/1.1 301 Moved Permanently"@
    } else {
        "HTTP/1.1 302 Found"@
    }) + "\nLocation: "@ + to + "\n"@ + base + "\r\n\r\n"@
}

/// A redirect to `to`, permanent (301) or not (302), with an empty body.
pub fn get_redirect_response(permanent: bool, to: String, base_headers: String) -> (r: (String, Vec<u8>))
    ensures
        r.0@ == redirect_text(permanent, to@, base_headers@),
        r.1@.len() == 0,
{
    let mut r = if permanent {
        "HTTP/1.1 301 Moved Permanently".to_owned()
    } else {
        "HTTP/1.1 302 Found".to_owned()
    };
    r.append("\nLocation: ");
    r.append(to.as_str());
    r.append("\n");
    r.append(base_headers.as_str());
    r.append("\r\n\r\n");
    (r, Vec::new())
}

/// The part of a file name after its last `'.'` (the whole name where it
/// has none).
pub open spec fn file_name_extension(filename: Seq<char>) -> Seq<char> {
    split_on(filename, '.').last()
}

pub fn get_file_name_extension(filename: &String) -> (r: String)
    ensures
        r@ == file_name_extension(filename@),
{
    let chars = chars_of(filename.as_str());
    let parts = split_exec(chars.as_slice(), '.');
    proof {
        lemma_split_nonempty(filename@, '.');
    }
    let last = parts.len() - 1;
    assert(views_of(parts@)[last as int] == parts@[last as int]@);
    string_from_chars(parts[last].as_slice())
}

/// The media type served for a file extension.
pub open spec fn content_type(ext: Seq<char>) -> Seq<char> {
    if ext == "html"@ || ext == "htm"@ {
        "text/html"@
    } else if ext == "css"@ {
        "text/css"@
    } else if ext == "gif"@ {
        "image/gif"@
    } else if ext == "mp3"@ {
        "audio/mpeg"@
    } else if ext == "mp4"@ {
        "audio/mp4"@
    } else if ext == "jpg"@ || ext == "jpeg"@ {
        "image/jpeg"@
    } else if ext == "js"@ {
        "text/javascript"@
    } else if ext == "json"@ {
        "application/json"@
    } else if ext == "pdf"@ {
        "application/pdf"@
    } else if ext == "png"@ {
        "image/png"@
    } else if ext == "svg"@ {
        "image/svg+xml"@
    } else if ext == "ttf"@ {
        "font/ttf"@
    } else if ext == "txt"@ {
        "text/txt"@
    } else if ext == "woff"@ {
        "font/woff"@
    } else if ext == "woff2"@ {
        "font/woff2"@
    } else if ext == "xml"@ {
        "application/xml"@
    } else if ext == "zip"@ {
        "application/zip"@
    } else {
        "text/plain"@
    }
}

fn ext_is(ext: &String, name: &str) -> (r: bool)
    ensures
        r == (ext@ == name@),
{
    *ext == name.to_owned()
}

pub fn get_content_type(filename_extension: String) -> (r: String)
    ensures
        r@ == content_type(filename_extension@),
{
    let e = &filename_extension;
    let t = if ext_is(e, "html") || ext_is(e, "htm") {
        "text/html"
    } else if ext_is(e, "css") {
        "text/css"
    } else if ext_is(e, "gif") {
        "image/gif"
    } else if ext_is(e, "mp3") {
        "audio/mpeg"
    } else if ext_is(e, "mp4") {
        "audio/mp4"
    } else if ext_is(e, "jpg") || ext_is(e, "jpeg") {
        "image/jpeg"
    } else if ext_is(e, "js") {
        "text/javascript"
    } else if ext_is(e, "json") {
        "application/json"
    } else if ext_is(e, "pdf") {
        "application/pdf"
    } else if ext_is(e, "png") {
        "image/png"
    } else if ext_is(e, "svg") {
        "image/svg+xml"
    } else if ext_is(e, "ttf") {
        "font/ttf"
    } else if ext_is(e, "txt") {
        "text/txt"
    } else if ext_is(e, "woff") {
        "font/woff"
    } else if ext_is(e, "woff2") {
        "font/woff2"
    } else if ext_is(e, "xml") {
        "application/xml"
    } else if ext_is(e, "zip") {
        "application/zip"
    } else {
        "text/plain"
    };
    t.to_owned()
}

/// The header lines that describe a body: its length, its entity tag, when
/// it was last modified (an HTTP date), and its media type.
pub open spec fn response_headers(len: nat, date: Seq<char>, hash: Seq<char>, filename: Seq<char>) -> (
    Seq<char>,
    Seq<char>,
    Seq<char>,
    Seq<char>,
) {
    (
        "Content-Length: "@ + decimal(len),
        "ETag: \""@ + hash + "\""@,
        "Last-Modified: "@ + date,
        "Content-Type: "@ + content_type(file_name_extension(filename)),
    )
}

/// The header lines of a body `contents`, last modified at Unix time
/// `modified`, with digest `hash`, served from `filename`. `None` where
/// `modified` has no date.
pub fn get_response_headers(contents: &Vec<u8>, modified: i64, hash: &String, filename: &String) -> (r: Option<
    (String, String, String, String),
>)
    ensures
        match spec_http_date(modified as int) {
            Some(d) => r matches Some(h) && (h.0@, h.1@, h.2@, h.3@) == response_headers(
                contents@.len(),
                d,
                hash@,
                filename@,
            ),
            None => r is None,
        },
{
    let date = match http_date(modified) {
        Some(d) => d,
        None => {
            return None;
        },
    };
    let mut content_length = "Content-Length: ".to_owned();
    let len = u64_to_string(contents.len() as u64);
    content_length.append(len.as_str());
    let mut etag = "ETag: \"".to_owned();
    etag.append(hash.as_str());
    etag.append("\"");
    let mut modified_formatted = "Last-Modified: ".to_owned();
    modified_formatted.append(date.as_str());
    let extension = get_file_name_extension(filename);
    let mut content_type = "Content-Type: ".to_owned();
    let t = get_content_type(extension);
    content_type.append(t.as_str());
    Some((content_length, etag, modified_formatted, content_type))
}

/// A request tries to escape the document root: it holds `".."`, or
/// `"//"` more than once.
pub open spec fn intrusion(content: Seq<char>) -> bool {
    count_pair(content, '/') > 1 || count_pair(content, '.') > 0
}

pub fn intrusion_try_detected(request_content: String) -> (r: bool)
    ensures
        r == intrusion(request_content@),
{
    let chars = chars_of(request_content.as_str());
    let dots = count_pair_exec(chars.as_slice(), '.');
    let slashes = count_pair_exec(chars.as_slice(), '/');
    slashes > 1 || dots > 0
}

/// A body to serve, with what its headers need: when it was last modified
/// (Unix time), that time cut to what an HTTP date shows, and its digest.
pub struct FileData {
    pub contents: Vec<u8>,
    pub modified: i64,
    pub modified_short: i64,
    pub hash: String,
}

/// `modified` written as an HTTP date and read back.
pub open spec fn short_time(modified: int) -> Option<int> {
    match spec_http_date(modified) {
        Some(d) => spec_parse_http_date(d),
        None => None,
    }
}

/// The data served for a file with `contents`, last modified at `modified`:
/// its digest is the lower-case hex SHA-256 of the contents. `None` where
/// the time cannot be written as an HTTP date and read back.
pub fn file_data_from(contents: Vec<u8>, modified: i64) -> (r: Option<FileData>)
    ensures
        match short_time(modified as int) {
            Some(short) => r matches Some(f) && f.contents@ == contents@ && f.modified == modified
                && f.modified_short == short && f.hash@ == lower_hex(spec_sha256(contents@)),
            None => r is None,
        },
{
    let date = match http_date(modified) {
        Some(d) => d,
        None => {
            return None;
        },
    };
    let short = match parse_http_date(date.as_str()) {
        Some(t) => t,
        None => {
            return None;
        },
    };
    let digest = sha256(contents.as_slice());
    let hex = lower_hex_exec(digest.as_slice());
    let hash = string_from_chars(hex.as_slice());
    Some(FileData { contents, modified, modified_short: short, hash })
}

/// The text of the page served for a status when no page is configured.
pub open spec fn default_page_text(status: u16) -> Seq<char> {
    status_part(status) + " - Menial 2"@
}

/// The page served for a known status when no page is configured, dated
/// `now`, with an empty digest. `None` where `now` cannot be written as an
/// HTTP date and read back.
pub fn default_page_at(status: u16, now: i64) -> (r: Option<FileData>)
    requires
        status_known(status),
    ensures
        match short_time(now as int) {
            Some(short) => r matches Some(f) && f.contents@ == encode_utf8(default_page_text(status))
                && f.modified == now && f.modified_short == short && f.hash@.len() == 0,
            None => r is None,
        },
{
    let date = match http_date(now) {
        Some(d) => d,
        None => {
            return None;
        },
    };
    let short = match parse_http_date(date.as_str()) {
        Some(t) => t,
        None => {
            return None;
        },
    };
    let mut text = get_status_part(status);
    text.append(" - Menial 2");
    let contents = text.as_str().as_bytes_vec();
    Some(FileData { contents, modified: now, modified_short: short, hash: String::new() })
}

/// The page served for a known status when no page is configured, dated
/// now. `None` where the current time cannot be written as an HTTP date
/// and read back.
pub fn get_default_status_page(status: u16) -> (r: Option<FileData>)
    requires
        status_known(status),
    ensures
        exists|now: int|
            now >= 0 && match #[trigger] short_time(now) {
                Some(short) => r matches Some(f) && f.contents@ == encode_utf8(default_page_text(status))
                    && f.modified == now && f.modified_short == short && f.hash@.len() == 0,
                None => r is None,
            },
{
    let now = now_timestamp();
    let r = default_page_at(status, now);
    assert(now as int >= 0);
    r
}

/// A request that holds `".."` anywhere is an intrusion attempt; one that
/// holds neither `".."` nor `"//"` is not.
pub proof fn law_dot_dot_is_intrusion(content: Seq<char>)
    ensures
        has_pair(content, '.') ==> intrusion(content),
        !has_pair(content, '.') && !has_pair(content, '/') ==> !intrusion(content),
{
    lemma_count_pair_positive(content, '.');
    lemma_count_pair_positive(content, '/');
}

/// The media types served: each listed extension maps to its type, and
/// every other extension to `text/plain`.
pub proof fn law_content_types(ext: Seq<char>)
    ensures
        content_type("html"@) == "text/html"@,
        content_type("htm"@) == "text/html"@,
        content_type("css"@) == "text/css"@,
        content_type("gif"@) == "image/gif"@,
        content_type("mp3"@) == "audio/mpeg"@,
        content_type("mp4"@) == "audio/mp4"@,
        content_type("jpg"@) == "image/jpeg"@,
        content_type("jpeg"@) == "image/jpeg"@,
        content_type("js"@) == "text/javascript"@,
        content_type("json"@) == "application/json"@,
        content_type("pdf"@) == "application/pdf"@,
        content_type("png"@) == "image/png"@,
        content_type("svg"@) == "image/svg+xml"@,
        content_type("ttf"@) == "font/ttf"@,
        content_type("txt"@) == "text/txt"@,
        content_type("woff"@) == "font/woff"@,
        content_type("woff2"@) == "font/woff2"@,
        content_type("xml"@) == "application/xml"@,
        content_type("zip"@) == "application/zip"@,
        (ext != "html"@ && ext != "htm"@ && ext != "css"@ && ext != "gif"@ && ext != "mp3"@ && ext != "mp4"@ && ext != "jpg"@ && ext != "jpeg"@ && ext != "js"@ && ext != "json"@ && ext != "pdf"@ && ext != "png"@ && ext != "svg"@ && ext != "ttf"@ && ext != "txt"@ && ext != "woff"@ && ext != "woff2"@ && ext != "xml"@ && ext != "zip"@) ==> content_type(ext) == "text/plain"@,
{
    reveal_strlit("html");
    reveal_strlit("htm");
    reveal_strlit("css");
    reveal_strlit("gif");
    reveal_strlit("mp3");
    reveal_strlit("mp4");
    reveal_strlit("jpg");
    reveal_strlit("jpeg");
    reveal_strlit("js");
    reveal_strlit("json");
    reveal_strlit("pdf");
    reveal_strlit("png");
    reveal_strlit("svg");
    reveal_strlit("ttf");
    reveal_strlit("txt");
    reveal_strlit("woff");
    reveal_strlit("woff2");
    reveal_strlit("xml");
    reveal_strlit("zip");
    assert("htm"@.len() != "html"@.len());
    assert("css"@.len() != "html"@.len());
    assert("css"@[0] != "htm"@[0]);
    assert("gif"@.len() != "html"@.len());
    assert("gif"@[0] != "htm"@[0]);
    assert("gif"@[0] != "css"@[0]);
    assert("mp3"@.len() != "html"@.len());
    assert("mp3"@[0] != "htm"@[0]);
    assert("mp3"@[0] != "css"@[0]);
    assert("mp3"@[0] != "gif"@[0]);
    assert("mp4"@.len() != "html"@.len());
    assert("mp4"@[0] != "htm"@[0]);
    assert("mp4"@[0] != "css"@[0]);
    assert("mp4"@[0] != "gif"@[0]);
    assert("mp4"@[2] != "mp3"@[2]);
    assert("jpg"@.len() != "html"@.len());
    assert("jpg"@[0] != "htm"@[0]);
    assert("jpg"@[0] != "css"@[0]);
    assert("jpg"@[0] != "gif"@[0]);
    assert("jpg"@[0] != "mp3"@[0]);
    assert("jpg"@[0] != "mp4"@[0]);
    assert("jpeg"@[0] != "html"@[0]);
    assert("jpeg"@.len() != "htm"@.len());
    assert("jpeg"@.len() != "css"@.len());
    assert("jpeg"@.len() != "gif"@.len());
    assert("jpeg"@.len() != "mp3"@.len());
    assert("jpeg"@.len() != "mp4"@.len());
    assert("jpeg"@.len() != "jpg"@.len());
    assert("js"@.len() != "html"@.len());
    assert("js"@.len() != "htm"@.len());
    assert("js"@.len() != "css"@.len());
    assert("js"@.len() != "gif"@.len());
    assert("js"@.len() != "mp3"@.len());
    assert("js"@.len() != "mp4"@.len());
    assert("js"@.len() != "jpg"@.len());
    assert("js"@.len() != "jpeg"@.len());
    assert("json"@[0] != "html"@[0]);
    assert("json"@.len() != "htm"@.len());
    assert("json"@.len() != "css"@.len());
    assert("json"@.len() != "gif"@.len());
    assert("json"@.len() != "mp3"@.len());
    assert("json"@.len() != "mp4"@.len());
    assert("json"@.len() != "jpg"@.len());
    assert("json"@[1] != "jpeg"@[1]);
    assert("json"@.len() != "js"@.len());
    assert("pdf"@.len() != "html"@.len());
    assert("pdf"@[0] != "htm"@[0]);
    assert("pdf"@[0] != "css"@[0]);
    assert("pdf"@[0] != "gif"@[0]);
    assert("pdf"@[0] != "mp3"@[0]);
    assert("pdf"@[0] != "mp4"@[0]);
    assert("pdf"@[0] != "jpg"@[0]);
    assert("pdf"@.len() != "jpeg"@.len());
    assert("pdf"@.len() != "js"@.len());
    assert("pdf"@.len() != "json"@.len());
    assert("png"@.len() != "html"@.len());
    assert("png"@[0] != "htm"@[0]);
    assert("png"@[0] != "css"@[0]);
    assert("png"@[0] != "gif"@[0]);
    assert("png"@[0] != "mp3"@[0]);
    assert("png"@[0] != "mp4"@[0]);
    assert("png"@[0] != "jpg"@[0]);
    assert("png"@.len() != "jpeg"@.len());
    assert("png"@.len() != "js"@.len());
    assert("png"@.len() != "json"@.len());
    assert("png"@[1] != "pdf"@[1]);
    assert("svg"@.len() != "html"@.len());
    assert("svg"@[0] != "htm"@[0]);
    assert("svg"@[0] != "css"@[0]);
    assert("svg"@[0] != "gif"@[0]);
    assert("svg"@[0] != "mp3"@[0]);
    assert("svg"@[0] != "mp4"@[0]);
    assert("svg"@[0] != "jpg"@[0]);
    assert("svg"@.len() != "jpeg"@.len());
    assert("svg"@.len() != "js"@.len());
    assert("svg"@.len() != "json"@.len());
    assert("svg"@[0] != "pdf"@[0]);
    assert("svg"@[0] != "png"@[0]);
    assert("ttf"@.len() != "html"@.len());
    assert("ttf"@[0] != "htm"@[0]);
    assert("ttf"@[0] != "css"@[0]);
    assert("ttf"@[0] != "gif"@[0]);
    assert("ttf"@[0] != "mp3"@[0]);
    assert("ttf"@[0] != "mp4"@[0]);
    assert("ttf"@[0] != "jpg"@[0]);
    assert("ttf"@.len() != "jpeg"@.len());
    assert("ttf"@.len() != "js"@.len());
    assert("ttf"@.len() != "json"@.len());
    assert("ttf"@[0] != "pdf"@[0]);
    assert("ttf"@[0] != "png"@[0]);
    assert("ttf"@[0] != "svg"@[0]);
    assert("txt"@.len() != "html"@.len());
    assert("txt"@[0] != "htm"@[0]);
    assert("txt"@[0] != "css"@[0]);
    assert("txt"@[0] != "gif"@[0]);
    assert("txt"@[0] != "mp3"@[0]);
    assert("txt"@[0] != "mp4"@[0]);
    assert("txt"@[0] != "jpg"@[0]);
    assert("txt"@.len() != "jpeg"@.len());
    assert("txt"@.len() != "js"@.len());
    assert("txt"@.len() != "json"@.len());
    assert("txt"@[0] != "pdf"@[0]);
    assert("txt"@[0] != "png"@[0]);
    assert("txt"@[0] != "svg"@[0]);
    assert("txt"@[1] != "ttf"@[1]);
    assert("woff"@[0] != "html"@[0]);
    assert("woff"@.len() != "htm"@.len());
    assert("woff"@.len() != "css"@.len());
    assert("woff"@.len() != "gif"@.len());
    assert("woff"@.len() != "mp3"@.len());
    assert("woff"@.len() != "mp4"@.len());
    assert("woff"@.len() != "jpg"@.len());
    assert("woff"@[0] != "jpeg"@[0]);
    assert("woff"@.len() != "js"@.len());
    assert("woff"@[0] != "json"@[0]);
    assert("woff"@.len() != "pdf"@.len());
    assert("woff"@.len() != "png"@.len());
    assert("woff"@.len() != "svg"@.len());
    assert("woff"@.len() != "ttf"@.len());
    assert("woff"@.len() != "txt"@.len());
    assert("woff2"@.len() != "html"@.len());
    assert("woff2"@.len() != "htm"@.len());
    assert("woff2"@.len() != "css"@.len());
    assert("woff2"@.len() != "gif"@.len());
    assert("woff2"@.len() != "mp3"@.len());
    assert("woff2"@.len() != "mp4"@.len());
    assert("woff2"@.len() != "jpg"@.len());
    assert("woff2"@.len() != "jpeg"@.len());
    assert("woff2"@.len() != "js"@.len());
    assert("woff2"@.len() != "json"@.len());
    assert("woff2"@.len() != "pdf"@.len());
    assert("woff2"@.len() != "png"@.len());
    assert("woff2"@.len() != "svg"@.len());
    assert("woff2"@.len() != "ttf"@.len());
    assert("woff2"@.len() != "txt"@.len());
    assert("woff2"@.len() != "woff"@.len());
    assert("xml"@.len() != "html"@.len());
    assert("xml"@[0] != "htm"@[0]);
    assert("xml"@[0] != "css"@[0]);
    assert("xml"@[0] != "gif"@[0]);
    assert("xml"@[0] != "mp3"@[0]);
    assert("xml"@[0] != "mp4"@[0]);
    assert("xml"@[0] != "jpg"@[0]);
    assert("xml"@.len() != "jpeg"@.len());
    assert("xml"@.len() != "js"@.len());
    assert("xml"@.len() != "json"@.len());
    assert("xml"@[0] != "pdf"@[0]);
    assert("xml"@[0] != "png"@[0]);
    assert("xml"@[0] != "svg"@[0]);
    assert("xml"@[0] != "ttf"@[0]);
    assert("xml"@[0] != "txt"@[0]);
    assert("xml"@.len() != "woff"@.len());
    assert("xml"@.len() != "woff2"@.len());
    assert("zip"@.len() != "html"@.len());
    assert("zip"@[0] != "htm"@[0]);
    assert("zip"@[0] != "css"@[0]);
    assert("zip"@[0] != "gif"@[0]);
    assert("zip"@[0] != "mp3"@[0]);
    assert("zip"@[0] != "mp4"@[0]);
    assert("zip"@[0] != "jpg"@[0]);
    assert("zip"@.len() != "jpeg"@.len());
    assert("zip"@.len() != "js"@.len());
    assert("zip"@.len() != "json"@.len());
    assert("zip"@[0] != "pdf"@[0]);
    assert("zip"@[0] != "png"@[0]);
    assert("zip"@[0] != "svg"@[0]);
    assert("zip"@[0] != "ttf"@[0]);
    assert("zip"@[0] != "txt"@[0]);
    assert("zip"@.len() != "woff"@.len());
    assert("zip"@.len() != "woff2"@.len());
    assert("zip"@[0] != "xml"@[0]);
}

} // verus!
