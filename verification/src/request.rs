//! Reading the head of an HTTP request: the requested document and the
//! `Host`, `If-Modified-Since`, `If-None-Match` and `Authorization` headers.
//!
//! Header values are cut out of a line by byte offsets of its UTF-8
//! encoding, as `&line[a..b]` does on a `str`: a cut that does not fall on a
//! character boundary, or whose start lies after its end, makes the request
//! malformed.
use vstd::prelude::*;
use crate::text::{
    chars_of, string_from_chars, utf8_width, utf8_width_exec, char_index_of_byte, char_index_of_byte_exec,
    starts_with, starts_with_exec, find, find_exec, split_on, split_exec, views_of, lemma_ascii_prefix_boundary,
    occurs_at,
};

verus! {

/// The fields read from a request head.
pub struct Request {
    pub document: String,
    pub host: String,
    pub modified_since: String,
    pub none_match: String,
    pub auth: String,
}

/// The mathematical value of a [`Request`].
pub struct RequestView {
    pub document: Seq<char>,
    pub host: Seq<char>,
    pub modified_since: Seq<char>,
    pub none_match: Seq<char>,
    pub auth: Seq<char>,
}

impl View for Request {
    type V = RequestView;

    open spec fn view(&self) -> RequestView {
        RequestView {
            document: self.document@,
            host: self.host@,
            modified_since: self.modified_since@,
            none_match: self.none_match@,
            auth: self.auth@,
        }
    }
}

pub open spec fn empty_request() -> RequestView {
    RequestView {
        document: Seq::empty(),
        host: Seq::empty(),
        modified_since: Seq::empty(),
        none_match: Seq::empty(),
        auth: Seq::empty(),
    }
}

/// `line[a..]` up to (not including) character `k`, where `a` is a byte
/// offset; `None` where `a` is no character boundary or lies after `k`.
pub open spec fn cut(line: Seq<char>, a: int, k: int) -> Option<Seq<char>> {
    match char_index_of_byte(line, a) {
        Some(i) => if i <= k {
            Some(line.subrange(i, k))
        } else {
            None
        },
        None => None,
    }
}

/// `line[a..line.len() - 1]` in bytes: the value of a header line, dropping
/// its last byte (the `'\r'` of the line ending).
pub open spec fn header_value(line: Seq<char>, a: int) -> Option<Seq<char>> {
    if line.len() > 0 && utf8_width(line.last()) == 1 {
        cut(line, a, line.len() - 1)
    } else {
        None
    }
}

/// `line[4..v - 1]` in bytes, where the first `"HTTP"` of the line starts at
/// character `j` (byte `v`): the document of a request line.
pub open spec fn request_target(line: Seq<char>, j: int) -> Option<Seq<char>> {
    if j >= 1 && utf8_width(line[j - 1]) == 1 {
        cut(line, 4, j - 1)
    } else {
        None
    }
}

/// What one line of the head does to the fields read so far; `None` where
/// the line is malformed.
pub open spec fn apply_line(r: RequestView, line: Seq<char>) -> Option<RequestView> {
    if starts_with(line, "GET"@) || starts_with(line, "POST"@) {
        match find(line, "HTTP"@) {
            Some(j) => match request_target(line, j) {
                Some(d) => Some(RequestView { document: d, ..r }),
                None => None,
            },
            None => Some(r),
        }
    } else if starts_with(line, "If-Modified-Since:"@) {
        match header_value(line, 19) {
            Some(v) => Some(RequestView { modified_since: v, ..r }),
            None => None,
        }
    } else if starts_with(line, "If-None-Match:"@) {
        match header_value(line, 15) {
            Some(v) => Some(RequestView { none_match: v, ..r }),
            None => None,
        }
    } else if starts_with(line, "Host:"@) {
        match header_value(line, 6) {
            Some(v) => Some(RequestView { host: v, ..r }),
            None => None,
        }
    } else if starts_with(line, "Authorization:"@) {
        match header_value(line, 15) {
            Some(v) => Some(RequestView { auth: v, ..r }),
            None => None,
        }
    } else {
        Some(r)
    }
}

/// The fields read from the first `n` lines.
pub open spec fn apply_lines(lines: Seq<Seq<char>>, n: nat) -> Option<RequestView>
    decreases n,
{
    if n == 0 {
        Some(empty_request())
    } else {
        match apply_lines(lines, (n - 1) as nat) {
            Some(r) => apply_line(r, lines[n - 1]),
            None => None,
        }
    }
}

/// The fields of a request, read line by line (lines end at `'\n'`); later
/// lines override earlier ones. `None` where some line is malformed.
pub open spec fn parse_request_spec(content: Seq<char>) -> Option<RequestView> {
    let lines = split_on(content, '\n');
    apply_lines(lines, lines.len())
}

fn cut_exec(line: &Vec<char>, a: usize, k: usize) -> (r: Option<Vec<char>>)
    requires
        a <= 0x10000,
        k <= line@.len(),
    ensures
        r matches Some(v) ==> cut(line@, a as int, k as int) == Some(v@),
        r is None ==> cut(line@, a as int, k as int) is None,
{
    match char_index_of_byte_exec(line, a) {
        Some(i) => {
            if i <= k {
                let mut v: Vec<char> = Vec::new();
                let mut m = i;
                while m < k
                    invariant
                        i <= m <= k,
                        k <= line@.len(),
                        v@ == line@.subrange(i as int, m as int),
                    decreases k - m,
                {
                    v.push(line[m]);
                    m = m + 1;
                    assert(v@ =~= line@.subrange(i as int, m as int));
                }
                Some(v)
            } else {
                None
            }
        },
        None => None,
    }
}

fn header_value_exec(line: &Vec<char>, a: usize) -> (r: Option<Vec<char>>)
    requires
        a <= 0x10000,
    ensures
        r matches Some(v) ==> header_value(line@, a as int) == Some(v@),
        r is None ==> header_value(line@, a as int) is None,
{
    if line.len() > 0 && utf8_width_exec(line[line.len() - 1]) == 1 {
        cut_exec(line, a, line.len() - 1)
    } else {
        None
    }
}

fn request_target_exec(line: &Vec<char>, j: usize) -> (r: Option<Vec<char>>)
    requires
        j <= line@.len(),
    ensures
        r matches Some(v) ==> request_target(line@, j as int) == Some(v@),
        r is None ==> request_target(line@, j as int) is None,
{
    if j >= 1 && utf8_width_exec(line[j - 1]) == 1 {
        cut_exec(line, 4, j - 1)
    } else {
        None
    }
}

/// Working state of the line-by-line reading.
struct Fields {
    document: Vec<char>,
    host: Vec<char>,
    modified_since: Vec<char>,
    none_match: Vec<char>,
    auth: Vec<char>,
}

impl Fields {
    spec fn as_view(&self) -> RequestView {
        RequestView {
            document: self.document@,
            host: self.host@,
            modified_since: self.modified_since@,
            none_match: self.none_match@,
            auth: self.auth@,
        }
    }
}

proof fn lemma_malformed_stays(lines: Seq<Seq<char>>, n: nat, m: nat)
    requires
        n <= m,
        apply_lines(lines, n) is None,
    ensures
        apply_lines(lines, m) is None,
    decreases m - n,
{
    if n < m {
        lemma_malformed_stays(lines, n, (m - 1) as nat);
    }
}

/// What one line does to the fields read so far.
fn apply_line_exec(f: Fields, line: &Vec<char>) -> (r: Option<Fields>)
    ensures
        r matches Some(g) ==> apply_line(f.as_view(), line@) == Some(g.as_view()),
        r is None ==> apply_line(f.as_view(), line@) is None,
{
    let get = chars_of("GET");
    let post = chars_of("POST");
    if starts_with_exec(line.as_slice(), get.as_slice()) || starts_with_exec(line.as_slice(), post.as_slice()) {
        let http = chars_of("HTTP");
        match find_exec(line.as_slice(), http.as_slice()) {
            Some(j) => {
                match request_target_exec(line, j) {
                    Some(d) => Some(Fields { document: d, ..f }),
                    None => None,
                }
            },
            None => Some(f),
        }
    } else if starts_with_exec(line.as_slice(), chars_of("If-Modified-Since:").as_slice()) {
        match header_value_exec(line, 19) {
            Some(v) => Some(Fields { modified_since: v, ..f }),
            None => None,
        }
    } else if starts_with_exec(line.as_slice(), chars_of("If-None-Match:").as_slice()) {
        match header_value_exec(line, 15) {
            Some(v) => Some(Fields { none_match: v, ..f }),
            None => None,
        }
    } else if starts_with_exec(line.as_slice(), chars_of("Host:").as_slice()) {
        match header_value_exec(line, 6) {
            Some(v) => Some(Fields { host: v, ..f }),
            None => None,
        }
    } else if starts_with_exec(line.as_slice(), chars_of("Authorization:").as_slice()) {
        match header_value_exec(line, 15) {
            Some(v) => Some(Fields { auth: v, ..f }),
            None => None,
        }
    } else {
        Some(f)
    }
}

/// Reads the fields of a request head. `None` exactly where the head has a
/// malformed line (a header cut that is not on a character boundary or
/// ends before it starts), where the connection is given up.
pub fn parse_request(content: &str) -> (r: Option<Request>)
    ensures
        r matches Some(req) ==> parse_request_spec(content@) == Some(req@),
        r is None ==> parse_request_spec(content@) is None,
{
    let chars = chars_of(content);
    let lines = split_exec(chars.as_slice(), '\n');
    let mut f = Fields {
        document: Vec::new(),
        host: Vec::new(),
        modified_since: Vec::new(),
        none_match: Vec::new(),
        auth: Vec::new(),
    };
    let ghost all = split_on(content@, '\n');
    assert(f.as_view() =~= empty_request());
    let mut n: usize = 0;
    while n < lines.len()
        invariant
            0 <= n <= lines@.len(),
            views_of(lines@) == all,
            all == split_on(content@, '\n'),
            apply_lines(all, n as nat) == Some(f.as_view()),
        decreases lines.len() - n,
    {
        assert(all[n as int] == lines@[n as int]@);
        match apply_line_exec(f, &lines[n]) {
            Some(g) => {
                f = g;
            },
            None => {
                proof {
                    lemma_malformed_stays(all, (n + 1) as nat, all.len());
                }
                return None;
            },
        }
        n = n + 1;
    }
    Some(
        Request {
            document: string_from_chars(f.document.as_slice()),
            host: string_from_chars(f.host.as_slice()),
            modified_since: string_from_chars(f.modified_since.as_slice()),
            none_match: string_from_chars(f.none_match.as_slice()),
            auth: string_from_chars(f.auth.as_slice()),
        },
    )
}

proof fn lemma_header_value(prefix: Seq<char>, v: Seq<char>)
    requires
        forall|i: int| 0 <= i < prefix.len() ==> (#[trigger] prefix[i] as u32) < 0x80,
    ensures
        header_value(prefix + v + seq!['\r'], prefix.len() as int) == Some(v),
{
    let line = prefix + v + seq!['\r'];
    assert forall|i: int| 0 <= i < prefix.len() implies (#[trigger] line[i] as u32) < 0x80 by {
        assert(line[i] == prefix[i]);
    }
    lemma_ascii_prefix_boundary(line, prefix.len() as int);
    assert(line.last() == '\r');
    assert(line.subrange(prefix.len() as int, line.len() - 1) =~= v);
}

/// A header line `Name: value\r` sets its field to `value`, whatever the
/// value holds, and leaves the other fields as they were.
pub proof fn law_header_line_sets_field(r: RequestView, v: Seq<char>)
    ensures
        apply_line(r, "Host: "@ + v + seq!['\r']) == Some(RequestView { host: v, ..r }),
        apply_line(r, "If-None-Match: "@ + v + seq!['\r']) == Some(RequestView { none_match: v, ..r }),
        apply_line(r, "If-Modified-Since: "@ + v + seq!['\r']) == Some(RequestView { modified_since: v, ..r }),
        apply_line(r, "Authorization: "@ + v + seq!['\r']) == Some(RequestView { auth: v, ..r }),
{
    reveal_strlit("GET");
    reveal_strlit("POST");
    reveal_strlit("Host: ");
    reveal_strlit("Host:");
    reveal_strlit("If-None-Match: ");
    reveal_strlit("If-None-Match:");
    reveal_strlit("If-Modified-Since: ");
    reveal_strlit("If-Modified-Since:");
    reveal_strlit("Authorization: ");
    reveal_strlit("Authorization:");
    let h = "Host: "@ + v + seq!['\r'];
    lemma_header_value("Host: "@, v);
    assert(h.take(5) =~= "Host:"@);
    assert(h[0] != "GET"@[0] && h[0] != "POST"@[0] && h[0] != "If-None-Match:"@[0] && h[0]
        != "If-Modified-Since:"@[0]);
    let n = "If-None-Match: "@ + v + seq!['\r'];
    lemma_header_value("If-None-Match: "@, v);
    assert(n.take(14) =~= "If-None-Match:"@);
    assert(n[0] != "GET"@[0] && n[0] != "POST"@[0] && n[3] != "If-Modified-Since:"@[3]);
    let m = "If-Modified-Since: "@ + v + seq!['\r'];
    lemma_header_value("If-Modified-Since: "@, v);
    assert(m.take(18) =~= "If-Modified-Since:"@);
    assert(m[0] != "GET"@[0] && m[0] != "POST"@[0]);
    let a = "Authorization: "@ + v + seq!['\r'];
    lemma_header_value("Authorization: "@, v);
    assert(a.take(14) =~= "Authorization:"@);
    assert(a[0] != "GET"@[0] && a[0] != "POST"@[0] && a[0] != "If-None-Match:"@[0] && a[0]
        != "If-Modified-Since:"@[0] && a[0] != "Host:"@[0]);
}

/// A request line `GET target HTTP/1.1\r` (a target without `'H'`) sets
/// the document to the target.
pub proof fn law_request_line_sets_document(r: RequestView, t: Seq<char>)
    requires
        !t.contains('H'),
    ensures
        apply_line(r, "GET "@ + t + " HTTP/1.1\r"@) == Some(RequestView { document: t, ..r }),
{
    reveal_strlit("GET");
    reveal_strlit("GET ");
    reveal_strlit("HTTP");
    reveal_strlit(" HTTP/1.1\r");
    let line = "GET "@ + t + " HTTP/1.1\r"@;
    assert(line.take(3) =~= "GET"@);
    let j = t.len() as int + 5;
    assert(line.subrange(j, j + 4) =~= "HTTP"@);
    assert(occurs_at(line, "HTTP"@, j));
    assert forall|k: int| 0 <= k < j implies !occurs_at(line, "HTTP"@, k) by {
        if occurs_at(line, "HTTP"@, k) {
            assert(line.subrange(k, k + 4)[0] == 'H');
            assert(line[k] == 'H');
            if 4 <= k < 4 + t.len() {
                assert(line[k] == t[k - 4]);
                assert(t.contains('H'));
            }
        }
    }
    reveal(find);
    let c = choose|c: int| occurs_at(line, "HTTP"@, c) && forall|k: int| 0 <= k < c ==> !occurs_at(line, "HTTP"@, k);
    assert(c == j) by {
        if c < j {
        } else if c > j {
            assert(!occurs_at(line, "HTTP"@, j));
        }
    }
    assert forall|i: int| 0 <= i < 4 implies (#[trigger] line[i] as u32) < 0x80 by {}
    lemma_ascii_prefix_boundary(line, 4);
    assert(line[j - 1] == ' ');
    assert(line.subrange(4, j - 1) =~= t);
}

} // verus!
