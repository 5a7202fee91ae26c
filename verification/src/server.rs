//! Answering one HTTP request, as a state machine: each step takes what the
//! outside world reported (the request bytes, a password file, whether a
//! document exists, a loaded file) and says what to do next (read a file,
//! check a path, load a file, send a response, or give up the connection).
use vstd::prelude::*;
use vstd::utf8::encode_utf8;
use vstd::string::StrSliceExecFns;
use crate::text::{
    chars_of, string_from_chars, split_on, split_exec, views_of, starts_with, starts_with_exec, find, find_exec,
    decimal, u64_to_string,
};
use crate::request::{parse_request, parse_request_spec};
use crate::table::entries_map;
use crate::text::{lemma_split_at_first_sep, lemma_split_without_sep, lemma_split_nonempty};
use crate::config::{Config, HostConfig, HostConfigView};
use crate::auth::{Credentials, CredentialsView, read_credentials, read_credentials_exec, authfile_accepts, authfile_accepts_exec};
use crate::clock::{spec_http_date, spec_parse_http_date, http_date, parse_http_date};
use crate::codec::{spec_utf8_lossy, utf8_lossy};
use crate::digest::{spec_sha256, lower_hex};
use crate::utils::{
    status_line, get_status_line, base_headers_text, not_modified_text, not_modified_with,
    redirect_text, get_redirect_response, response_headers, get_response_headers, intrusion, intrusion_try_detected,
    short_time, file_data_from, default_page_text, FileData, base_headers_at, default_page_at,
};

verus! {

/// What to do next.
pub enum Action {
    /// Read the password file at this path, and report its text.
    ReadAuthFile(String),
    /// Report whether a document exists at this path.
    CheckDocument(String),
    /// Read the file at this path, and report its bytes and when it was last
    /// modified (Unix time).
    LoadFile(String),
    /// Send this head, then this body, and close.
    Respond(String, Vec<u8>),
    /// Give up the connection without an answer.
    Abort,
}

/// What the outside world reports.
pub enum Event {
    AuthFile(String),
    DocumentExists(bool),
    FileLoaded(Vec<u8>, i64),
}

pub enum ActionView {
    ReadAuthFile(Seq<char>),
    CheckDocument(Seq<char>),
    LoadFile(Seq<char>),
    Respond(Seq<char>, Seq<u8>),
    Abort,
}

pub enum EventView {
    AuthFile(Seq<char>),
    DocumentExists(bool),
    FileLoaded(Seq<u8>, int),
}

impl View for Action {
    type V = ActionView;

    open spec fn view(&self) -> ActionView {
        match self {
            Action::ReadAuthFile(p) => ActionView::ReadAuthFile(p@),
            Action::CheckDocument(p) => ActionView::CheckDocument(p@),
            Action::LoadFile(p) => ActionView::LoadFile(p@),
            Action::Respond(h, b) => ActionView::Respond(h@, b@),
            Action::Abort => ActionView::Abort,
        }
    }
}

impl View for Event {
    type V = EventView;

    open spec fn view(&self) -> EventView {
        match self {
            Event::AuthFile(t) => EventView::AuthFile(t@),
            Event::DocumentExists(b) => EventView::DocumentExists(*b),
            Event::FileLoaded(c, m) => EventView::FileLoaded(c@, *m as int),
        }
    }
}

/// What a request waits for.
enum Stage {
    AwaitAuthFile { user: String, password: String },
    AwaitDocument,
    AwaitFile { status: u16, filename: String },
}

pub enum StageView {
    AwaitAuthFile { user: Seq<char>, password: Seq<char> },
    AwaitDocument,
    AwaitFile { status: u16, filename: Seq<char> },
}

/// A request being answered.
pub struct Exchange {
    host: HostConfig,
    document: String,
    none_match: String,
    modified_since: String,
    is_get: bool,
    intrusion: bool,
    base_headers: String,
    stage: Stage,
}

pub struct ExchangeView {
    pub host: HostConfigView,
    pub document: Seq<char>,
    pub none_match: Seq<char>,
    pub modified_since: Seq<char>,
    pub is_get: bool,
    pub intrusion: bool,
    pub base: Seq<char>,
    pub stage: StageView,
}

impl View for Exchange {
    type V = ExchangeView;

    closed spec fn view(&self) -> ExchangeView {
        ExchangeView {
            host: self.host@,
            document: self.document@,
            none_match: self.none_match@,
            modified_since: self.modified_since@,
            is_get: self.is_get,
            intrusion: self.intrusion,
            base: self.base_headers@,
            stage: match self.stage {
                Stage::AwaitAuthFile { user, password } => StageView::AwaitAuthFile {
                    user: user@,
                    password: password@,
                },
                Stage::AwaitDocument => StageView::AwaitDocument,
                Stage::AwaitFile { status, filename } => StageView::AwaitFile {
                    status,
                    filename: filename@,
                },
            },
        }
    }
}

impl Exchange {
    #[verifier::type_invariant]
    spec fn status_is_known(self) -> bool {
        self.stage matches Stage::AwaitFile { status, .. } ==> (status == 200 || status == 400 || status
            == 404)
    }
}

/// The next state (if the request is still open) and what to do.
pub type Outcome = (Option<ExchangeView>, ActionView);

pub open spec fn outcome_of(r: (Option<Exchange>, Action)) -> Outcome {
    (
        match r.0 {
            Some(x) => Some(x@),
            None => None,
        },
        r.1@,
    )
}

pub open spec fn abort() -> Outcome {
    (None, ActionView::Abort)
}

pub open spec fn done(a: ActionView) -> Outcome {
    (None, a)
}

/// The answer to a request that offers no credentials, or wrong ones.
pub open spec fn unauthorized() -> ActionView {
    ActionView::Respond(
        "HTTP/1.1 401 Unauthorized\n"@,
        encode_utf8("WWW-Authenticate: Basic realm=User Visible Realm\n\n"@),
    )
}

/// The host named in a request, with the default port appended where it
/// names none (no `':'`, or one at its very start).
pub open spec fn normalized_host(host: Seq<char>, default_port: Seq<char>) -> Seq<char> {
    if find(host, ":"@) is None || find(host, ":"@) == Some(0int) {
        host + ":"@ + default_port
    } else {
        host
    }
}

/// The requested document without its query string.
pub open spec fn strip_query(document: Seq<char>) -> Seq<char> {
    let parts = split_on(document, '?');
    if parts.len() > 1 {
        parts[0]
    } else {
        document
    }
}

/// The document served for a request target: without its query, and
/// `/index.html` for `/`.
pub open spec fn served_document(document: Seq<char>) -> Seq<char> {
    let d = strip_query(document);
    if d == "/"@ {
        "/index.html"@
    } else {
        d
    }
}

/// The configuration of the host a request names: the host under that
/// name, else the first configured host.
pub open spec fn chosen_host(hosts: Seq<(Seq<char>, HostConfig)>, host: Seq<char>) -> HostConfig {
    if entries_map(hosts).contains_key(host) {
        entries_map(hosts)[host]
    } else {
        hosts[0].1
    }
}

/// The path of the requested document.
pub open spec fn document_path(x: ExchangeView) -> Seq<char> {
    x.host.root + x.document
}

/// The response for a body with `contents` (from `filename`, last modified
/// at `modified`, cut to `short`, with digest `hash`): `304 Not Modified`
/// where the request's `If-None-Match` is the quoted digest, or its
/// `If-Modified-Since` is a date no earlier than `short`; else the status
/// line, headers and body.
pub open spec fn respond(
    x: ExchangeView,
    status: u16,
    filename: Seq<char>,
    contents: Seq<u8>,
    modified: int,
    short: int,
    hash: Seq<char>,
    now: int,
) -> ActionView {
    let h = response_headers(contents.len(), spec_http_date(modified)->0, hash, filename);
    let not_modified = ActionView::Respond(
        not_modified_text(base_headers_text(spec_http_date(now)->0), h.2, h.1),
        Seq::empty(),
    );
    if x.none_match.len() > 0 && x.none_match == "\""@ + hash + "\""@ {
        not_modified
    } else if x.modified_since.len() > 0 && (spec_parse_http_date(x.modified_since) matches Some(v) && v
        >= short) {
        not_modified
    } else {
        ActionView::Respond(
            status_line(status) + "\n"@ + x.base + "\n"@ + h.0 + "\n"@ + h.1 + "\n"@ + h.2 + "\n"@ + h.3
                + "\r\n\r\n"@,
            contents,
        )
    }
}

/// The step once the status is decided: load the document (200), the
/// configured page for the status, or serve the built-in page dated `now`.
pub open spec fn file_step(x: ExchangeView, status: u16, now: int) -> Outcome {
    if status == 200 {
        let p = document_path(x);
        (Some(ExchangeView { stage: StageView::AwaitFile { status, filename: p }, ..x }), ActionView::LoadFile(p))
    } else if x.host.resources.len() > 0 {
        let f = x.host.resources + "/"@ + decimal(status as nat) + ".html"@;
        (Some(ExchangeView { stage: StageView::AwaitFile { status, filename: f }, ..x }), ActionView::LoadFile(f))
    } else {
        let f = decimal(status as nat) + ".html"@;
        match short_time(now) {
            Some(short) => done(
                respond(x, status, f, encode_utf8(default_page_text(status)), now, short, Seq::empty(), now),
            ),
            None => abort(),
        }
    }
}

/// The step once the request may be served: redirect where the host
/// redirects; `400` where the request looks like an intrusion; else check
/// the document.
pub open spec fn authorized_step(x: ExchangeView, now: int) -> Outcome {
    if x.host.redirect_to.len() > 0 {
        done(
            ActionView::Respond(
                redirect_text(x.host.redirect_permanent, x.host.redirect_to, x.base),
                Seq::empty(),
            ),
        )
    } else if x.intrusion {
        file_step(x, 400, now)
    } else {
        (Some(ExchangeView { stage: StageView::AwaitDocument, ..x }), ActionView::CheckDocument(document_path(x)))
    }
}

/// The first step for a request whose head is `content`, at Unix time
/// `now`, on a listener whose port is `default_port`.
pub open spec fn begin_spec(
    hosts: Seq<(Seq<char>, HostConfig)>,
    content: Seq<char>,
    default_port: Seq<char>,
    now: int,
) -> Outcome {
    match spec_http_date(now) {
        None => abort(),
        Some(date) => match parse_request_spec(content) {
            None => abort(),
            Some(r) => if hosts.len() == 0 {
                abort()
            } else {
                let x = ExchangeView {
                    host: chosen_host(hosts, normalized_host(r.host, default_port))@,
                    document: served_document(r.document),
                    none_match: r.none_match,
                    modified_since: r.modified_since,
                    is_get: starts_with(content, "GET"@),
                    intrusion: intrusion(content),
                    base: base_headers_text(date),
                    stage: StageView::AwaitDocument,
                };
                if x.host.authfile.len() > 0 {
                    match read_credentials(r.auth) {
                        CredentialsView::Missing => done(unauthorized()),
                        CredentialsView::Malformed => abort(),
                        CredentialsView::Given { user, password } => (
                            Some(ExchangeView { stage: StageView::AwaitAuthFile { user, password }, ..x }),
                            ActionView::ReadAuthFile(x.host.authfile),
                        ),
                    }
                } else {
                    authorized_step(x, now)
                }
            },
        },
    }
}

/// The step after an event, at Unix time `now`.
pub open spec fn advance_spec(x: ExchangeView, e: EventView, now: int) -> Outcome {
    match spec_http_date(now) {
        None => abort(),
        Some(_) => match (x.stage, e) {
            (StageView::AwaitAuthFile { user, password }, EventView::AuthFile(text)) => if authfile_accepts(
                text,
                user,
                password,
            ) {
                authorized_step(x, now)
            } else {
                done(unauthorized())
            },
            (StageView::AwaitDocument, EventView::DocumentExists(exists)) => file_step(
                x,
                if exists && x.is_get {
                    200
                } else {
                    404
                },
                now,
            ),
            (StageView::AwaitFile { status, filename }, EventView::FileLoaded(contents, modified)) => match short_time(
                modified,
            ) {
                Some(short) => done(
                    respond(x, status, filename, contents, modified, short, lower_hex(spec_sha256(contents)), now),
                ),
                None => abort(),
            },
            _ => abort(),
        },
    }
}

fn unauthorized_exec() -> (a: Action)
    ensures
        a@ == unauthorized(),
{
    Action::Respond(
        "HTTP/1.1 401 Unauthorized\n".to_owned(),
        "WWW-Authenticate: Basic realm=User Visible Realm\n\n".as_bytes_vec(),
    )
}

fn normalize_host(host: &String, default_port: &str) -> (r: String)
    ensures
        r@ == normalized_host(host@, default_port@),
{
    let chars = chars_of(host.as_str());
    let colon = chars_of(":");
    let at = find_exec(chars.as_slice(), colon.as_slice());
    let append = match at {
        None => true,
        Some(i) => i == 0,
    };
    if append {
        let mut r = host.clone();
        r.append(":");
        r.append(default_port);
        r
    } else {
        host.clone()
    }
}

fn serve_document(document: &String) -> (r: String)
    ensures
        r@ == served_document(document@),
{
    let chars = chars_of(document.as_str());
    let parts = split_exec(chars.as_slice(), '?');
    let d = if parts.len() > 1 {
        assert(views_of(parts@)[0] == parts@[0]@);
        string_from_chars(parts[0].as_slice())
    } else {
        document.clone()
    };
    if d == "/".to_owned() {
        "/index.html".to_owned()
    } else {
        d
    }
}

fn document_path_exec(x: &Exchange) -> (r: String)
    ensures
        r@ == document_path(x@),
{
    let mut p = x.host.root.clone();
    p.append(x.document.as_str());
    p
}

fn respond_exec(x: &Exchange, status: u16, filename: String, data: FileData, now: i64) -> (a: Action)
    requires
        status == 200 || status == 400 || status == 404,
        spec_http_date(data.modified as int) is Some,
        spec_http_date(now as int) is Some,
    ensures
        a@ == respond(
            x@,
            status,
            filename@,
            data.contents@,
            data.modified as int,
            data.modified_short as int,
            data.hash@,
            now as int,
        ),
{
    let (content_length, etag, modified, content_type) = match get_response_headers(
        &data.contents,
        data.modified,
        &data.hash,
        &filename,
    ) {
        Some(h) => h,
        None => {
            assert(false);
            return Action::Abort;
        },
    };
    let mut quoted = "\"".to_owned();
    quoted.append(data.hash.as_str());
    quoted.append("\"");
    let etag_matches = !x.none_match.as_str().is_empty() && x.none_match == quoted;
    let unchanged = !etag_matches && !x.modified_since.as_str().is_empty() && match parse_http_date(
        x.modified_since.as_str(),
    ) {
        Some(v) => v >= data.modified_short,
        None => false,
    };
    if etag_matches || unchanged {
        let base = match base_headers_at(now) {
            Some(b) => b,
            None => {
                assert(false);
                return Action::Abort;
            },
        };
        return Action::Respond(not_modified_with(&base, &modified, &etag), Vec::new());
    }
    let mut headers = get_status_line(status);
    headers.append("\n");
    headers.append(x.base_headers.as_str());
    headers.append("\n");
    headers.append(content_length.as_str());
    headers.append("\n");
    headers.append(etag.as_str());
    headers.append("\n");
    headers.append(modified.as_str());
    headers.append("\n");
    headers.append(content_type.as_str());
    headers.append("\r\n\r\n");
    Action::Respond(headers, data.contents)
}

fn file_step_exec(x: Exchange, status: u16, now: i64) -> (r: (Option<Exchange>, Action))
    requires
        status == 200 || status == 400 || status == 404,
        spec_http_date(now as int) is Some,
    ensures
        outcome_of(r) == file_step(x@, status, now as int),
{
    if status == 200 {
        let p = document_path_exec(&x);
        let x2 = Exchange { stage: Stage::AwaitFile { status, filename: p.clone() }, ..x };
        (Some(x2), Action::LoadFile(p))
    } else if !x.host.resources.as_str().is_empty() {
        let mut f = x.host.resources.clone();
        f.append("/");
        let code = u64_to_string(status as u64);
        f.append(code.as_str());
        f.append(".html");
        let x2 = Exchange { stage: Stage::AwaitFile { status, filename: f.clone() }, ..x };
        (Some(x2), Action::LoadFile(f))
    } else {
        let mut f = u64_to_string(status as u64);
        f.append(".html");
        match default_page_at(status, now) {
            Some(page) => {
                let a = respond_exec(&x, status, f, page, now);
                (None, a)
            },
            None => (None, Action::Abort),
        }
    }
}

fn authorized_step_exec(x: Exchange, now: i64) -> (r: (Option<Exchange>, Action))
    requires
        spec_http_date(now as int) is Some,
    ensures
        outcome_of(r) == authorized_step(x@, now as int),
{
    if !x.host.redirect_to.as_str().is_empty() {
        let (h, b) = get_redirect_response(
            x.host.redirect_permanent,
            x.host.redirect_to.clone(),
            x.base_headers.clone(),
        );
        assert(b@ =~= Seq::<u8>::empty());
        (None, Action::Respond(h, b))
    } else if x.intrusion {
        file_step_exec(x, 400, now)
    } else {
        let p = document_path_exec(&x);
        let x2 = Exchange { stage: Stage::AwaitDocument, ..x };
        (Some(x2), Action::CheckDocument(p))
    }
}

/// The first step of answering a request whose head arrived as `buffer`
/// (read as UTF-8, each invalid sequence replaced), on a listener whose
/// port is `default_port`, at Unix time `now`.
pub fn begin_request(config: &Config, buffer: &[u8], default_port: &str, now: i64) -> (r: (Option<Exchange>, Action))
    ensures
        outcome_of(r) == begin_spec(
            config.host_configs.spec_entries(),
            spec_utf8_lossy(buffer@),
            default_port@,
            now as int,
        ),
{
    let date = match http_date(now) {
        Some(d) => d,
        None => {
            return (None, Action::Abort);
        },
    };
    let content = utf8_lossy(buffer);
    let req = match parse_request(content.as_str()) {
        Some(r) => r,
        None => {
            return (None, Action::Abort);
        },
    };
    if config.host_configs.len() == 0 {
        return (None, Action::Abort);
    }
    let host_name = normalize_host(&req.host, default_port);
    let host = match config.host_configs.get(&host_name) {
        Some(h) => h.clone(),
        None => config.host_configs.value_at(0).clone(),
    };
    let document = serve_document(&req.document);
    let chars = chars_of(content.as_str());
    let is_get = starts_with_exec(chars.as_slice(), chars_of("GET").as_slice());
    let intrusion = intrusion_try_detected(content.clone());
    let mut base = "Server: menial/2\nDate: ".to_owned();
    base.append(date.as_str());
    let x = Exchange {
        host,
        document,
        none_match: req.none_match.clone(),
        modified_since: req.modified_since.clone(),
        is_get,
        intrusion,
        base_headers: base,
        stage: Stage::AwaitDocument,
    };
    if !x.host.authfile.as_str().is_empty() {
        match read_credentials_exec(&req.auth) {
            Credentials::Missing => (None, unauthorized_exec()),
            Credentials::Malformed => (None, Action::Abort),
            Credentials::Given { user, password } => {
                let path = x.host.authfile.clone();
                let x2 = Exchange { stage: Stage::AwaitAuthFile { user, password }, ..x };
                (Some(x2), Action::ReadAuthFile(path))
            },
        }
    } else {
        authorized_step_exec(x, now)
    }
}

/// The next step of answering a request, once the outside world reports
/// `event`, at Unix time `now`.
pub fn advance_request(x: Exchange, event: Event, now: i64) -> (r: (Option<Exchange>, Action))
    ensures
        outcome_of(r) == advance_spec(x@, event@, now as int),
{
    proof {
        use_type_invariant(&x);
    }
    if http_date(now).is_none() {
        return (None, Action::Abort);
    }
    match event {
        Event::AuthFile(text) => {
            match &x.stage {
                Stage::AwaitAuthFile { user, password } => {
                    if authfile_accepts_exec(&text, user, password) {
                        authorized_step_exec(x, now)
                    } else {
                        (None, unauthorized_exec())
                    }
                },
                _ => (None, Action::Abort),
            }
        },
        Event::DocumentExists(exists) => {
            match &x.stage {
                Stage::AwaitDocument => {
                    let status: u16 = if exists && x.is_get {
                        200
                    } else {
                        404
                    };
                    file_step_exec(x, status, now)
                },
                _ => (None, Action::Abort),
            }
        },
        Event::FileLoaded(contents, modified) => {
            match &x.stage {
                Stage::AwaitFile { status, filename } => {
                    let status = *status;
                    let filename = filename.clone();
                    match file_data_from(contents, modified) {
                        Some(data) => (None, respond_exec(&x, status, filename, data, now)),
                        None => (None, Action::Abort),
                    }
                },
                _ => (None, Action::Abort),
            }
        },
    }
}

/// A request that looks like an intrusion, to a host that does not
/// redirect, is answered as a `400 Bad Request`: its document is never
/// looked for.
pub proof fn law_intrusion_is_bad_request(x: ExchangeView, now: int)
    requires
        x.intrusion,
        x.host.redirect_to.len() == 0,
    ensures
        authorized_step(x, now) == file_step(x, 400, now),
        !(authorized_step(x, now).1 is CheckDocument),
{
}

/// A host that redirects answers every authorized request with the
/// redirect, whatever document it asks for.
pub proof fn law_redirect_answers_all(x: ExchangeView, now: int)
    requires
        x.host.redirect_to.len() > 0,
    ensures
        authorized_step(x, now) == done(
            ActionView::Respond(redirect_text(x.host.redirect_permanent, x.host.redirect_to, x.base), Seq::empty()),
        ),
{
}

/// A request to a host with a password file that offers no credentials is
/// answered `401 Unauthorized` at once.
pub proof fn law_no_credentials_unauthorized(
    hosts: Seq<(Seq<char>, HostConfig)>,
    content: Seq<char>,
    default_port: Seq<char>,
    now: int,
)
    requires
        spec_http_date(now) is Some,
        parse_request_spec(content) is Some,
        hosts.len() > 0,
        chosen_host(hosts, normalized_host(parse_request_spec(content)->0.host, default_port))@.authfile.len() > 0,
        read_credentials(parse_request_spec(content)->0.auth) is Missing,
    ensures
        begin_spec(hosts, content, default_port, now) == done(unauthorized()),
{
}

/// Credentials that the password file does not accept are answered
/// `401 Unauthorized`.
pub proof fn law_wrong_credentials_unauthorized(x: ExchangeView, text: Seq<char>, now: int)
    requires
        spec_http_date(now) is Some,
        x.stage matches StageView::AwaitAuthFile { user, password } && !authfile_accepts(text, user, password),
    ensures
        advance_spec(x, EventView::AuthFile(text), now) == done(unauthorized()),
{
}

/// Accepted credentials let the request go on as if no password were
/// asked.
pub proof fn law_right_credentials_proceed(x: ExchangeView, text: Seq<char>, now: int)
    requires
        spec_http_date(now) is Some,
        x.stage matches StageView::AwaitAuthFile { user, password } && authfile_accepts(text, user, password),
    ensures
        advance_spec(x, EventView::AuthFile(text), now) == authorized_step(x, now),
{
}

/// A document is loaded for serving (status 200) exactly when it exists and
/// the request is a `GET`.
pub proof fn law_served_only_if_get_and_exists(x: ExchangeView, exists: bool, now: int)
    requires
        spec_http_date(now) is Some,
        x.stage is AwaitDocument,
    ensures
        (advance_spec(x, EventView::DocumentExists(exists), now).0 matches Some(y) && y.stage matches StageView::AwaitFile {
            status,
            ..
        } && status == 200) <==> (exists && x.is_get),
{
}

/// A body whose entity tag the request already holds (`If-None-Match`) is
/// not sent again: the answer is `304 Not Modified` with an empty body.
pub proof fn law_matching_etag_not_modified(
    x: ExchangeView,
    status: u16,
    filename: Seq<char>,
    contents: Seq<u8>,
    modified: int,
    short: int,
    hash: Seq<char>,
    now: int,
)
    requires
        x.none_match == "\""@ + hash + "\""@,
    ensures
        respond(x, status, filename, contents, modified, short, hash, now) == ActionView::Respond(
            not_modified_text(
                base_headers_text(spec_http_date(now)->0),
                response_headers(contents.len(), spec_http_date(modified)->0, hash, filename).2,
                response_headers(contents.len(), spec_http_date(modified)->0, hash, filename).1,
            ),
            Seq::empty(),
        ),
{
    reveal_strlit("\"");
}

/// A body not modified since the date the request names
/// (`If-Modified-Since`) is not sent again.
pub proof fn law_unmodified_since_not_modified(
    x: ExchangeView,
    status: u16,
    filename: Seq<char>,
    contents: Seq<u8>,
    modified: int,
    short: int,
    hash: Seq<char>,
    now: int,
)
    requires
        x.modified_since.len() > 0,
        spec_parse_http_date(x.modified_since) matches Some(v) && v >= short,
    ensures
        respond(x, status, filename, contents, modified, short, hash, now) matches ActionView::Respond(h, b) && b.len()
            == 0 && h == not_modified_text(
            base_headers_text(spec_http_date(now)->0),
            response_headers(contents.len(), spec_http_date(modified)->0, hash, filename).2,
            response_headers(contents.len(), spec_http_date(modified)->0, hash, filename).1,
        ),
{
}

/// A plain `GET` of an existing file is answered `200 OK` with the file's
/// bytes: the file is loaded from the document path, and the response
/// carries its length, its digest as entity tag, its date and its type.
pub proof fn law_existing_file_is_served(x: ExchangeView, contents: Seq<u8>, modified: int, now: int)
    requires
        spec_http_date(now) is Some,
        x.stage is AwaitDocument,
        x.is_get,
        x.none_match.len() == 0,
        x.modified_since.len() == 0,
        short_time(modified) is Some,
    ensures
        ({
            let step = advance_spec(x, EventView::DocumentExists(true), now);
            &&& step.1 == ActionView::LoadFile(document_path(x))
            &&& step.0 matches Some(y) && advance_spec(y, EventView::FileLoaded(contents, modified), now) == done(
                ActionView::Respond(
                    status_line(200) + "\n"@ + x.base + "\n"@ + response_headers(
                        contents.len(),
                        spec_http_date(modified)->0,
                        lower_hex(spec_sha256(contents)),
                        document_path(x),
                    ).0 + "\n"@ + response_headers(
                        contents.len(),
                        spec_http_date(modified)->0,
                        lower_hex(spec_sha256(contents)),
                        document_path(x),
                    ).1 + "\n"@ + response_headers(
                        contents.len(),
                        spec_http_date(modified)->0,
                        lower_hex(spec_sha256(contents)),
                        document_path(x),
                    ).2 + "\n"@ + response_headers(
                        contents.len(),
                        spec_http_date(modified)->0,
                        lower_hex(spec_sha256(contents)),
                        document_path(x),
                    ).3 + "\r\n\r\n"@,
                    contents,
                ),
            )
        }),
{
}

/// How many more reports a request can wait for in a stage.
pub open spec fn stage_rank(stage: StageView) -> nat {
    match stage {
        StageView::AwaitAuthFile { .. } => 2,
        StageView::AwaitDocument => 1,
        StageView::AwaitFile { .. } => 0,
    }
}

/// Every step moves a request to a later stage or ends it: a request is
/// answered (or given up) after at most three reports.
pub proof fn law_steps_progress(x: ExchangeView, e: EventView, now: int)
    ensures
        advance_spec(x, e, now).0 matches Some(y) ==> stage_rank(y.stage) < stage_rank(x.stage),
{
}

/// The answer for a loaded body: `304 Not Modified` (with an empty body)
/// exactly when the request's `If-None-Match` is the quoted digest of the
/// body, or its `If-Modified-Since` reads as a date no earlier than the
/// body's; otherwise the status line, the headers and the body's bytes.
pub proof fn law_not_modified_only_when_cached(
    x: ExchangeView,
    status: u16,
    filename: Seq<char>,
    contents: Seq<u8>,
    modified: int,
    short: int,
    hash: Seq<char>,
    now: int,
)
    ensures
        ({
            let tag_matches = x.none_match.len() > 0 && x.none_match == "\""@ + hash + "\""@;
            let unmodified = x.modified_since.len() > 0 && (spec_parse_http_date(x.modified_since) matches Some(
                v,
            ) && v >= short);
            let h = response_headers(contents.len(), spec_http_date(modified)->0, hash, filename);
            &&& (tag_matches || unmodified) ==> respond(x, status, filename, contents, modified, short, hash, now)
                == ActionView::Respond(
                not_modified_text(base_headers_text(spec_http_date(now)->0), h.2, h.1),
                Seq::empty(),
            )
            &&& !(tag_matches || unmodified) ==> respond(x, status, filename, contents, modified, short, hash, now)
                == ActionView::Respond(
                status_line(status) + "\n"@ + x.base + "\n"@ + h.0 + "\n"@ + h.1 + "\n"@ + h.2 + "\n"@ + h.3
                    + "\r\n\r\n"@,
                contents,
            )
        }),
{
}

/// A loaded file whose digest differs from the request's `If-None-Match`,
/// for a request without `If-Modified-Since`, is sent: the answer carries
/// the file's bytes, after a head that starts with the status line.
pub proof fn law_stale_tag_gets_the_file(
    x: ExchangeView,
    status: u16,
    filename: Seq<char>,
    contents: Seq<u8>,
    modified: int,
    short: int,
    hash: Seq<char>,
    now: int,
)
    requires
        x.none_match != "\""@ + hash + "\""@,
        x.modified_since.len() == 0,
    ensures
        respond(x, status, filename, contents, modified, short, hash, now) matches ActionView::Respond(h, b) && b
            == contents && h.take(status_line(status).len() as int) == status_line(status),
{
    let h = response_headers(contents.len(), spec_http_date(modified)->0, hash, filename);
    let head = status_line(status) + "\n"@ + x.base + "\n"@ + h.0 + "\n"@ + h.1 + "\n"@ + h.2 + "\n"@ + h.3
        + "\r\n\r\n"@;
    assert(head.take(status_line(status).len() as int) =~= status_line(status));
}

/// A `Host` value that names a port (its first `':'` is past its first
/// character) is looked up as it is; one without a `':'`, or starting with
/// one, gets the listener's port appended.
pub proof fn law_host_with_port_kept(host: Seq<char>, default_port: Seq<char>)
    ensures
        find(host, ":"@) matches Some(i) && i > 0 ==> normalized_host(host, default_port) == host,
        find(host, ":"@) is None ==> normalized_host(host, default_port) == host + ":"@ + default_port,
        find(host, ":"@) == Some(0int) ==> normalized_host(host, default_port) == host + ":"@ + default_port,
{
}

/// A request whose `Host` is a configured host key with a port is served
/// by that host's configuration: where that host asks no password, does
/// not redirect and the request is no intrusion, its document is looked
/// for under that host's root.
pub proof fn law_host_header_selects_host(
    hosts: Seq<(Seq<char>, HostConfig)>,
    content: Seq<char>,
    default_port: Seq<char>,
    now: int,
)
    requires
        spec_http_date(now) is Some,
        parse_request_spec(content) is Some,
        hosts.len() > 0,
        entries_map(hosts).contains_key(parse_request_spec(content)->0.host),
        find(parse_request_spec(content)->0.host, ":"@) matches Some(i) && i > 0,
    ensures
        ({
            let r = parse_request_spec(content)->0;
            let h = entries_map(hosts)[r.host]@;
            &&& chosen_host(hosts, normalized_host(r.host, default_port)) == entries_map(hosts)[r.host]
            &&& (h.authfile.len() == 0 && h.redirect_to.len() == 0 && !intrusion(content)) ==> begin_spec(
                hosts,
                content,
                default_port,
                now,
            ).1 == ActionView::CheckDocument(h.root + served_document(r.document))
        }),
{
}

/// The query string is dropped before the index rule: a target `a?b` (the
/// first `'?'` after `a`) is served as `a`, and as `/index.html` where `a`
/// is `/`; a target without `'?'` is served as itself, `/` as `/index.html`.
pub proof fn law_query_dropped_before_index(a: Seq<char>, b: Seq<char>)
    requires
        !a.contains('?'),
    ensures
        strip_query(a + seq!['?'] + b) == a,
        strip_query(a) == a,
        served_document(a + seq!['?'] + b) == (if a == "/"@ {
            "/index.html"@
        } else {
            a
        }),
        served_document(a) == (if a == "/"@ {
            "/index.html"@
        } else {
            a
        }),
{
    lemma_split_at_first_sep(a, b, '?');
    lemma_split_nonempty(b, '?');
    lemma_split_without_sep(a, '?');
}

} // verus!
