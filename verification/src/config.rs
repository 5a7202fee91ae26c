//! The server's configuration: the hosts it serves and the TLS ports, read
//! either from command-line options or from a YAML file.
use vstd::prelude::*;
use crate::table::{Table, distinct_keys, insert_entry};
use crate::text::{
    split_on, split_exec, chars_of, string_from_chars, views_of, signed_decimal, i64_to_string, lemma_split_without_sep,
    lemma_split_at_first_sep,
};
use crate::yaml::{
    YamlValue, yaml_get, yaml_get_exec, as_str, as_bool, str_or, str_or_exec, spec_load_yaml, load_yaml,
};

verus! {

pub struct HostConfig {
    pub host: String,
    pub port: String,
    pub root: String,
    pub resources: String,
    pub redirect_to: String,
    pub redirect_permanent: bool,
    pub authfile: String,
}

pub struct HostConfigView {
    pub host: Seq<char>,
    pub port: Seq<char>,
    pub root: Seq<char>,
    pub resources: Seq<char>,
    pub redirect_to: Seq<char>,
    pub redirect_permanent: bool,
    pub authfile: Seq<char>,
}

impl View for HostConfig {
    type V = HostConfigView;

    open spec fn view(&self) -> HostConfigView {
        HostConfigView {
            host: self.host@,
            port: self.port@,
            root: self.root@,
            resources: self.resources@,
            redirect_to: self.redirect_to@,
            redirect_permanent: self.redirect_permanent,
            authfile: self.authfile@,
        }
    }
}

impl Clone for HostConfig {
    fn clone(&self) -> (r: Self)
        ensures
            r == *self,
    {
        HostConfig {
            host: self.host.clone(),
            port: self.port.clone(),
            root: self.root.clone(),
            resources: self.resources.clone(),
            redirect_to: self.redirect_to.clone(),
            redirect_permanent: self.redirect_permanent,
            authfile: self.authfile.clone(),
        }
    }
}

pub struct SslConfig {
    pub port: String,
    pub key: String,
    pub cert: String,
}

pub struct SslConfigView {
    pub port: Seq<char>,
    pub key: Seq<char>,
    pub cert: Seq<char>,
}

impl View for SslConfig {
    type V = SslConfigView;

    open spec fn view(&self) -> SslConfigView {
        SslConfigView { port: self.port@, key: self.key@, cert: self.cert@ }
    }
}

pub struct Config {
    pub file: String,
    pub loglevel: String,
    pub ssl_config: Table<SslConfig>,
    pub host_configs: Table<HostConfig>,
}

/// The entries of a table, values by their view.
pub open spec fn viewed<V: View>(entries: Seq<(Seq<char>, V)>) -> Seq<(Seq<char>, V::V)> {
    entries.map_values(|e: (Seq<char>, V)| (e.0, e.1@))
}

pub proof fn lemma_viewed_insert<V: View>(entries: Seq<(Seq<char>, V)>, key: Seq<char>, value: V)
    requires
        distinct_keys(entries),
    ensures
        viewed(insert_entry(entries, key, value)) == insert_entry(viewed(entries), key, value@),
        distinct_keys(viewed(entries)),
{
    let ve = viewed(entries);
    assert(distinct_keys(ve)) by {
        assert forall|a: int, b: int|
            0 <= a < ve.len() && 0 <= b < ve.len() && a != b implies #[trigger] ve[a].0 != #[trigger] ve[b].0 by {
            assert(entries[a].0 != entries[b].0);
        }
    }
    if exists|i: int| 0 <= i < entries.len() && entries[i].0 == key {
        let i = choose|i: int| 0 <= i < entries.len() && entries[i].0 == key;
        assert(0 <= i < ve.len() && ve[i].0 == key);
        let j = choose|j: int| 0 <= j < ve.len() && ve[j].0 == key;
        if i != j {
            assert(ve[i].0 != ve[j].0);
        }
        assert(viewed(entries.update(i, (key, value))) =~= ve.update(j, (key, value@)));
    } else {
        assert(!exists|j: int| 0 <= j < ve.len() && ve[j].0 == key) by {
            if exists|j: int| 0 <= j < ve.len() && ve[j].0 == key {
                let j = choose|j: int| 0 <= j < ve.len() && ve[j].0 == key;
                assert(entries[j].0 == key);
            }
        }
        assert(viewed(entries.push((key, value))) =~= ve.push((key, value@)));
    }
}

/// The port of a host given as `name:port`: the part after the `':'` where
/// the text has exactly one, else `"80"`.
pub open spec fn host_port(combined: Seq<char>) -> Seq<char> {
    let parts = split_on(combined, ':');
    if parts.len() == 2 {
        parts[1]
    } else {
        "80"@
    }
}

pub fn host_port_exec(combined: &String) -> (r: String)
    ensures
        r@ == host_port(combined@),
{
    let chars = chars_of(combined.as_str());
    let parts = split_exec(chars.as_slice(), ':');
    if parts.len() == 2 {
        assert(views_of(parts@)[1] == parts@[1]@);
        string_from_chars(parts[1].as_slice())
    } else {
        "80".to_owned()
    }
}

/// The options of the command line, `None` where an option is not given.
pub struct CliArgs {
    pub host: Option<String>,
    pub port: Option<String>,
    pub root: Option<String>,
    pub resources: Option<String>,
    pub file: Option<String>,
    pub key: Option<String>,
    pub cert: Option<String>,
    pub loglevel: Option<String>,
    pub redirect_to: Option<String>,
    pub redirect_permanent: bool,
}

/// The text of an option, or `default` where it is not given.
pub open spec fn opt_or(o: Option<String>, default: Seq<char>) -> Seq<char> {
    match o {
        Some(s) => s@,
        None => default,
    }
}

fn opt_or_exec(o: &Option<String>, default: &str) -> (r: String)
    ensures
        r@ == opt_or(*o, default@),
{
    match o {
        Some(s) => s.clone(),
        None => default.to_owned(),
    }
}

/// The configuration file named on the command line, where one is named
/// (an empty name names none).
pub fn config_file(args: &CliArgs) -> (r: Option<String>)
    ensures
        match r {
            Some(p) => p@ == opt_or(args.file, Seq::empty()) && p@.len() > 0,
            None => opt_or(args.file, Seq::empty()).len() == 0,
        },
{
    match &args.file {
        Some(f) => {
            if f.as_str().is_empty() {
                None
            } else {
                Some(f.clone())
            }
        },
        None => None,
    }
}

/// The configuration given by command-line options alone: one host,
/// served at `host:port`, and TLS on that port where both a key and a
/// certificate are named.
pub fn config_from_cli(args: &CliArgs) -> (c: Config)
    ensures
        c.file@ == "None"@,
        c.loglevel@ == opt_or(args.loglevel, "info"@),
        viewed(c.host_configs.spec_entries()) == seq![
            (
                opt_or(args.host, "127.0.0.1"@) + ":"@ + opt_or(args.port, "8080"@),
                HostConfigView {
                    host: opt_or(args.host, "127.0.0.1"@),
                    port: opt_or(args.port, "8080"@),
                    root: opt_or(args.root, "default/welcomepage"@),
                    resources: opt_or(args.resources, "default/pages"@),
                    redirect_to: opt_or(args.redirect_to, Seq::empty()),
                    redirect_permanent: args.redirect_permanent,
                    authfile: Seq::empty(),
                },
            ),
        ],
        viewed(c.ssl_config.spec_entries()) == if opt_or(args.key, Seq::empty()).len() > 0 && opt_or(
            args.cert,
            Seq::empty(),
        ).len() > 0 {
            seq![
                (
                    opt_or(args.port, "8080"@),
                    SslConfigView {
                        port: opt_or(args.port, "8080"@),
                        key: opt_or(args.key, Seq::empty()),
                        cert: opt_or(args.cert, Seq::empty()),
                    },
                ),
            ]
        } else {
            Seq::empty()
        },
{
    let host = opt_or_exec(&args.host, "127.0.0.1");
    let port = opt_or_exec(&args.port, "8080");
    let root = opt_or_exec(&args.root, "default/welcomepage");
    let loglevel = opt_or_exec(&args.loglevel, "info");
    let key = opt_or_exec(&args.key, "");
    let cert = opt_or_exec(&args.cert, "");
    let resources = opt_or_exec(&args.resources, "default/pages");
    let mut combined = host.clone();
    combined.append(":");
    combined.append(port.as_str());
    let redirect_to = opt_or_exec(&args.redirect_to, "");
    proof {
        reveal_strlit("");
        assert(""@ =~= Seq::<char>::empty());
    }
    let mut host_configs: Table<HostConfig> = Table::new();
    let hc = HostConfig {
        host: host,
        port: port.clone(),
        root: root,
        resources: resources,
        redirect_to: redirect_to,
        redirect_permanent: args.redirect_permanent,
        authfile: String::new(),
    };
    let ghost hv = hc@;
    let ghost combined_view = combined@;
    host_configs.insert(combined, hc);
    proof {
        lemma_viewed_insert(Seq::<(Seq<char>, HostConfig)>::empty(), combined_view, hc);
        assert(viewed(Seq::<(Seq<char>, HostConfig)>::empty()) =~= Seq::empty());
        assert(insert_entry(Seq::<(Seq<char>, HostConfigView)>::empty(), combined_view, hv) =~= seq![
            (combined_view, hv),
        ]);
    }
    let mut ssl_config: Table<SslConfig> = Table::new();
    if !key.as_str().is_empty() && !cert.as_str().is_empty() {
        let sc = SslConfig { port: port.clone(), key: key, cert: cert };
        let ghost sv = sc@;
        let ghost port_view = port@;
        ssl_config.insert(port, sc);
        proof {
            lemma_viewed_insert(Seq::<(Seq<char>, SslConfig)>::empty(), port_view, sc);
            assert(viewed(Seq::<(Seq<char>, SslConfig)>::empty()) =~= Seq::empty());
            assert(insert_entry(Seq::<(Seq<char>, SslConfigView)>::empty(), port_view, sv) =~= seq![
                (port_view, sv),
            ]);
        }
    } else {
        assert(viewed(ssl_config.spec_entries()) =~= Seq::empty());
    }
    Config { file: "None".to_owned(), loglevel: loglevel, ssl_config: ssl_config, host_configs: host_configs }
}

/// The text of a string node (empty for any other node).
pub open spec fn key_text(y: YamlValue) -> Seq<char> {
    match y {
        YamlValue::String(s) => s@,
        _ => Seq::empty(),
    }
}

/// The number of an integer node (0 for any other node).
pub open spec fn key_int(y: YamlValue) -> int {
    match y {
        YamlValue::Integer(i) => i as int,
        _ => 0,
    }
}

/// The entries of a hash node (none for any other node).
pub open spec fn hash_entries(node: Option<YamlValue>) -> Seq<(YamlValue, YamlValue)> {
    match node {
        Some(YamlValue::Hash(entries)) => entries@,
        _ => Seq::empty(),
    }
}

/// The host configured by an entry `name: {root: .., ..}` of `hosts`.
pub open spec fn host_entry(key: YamlValue, value: YamlValue) -> (Seq<char>, HostConfigView) {
    let h = key_text(key);
    (
        h,
        HostConfigView {
            host: h,
            port: host_port(h),
            root: str_or(yaml_get(value, "root"@), Seq::empty()),
            resources: str_or(yaml_get(value, "resources"@), Seq::empty()),
            redirect_to: str_or(yaml_get(value, "redirect_to"@), Seq::empty()),
            redirect_permanent: match as_bool(yaml_get(value, "redirect_permanent"@)) {
                Some(b) => b,
                None => false,
            },
            authfile: str_or(yaml_get(value, "authfile"@), Seq::empty()),
        },
    )
}

/// The TLS port configured by an entry `port: {key: .., cert: ..}` of `ssl`.
pub open spec fn ssl_entry(key: YamlValue, value: YamlValue) -> (Seq<char>, SslConfigView) {
    let p = signed_decimal(key_int(key));
    (
        p,
        SslConfigView {
            port: p,
            key: str_or(yaml_get(value, "key"@), Seq::empty()),
            cert: str_or(yaml_get(value, "cert"@), Seq::empty()),
        },
    )
}

/// The host table after the first `n` entries of `hosts`.
pub open spec fn host_entries(hs: Seq<(YamlValue, YamlValue)>, n: nat) -> Seq<(Seq<char>, HostConfigView)>
    decreases n,
{
    if n == 0 {
        Seq::empty()
    } else {
        let e = host_entry(hs[n - 1].0, hs[n - 1].1);
        insert_entry(host_entries(hs, (n - 1) as nat), e.0, e.1)
    }
}

/// The TLS table after the first `n` entries of `ssl`.
pub open spec fn ssl_entries(ss: Seq<(YamlValue, YamlValue)>, n: nat) -> Seq<(Seq<char>, SslConfigView)>
    decreases n,
{
    if n == 0 {
        Seq::empty()
    } else {
        let e = ssl_entry(ss[n - 1].0, ss[n - 1].1);
        insert_entry(ssl_entries(ss, (n - 1) as nat), e.0, e.1)
    }
}

/// A configuration document is usable: `hosts` is a hash keyed by strings,
/// and `ssl` a hash keyed by integers whose every entry names a `key` and a
/// `cert` as strings.
pub open spec fn document_valid(doc: YamlValue) -> bool {
    &&& yaml_get(doc, "hosts"@) matches Some(YamlValue::Hash(hs)) && forall|i: int|
        0 <= i < hs@.len() ==> (#[trigger] hs@[i]).0 is String
    &&& yaml_get(doc, "ssl"@) matches Some(YamlValue::Hash(ss)) && forall|i: int|
        0 <= i < ss@.len() ==> {
            &&& (#[trigger] ss@[i]).0 is Integer
            &&& as_str(yaml_get(ss@[i].1, "key"@)) is Some
            &&& as_str(yaml_get(ss@[i].1, "cert"@)) is Some
        }
}

fn host_of_entry(key: &YamlValue, value: &YamlValue) -> (r: (String, HostConfig))
    requires
        key is String,
    ensures
        (r.0@, r.1@) == host_entry(*key, *value),
{
    let h = match key {
        YamlValue::String(s) => s.clone(),
        _ => {
            assert(false);
            String::new()
        },
    };
    proof {
        reveal_strlit("");
        assert(""@ =~= Seq::<char>::empty());
    }
    let root = str_or_exec(yaml_get_exec(value, &"root".to_owned()), "");
    let resources = str_or_exec(yaml_get_exec(value, &"resources".to_owned()), "");
    let redirect_to = str_or_exec(yaml_get_exec(value, &"redirect_to".to_owned()), "");
    let authfile = str_or_exec(yaml_get_exec(value, &"authfile".to_owned()), "");
    let redirect_permanent = match yaml_get_exec(value, &"redirect_permanent".to_owned()) {
        Some(YamlValue::Boolean(b)) => *b,
        _ => false,
    };
    let port = host_port_exec(&h);
    (
        h.clone(),
        HostConfig {
            host: h,
            port: port,
            root: root,
            resources: resources,
            redirect_to: redirect_to,
            redirect_permanent: redirect_permanent,
            authfile: authfile,
        },
    )
}

fn ssl_of_entry(key: &YamlValue, value: &YamlValue) -> (r: (String, SslConfig))
    requires
        key is Integer,
    ensures
        (r.0@, r.1@) == ssl_entry(*key, *value),
{
    let p = match key {
        YamlValue::Integer(i) => i64_to_string(*i),
        _ => {
            assert(false);
            String::new()
        },
    };
    proof {
        reveal_strlit("");
        assert(""@ =~= Seq::<char>::empty());
    }
    let k = str_or_exec(yaml_get_exec(value, &"key".to_owned()), "");
    let c = str_or_exec(yaml_get_exec(value, &"cert".to_owned()), "");
    (p.clone(), SslConfig { port: p, key: k, cert: c })
}

/// Checks [`document_valid`].
pub fn document_valid_exec(doc: &YamlValue) -> (r: bool)
    ensures
        r == document_valid(*doc),
{
    let hosts_ok = match yaml_get_exec(doc, &"hosts".to_owned()) {
        Some(YamlValue::Hash(hs)) => {
            let mut ok = true;
            let mut i: usize = 0;
            while i < hs.len()
                invariant
                    0 <= i <= hs@.len(),
                    ok == forall|j: int| 0 <= j < i ==> (#[trigger] hs@[j]).0 is String,
                decreases hs.len() - i,
            {
                let this_ok = match &hs[i].0 {
                    YamlValue::String(_) => true,
                    _ => false,
                };
                proof {
                    if !this_ok {
                        assert(!((hs@[i as int]).0 is String));
                    }
                }
                ok = ok && this_ok;
                i = i + 1;
            }
            ok
        },
        _ => false,
    };
    let ssl_ok = match yaml_get_exec(doc, &"ssl".to_owned()) {
        Some(YamlValue::Hash(ss)) => {
            let key = "key".to_owned();
            let cert = "cert".to_owned();
            let mut ok = true;
            let mut i: usize = 0;
            while i < ss.len()
                invariant
                    0 <= i <= ss@.len(),
                    key@ == "key"@,
                    cert@ == "cert"@,
                    ok == forall|j: int|
                        0 <= j < i ==> {
                            &&& (#[trigger] ss@[j]).0 is Integer
                            &&& as_str(yaml_get(ss@[j].1, "key"@)) is Some
                            &&& as_str(yaml_get(ss@[j].1, "cert"@)) is Some
                        },
                decreases ss.len() - i,
            {
                let int_key = match &ss[i].0 {
                    YamlValue::Integer(_) => true,
                    _ => false,
                };
                let has_key = match yaml_get_exec(&ss[i].1, &key) {
                    Some(YamlValue::String(_)) => true,
                    _ => false,
                };
                let has_cert = match yaml_get_exec(&ss[i].1, &cert) {
                    Some(YamlValue::String(_)) => true,
                    _ => false,
                };
                let this_ok = int_key && has_key && has_cert;
                proof {
                    let e = ss@[i as int];
                    assert(this_ok == (e.0 is Integer && as_str(yaml_get(e.1, "key"@)) is Some && as_str(
                        yaml_get(e.1, "cert"@),
                    ) is Some));
                }
                ok = ok && this_ok;
                i = i + 1;
            }
            ok
        },
        _ => false,
    };
    hosts_ok && ssl_ok
}

/// The configuration a usable YAML document gives, read from the file at
/// `path`: each entry of `hosts` and of `ssl`, in document order, inserted
/// into its table; the log level defaults to `"info"`.
pub fn config_from_document(path: String, doc: &YamlValue) -> (c: Config)
    requires
        document_valid(*doc),
    ensures
        c.file@ == path@,
        c.loglevel@ == str_or(yaml_get(*doc, "loglevel"@), "info"@),
        viewed(c.host_configs.spec_entries()) == host_entries(
            hash_entries(yaml_get(*doc, "hosts"@)),
            hash_entries(yaml_get(*doc, "hosts"@)).len(),
        ),
        viewed(c.ssl_config.spec_entries()) == ssl_entries(
            hash_entries(yaml_get(*doc, "ssl"@)),
            hash_entries(yaml_get(*doc, "ssl"@)).len(),
        ),
{
    let mut host_configs: Table<HostConfig> = Table::new();
    let mut ssl_config: Table<SslConfig> = Table::new();
    assert(viewed(host_configs.spec_entries()) =~= Seq::empty());
    assert(viewed(ssl_config.spec_entries()) =~= Seq::empty());
    match yaml_get_exec(doc, &"hosts".to_owned()) {
        Some(YamlValue::Hash(hs)) => {
            let mut i: usize = 0;
            while i < hs.len()
                invariant
                    0 <= i <= hs@.len(),
                    forall|j: int| 0 <= j < hs@.len() ==> (#[trigger] hs@[j]).0 is String,
                    viewed(host_configs.spec_entries()) == host_entries(hs@, i as nat),
                decreases hs.len() - i,
            {
                let (k, v) = host_of_entry(&hs[i].0, &hs[i].1);
                host_configs.note_distinct_keys();
                let ghost before = host_configs.spec_entries();
                let ghost kv = k@;
                proof {
                    lemma_viewed_insert(before, kv, v);
                }
                host_configs.insert(k, v);
                i = i + 1;
            }
        },
        _ => {
            assert(false);
        },
    }
    match yaml_get_exec(doc, &"ssl".to_owned()) {
        Some(YamlValue::Hash(ss)) => {
            let mut i: usize = 0;
            while i < ss.len()
                invariant
                    0 <= i <= ss@.len(),
                    forall|j: int| 0 <= j < ss@.len() ==> (#[trigger] ss@[j]).0 is Integer,
                    viewed(ssl_config.spec_entries()) == ssl_entries(ss@, i as nat),
                decreases ss.len() - i,
            {
                let (k, v) = ssl_of_entry(&ss[i].0, &ss[i].1);
                ssl_config.note_distinct_keys();
                let ghost before = ssl_config.spec_entries();
                let ghost kv = k@;
                proof {
                    lemma_viewed_insert(before, kv, v);
                }
                ssl_config.insert(k, v);
                i = i + 1;
            }
        },
        _ => {
            assert(false);
        },
    }
    let loglevel = str_or_exec(yaml_get_exec(doc, &"loglevel".to_owned()), "info");
    Config { file: path, loglevel: loglevel, ssl_config: ssl_config, host_configs: host_configs }
}

/// The configuration a YAML file at `path` with text `text` gives: from its
/// first document. `None` where the text does not scan as YAML, has no
/// document, or its first document is not usable (where the server cannot
/// start).
pub fn config_from_yaml_text(path: String, text: &str) -> (r: Option<Config>)
    ensures
        match spec_load_yaml(text@) {
            Some(docs) => if docs.len() > 0 && document_valid(docs[0]) {
                r matches Some(c) && c.file@ == path@ && c.loglevel@ == str_or(
                    yaml_get(docs[0], "loglevel"@),
                    "info"@,
                ) && viewed(c.host_configs.spec_entries()) == host_entries(
                    hash_entries(yaml_get(docs[0], "hosts"@)),
                    hash_entries(yaml_get(docs[0], "hosts"@)).len(),
                ) && viewed(c.ssl_config.spec_entries()) == ssl_entries(
                    hash_entries(yaml_get(docs[0], "ssl"@)),
                    hash_entries(yaml_get(docs[0], "ssl"@)).len(),
                )
            } else {
                r is None
            },
            None => r is None,
        },
{
    match load_yaml(text) {
        Some(docs) => {
            if docs.len() > 0 && document_valid_exec(&docs[0]) {
                Some(config_from_document(path, &docs[0]))
            } else {
                None
            }
        },
        None => None,
    }
}

/// A host configured as `name:port` is served on `port`; one configured
/// without a port, on port 80.
pub proof fn law_host_port(name: Seq<char>, port: Seq<char>)
    requires
        !name.contains(':'),
        !port.contains(':'),
    ensures
        host_port(name + seq![':'] + port) == port,
        host_port(name) == "80"@,
{
    lemma_split_at_first_sep(name, port, ':');
    lemma_split_without_sep(port, ':');
    lemma_split_without_sep(name, ':');
}

/// A host entry takes its redirect's permanence from the entry's
/// `redirect_permanent` node where that is a boolean, else it is not
/// permanent; its text settings are the entry's string nodes, else empty.
pub proof fn law_host_entry_settings(key: YamlValue, value: YamlValue)
    ensures
        as_bool(yaml_get(value, "redirect_permanent"@)) matches Some(b) ==> host_entry(
            key,
            value,
        ).1.redirect_permanent == b,
        as_bool(yaml_get(value, "redirect_permanent"@)) is None ==> !host_entry(key, value).1.redirect_permanent,
        as_str(yaml_get(value, "root"@)) matches Some(r) ==> host_entry(key, value).1.root == r,
        as_str(yaml_get(value, "root"@)) is None ==> host_entry(key, value).1.root.len() == 0,
        as_str(yaml_get(value, "resources"@)) matches Some(r) ==> host_entry(key, value).1.resources == r,
        as_str(yaml_get(value, "resources"@)) is None ==> host_entry(key, value).1.resources.len() == 0,
        as_str(yaml_get(value, "redirect_to"@)) matches Some(r) ==> host_entry(key, value).1.redirect_to == r,
        as_str(yaml_get(value, "redirect_to"@)) is None ==> host_entry(key, value).1.redirect_to.len() == 0,
        as_str(yaml_get(value, "authfile"@)) matches Some(r) ==> host_entry(key, value).1.authfile == r,
        as_str(yaml_get(value, "authfile"@)) is None ==> host_entry(key, value).1.authfile.len() == 0,
        key matches YamlValue::String(k) ==> host_entry(key, value).0 == k@ && host_entry(key, value).1.host == k@,
{
}

} // verus!
