use menial_2::config::{CliArgs, config_from_cli, config_from_yaml_text, config_file, host_port_exec, Config};
use menial_2::ports::{get_ports, get_ssl_ports, get_listeners, parse_port};
use menial_2::table::Table;

fn no_args() -> CliArgs {
    CliArgs {
        host: None,
        port: None,
        root: None,
        resources: None,
        file: None,
        key: None,
        cert: None,
        loglevel: None,
        redirect_to: None,
        redirect_permanent: false,
    }
}

#[test]
fn cli_defaults() {
    let c = config_from_cli(&no_args());
    assert_eq!(c.file, "None");
    assert_eq!(c.loglevel, "info");
    assert_eq!(c.host_configs.len(), 1);
    assert_eq!(c.host_configs.key_at(0), "127.0.0.1:8080");
    let h = c.host_configs.get(&String::from("127.0.0.1:8080")).unwrap();
    assert_eq!(h.host, "127.0.0.1");
    assert_eq!(h.port, "8080");
    assert_eq!(h.root, "default/welcomepage");
    assert_eq!(h.resources, "default/pages");
    assert_eq!(h.redirect_to, "");
    assert!(!h.redirect_permanent);
    assert_eq!(h.authfile, "");
    assert_eq!(c.ssl_config.len(), 0);
}

#[test]
fn cli_with_tls() {
    let mut a = no_args();
    a.host = Some(String::from("example.org"));
    a.port = Some(String::from("443"));
    a.key = Some(String::from("k.pem"));
    a.cert = Some(String::from("c.pem"));
    a.loglevel = Some(String::from("debug"));
    a.redirect_to = Some(String::from("https://x/"));
    a.redirect_permanent = true;
    let c = config_from_cli(&a);
    assert_eq!(c.loglevel, "debug");
    let h = c.host_configs.get(&String::from("example.org:443")).unwrap();
    assert_eq!(h.redirect_to, "https://x/");
    assert!(h.redirect_permanent);
    let s = c.ssl_config.get(&String::from("443")).unwrap();
    assert_eq!(s.port, "443");
    assert_eq!(s.key, "k.pem");
    assert_eq!(s.cert, "c.pem");
    assert_eq!(get_ssl_ports(&c), vec![String::from("443")]);
}

#[test]
fn cli_key_without_cert_has_no_tls() {
    let mut a = no_args();
    a.key = Some(String::from("k.pem"));
    let c = config_from_cli(&a);
    assert_eq!(c.ssl_config.len(), 0);
}

#[test]
fn config_file_named() {
    let mut a = no_args();
    assert!(config_file(&a).is_none());
    a.file = Some(String::new());
    assert!(config_file(&a).is_none());
    a.file = Some(String::from("menial.yml"));
    assert_eq!(config_file(&a).unwrap(), "menial.yml");
}

#[test]
fn host_ports() {
    assert_eq!(host_port_exec(&String::from("localhost:8081")), "8081");
    assert_eq!(host_port_exec(&String::from("localhost")), "80");
    assert_eq!(host_port_exec(&String::from("a:b:c")), "80");
    assert_eq!(host_port_exec(&String::from("a:")), "");
}

const YAML: &str = "loglevel: debug
hosts:
  localhost:8080:
    root: www
    resources: pages
  example.org:
    root: site
    redirect_to: https://example.org/
    redirect_permanent: true
  secure.org:443:
    root: secure
    authfile: users.txt
ssl:
  443:
    key: key.pem
    cert: cert.pem
";

fn yaml_config() -> Config {
    config_from_yaml_text(String::from("menial.yml"), YAML).unwrap()
}

#[test]
fn yaml_config_tables() {
    let c = yaml_config();
    assert_eq!(c.file, "menial.yml");
    assert_eq!(c.loglevel, "debug");
    assert_eq!(c.host_configs.len(), 3);
    assert_eq!(c.host_configs.key_at(0), "localhost:8080");
    assert_eq!(c.host_configs.key_at(1), "example.org");
    let a = c.host_configs.get(&String::from("localhost:8080")).unwrap();
    assert_eq!(a.host, "localhost:8080");
    assert_eq!(a.port, "8080");
    assert_eq!(a.root, "www");
    assert_eq!(a.resources, "pages");
    assert!(!a.redirect_permanent);
    let b = c.host_configs.get(&String::from("example.org")).unwrap();
    assert_eq!(b.port, "80");
    assert_eq!(b.resources, "");
    assert_eq!(b.redirect_to, "https://example.org/");
    assert!(b.redirect_permanent);
    let s = c.host_configs.get(&String::from("secure.org:443")).unwrap();
    assert_eq!(s.authfile, "users.txt");
    let t = c.ssl_config.get(&String::from("443")).unwrap();
    assert_eq!(t.key, "key.pem");
    assert_eq!(t.cert, "cert.pem");
}

#[test]
fn yaml_ports_and_listeners() {
    let c = yaml_config();
    assert_eq!(get_ports(&c), vec![String::from("8080"), String::from("80"), String::from("443")]);
    assert_eq!(get_ssl_ports(&c), vec![String::from("443")]);
    assert_eq!(
        get_listeners(&c),
        vec![(String::from("8080"), false), (String::from("80"), false), (String::from("443"), true)]
    );
}

#[test]
fn yaml_defaults_and_refusals() {
    let c = config_from_yaml_text(String::from("f"), "hosts:\n  a:1:\n    root: r\nssl: {}\n").unwrap();
    assert_eq!(c.loglevel, "info");
    assert_eq!(c.ssl_config.len(), 0);
    // No ssl section.
    assert!(config_from_yaml_text(String::from("f"), "hosts:\n  a:1:\n    root: r\n").is_none());
    // A host key that is not a string.
    assert!(config_from_yaml_text(String::from("f"), "hosts:\n  80:\n    root: r\nssl: {}\n").is_none());
    // A TLS entry without a certificate.
    assert!(config_from_yaml_text(String::from("f"), "hosts: {}\nssl:\n  443:\n    key: k\n").is_none());
    // No document, and text that does not scan.
    assert!(config_from_yaml_text(String::from("f"), "").is_none());
    assert!(config_from_yaml_text(String::from("f"), "hosts: [unclosed").is_none());
}

#[test]
fn ports_listed_once() {
    let mut a = no_args();
    a.port = Some(String::from("81"));
    let c = config_from_cli(&a);
    assert_eq!(get_ports(&c), vec![String::from("81")]);
}

#[test]
fn port_numbers() {
    assert_eq!(parse_port(&String::from("8080")), Some(8080));
    assert_eq!(parse_port(&String::from("+80")), Some(80));
    assert_eq!(parse_port(&String::from("007")), Some(7));
    assert_eq!(parse_port(&String::from("")), None);
    assert_eq!(parse_port(&String::from("+")), None);
    assert_eq!(parse_port(&String::from("-1")), None);
    assert_eq!(parse_port(&String::from("8o")), None);
    assert_eq!(parse_port(&String::from("99999999999999999999999")), None);
    assert_eq!(parse_port(&u64::MAX.to_string()), Some(usize::MAX));
}

#[test]
fn table_insert_then_get() {
    let mut t: Table<u32> = Table::new();
    t.insert(String::from("a"), 1);
    t.insert(String::from("b"), 2);
    t.insert(String::from("a"), 3);
    assert_eq!(t.len(), 2);
    assert_eq!(t.get(&String::from("a")), Some(&3));
    assert_eq!(t.get(&String::from("b")), Some(&2));
    assert_eq!(t.get(&String::from("c")), None);
    assert_eq!(t.key_at(0), "a");
    assert_eq!(*t.value_at(1), 2);
}

#[test]
fn port_numeral_round_trip() {
    for n in [0u64, 1, 80, 443, 8080, 65535, usize::MAX as u64] {
        assert_eq!(parse_port(&menial_2::text::u64_to_string(n)), Some(n as usize));
    }
}
