//! The ports the server listens on, and reading a port number.
use vstd::prelude::*;
use crate::text::{chars_of, decimal, decimal_digit};
use crate::config::{Config, HostConfigView, SslConfigView, viewed};

verus! {

/// The texts of a sequence of strings.
pub open spec fn string_views(v: Seq<String>) -> Seq<Seq<char>> {
    v.map_values(|s: String| s@)
}

/// The sequence with each repeated element after its first occurrence left
/// out.
pub open spec fn dedup(s: Seq<Seq<char>>) -> Seq<Seq<char>>
    decreases s.len(),
{
    if s.len() == 0 {
        Seq::empty()
    } else {
        let d = dedup(s.drop_last());
        if d.contains(s.last()) {
            d
        } else {
            d.push(s.last())
        }
    }
}

/// The ports of the configured hosts, in table order.
pub open spec fn host_ports(entries: Seq<(Seq<char>, HostConfigView)>) -> Seq<Seq<char>> {
    entries.map_values(|e: (Seq<char>, HostConfigView)| e.1.port)
}

/// The TLS ports, in table order.
pub open spec fn ssl_ports(entries: Seq<(Seq<char>, SslConfigView)>) -> Seq<Seq<char>> {
    entries.map_values(|e: (Seq<char>, SslConfigView)| e.0)
}

fn contains_string(v: &Vec<String>, s: &String) -> (r: bool)
    ensures
        r == string_views(v@).contains(s@),
{
    let mut i: usize = 0;
    while i < v.len()
        invariant
            0 <= i <= v@.len(),
            forall|k: int| 0 <= k < i ==> v@[k]@ != s@,
        decreases v.len() - i,
    {
        if v[i] == *s {
            assert(string_views(v@)[i as int] == s@);
            return true;
        }
        i = i + 1;
    }
    proof {
        if string_views(v@).contains(s@) {
            let k = choose|k: int| 0 <= k < string_views(v@).len() && string_views(v@)[k] == s@;
            assert(v@[k]@ == s@);
        }
    }
    false
}

/// The ports the configured hosts are served on, each once, in the order
/// of their first host.
pub fn get_ports(config: &Config) -> (r: Vec<String>)
    ensures
        string_views(r@) == dedup(host_ports(viewed(config.host_configs.spec_entries()))),
{
    let ghost all = host_ports(viewed(config.host_configs.spec_entries()));
    let mut ports: Vec<String> = Vec::new();
    let mut i: usize = 0;
    assert(all.take(0) =~= Seq::<Seq<char>>::empty());
    assert(string_views(ports@) =~= Seq::<Seq<char>>::empty());
    while i < config.host_configs.len()
        invariant
            0 <= i <= all.len(),
            all == host_ports(viewed(config.host_configs.spec_entries())),
            string_views(ports@) == dedup(all.take(i as int)),
        decreases all.len() - i,
    {
        let port = &config.host_configs.value_at(i).port;
        assert(all.take(i + 1).drop_last() =~= all.take(i as int));
        assert(all.take(i + 1).last() == port@);
        if !contains_string(&ports, port) {
            let ghost before = ports@;
            ports.push(port.clone());
            assert(string_views(ports@) =~= string_views(before).push(port@));
        }
        i = i + 1;
    }
    assert(all.take(i as int) =~= all);
    ports
}

/// The TLS ports, in table order.
pub fn get_ssl_ports(config: &Config) -> (r: Vec<String>)
    ensures
        string_views(r@) == ssl_ports(viewed(config.ssl_config.spec_entries())),
{
    let ghost all = ssl_ports(viewed(config.ssl_config.spec_entries()));
    let mut ports: Vec<String> = Vec::new();
    let mut i: usize = 0;
    while i < config.ssl_config.len()
        invariant
            0 <= i <= all.len(),
            all == ssl_ports(viewed(config.ssl_config.spec_entries())),
            string_views(ports@) == all.take(i as int),
        decreases all.len() - i,
    {
        let ghost before = ports@;
        assert(all[i as int] == config.ssl_config.spec_entries()[i as int].0);
        let k = config.ssl_config.key_at(i).clone();
        ports.push(k);
        assert(string_views(ports@) =~= string_views(before).push(k@));
        assert(all.take(i + 1) =~= all.take(i as int).push(all[i as int]));
        i = i + 1;
    }
    assert(all.take(i as int) =~= all);
    ports
}

/// What to listen on: each port of [`get_ports`], and whether it is a TLS
/// port.
pub open spec fn listener_plan(
    config_hosts: Seq<(Seq<char>, HostConfigView)>,
    config_ssl: Seq<(Seq<char>, SslConfigView)>,
) -> Seq<(Seq<char>, bool)> {
    dedup(host_ports(config_hosts)).map_values(|p: Seq<char>| (p, ssl_ports(config_ssl).contains(p)))
}

/// Each port to listen on, and whether it serves TLS.
pub fn get_listeners(config: &Config) -> (r: Vec<(String, bool)>)
    ensures
        r@.map_values(|l: (String, bool)| (l.0@, l.1)) == listener_plan(
            viewed(config.host_configs.spec_entries()),
            viewed(config.ssl_config.spec_entries()),
        ),
{
    let ports = get_ports(config);
    let ssl = get_ssl_ports(config);
    let ghost plan = listener_plan(
        viewed(config.host_configs.spec_entries()),
        viewed(config.ssl_config.spec_entries()),
    );
    let mut r: Vec<(String, bool)> = Vec::new();
    let mut i: usize = 0;
    while i < ports.len()
        invariant
            0 <= i <= ports@.len(),
            string_views(ports@) == dedup(host_ports(viewed(config.host_configs.spec_entries()))),
            string_views(ssl@) == ssl_ports(viewed(config.ssl_config.spec_entries())),
            plan == listener_plan(
                viewed(config.host_configs.spec_entries()),
                viewed(config.ssl_config.spec_entries()),
            ),
            r@.map_values(|l: (String, bool)| (l.0@, l.1)) == plan.take(i as int),
        decreases ports.len() - i,
    {
        let is_ssl = contains_string(&ssl, &ports[i]);
        assert(plan[i as int] == (string_views(ports@)[i as int], string_views(ssl@).contains(
            string_views(ports@)[i as int],
        )));
        let ghost before = r@;
        let p = ports[i].clone();
        assert(string_views(ports@)[i as int] == p@);
        r.push((p, is_ssl));
        assert(r@.map_values(|l: (String, bool)| (l.0@, l.1)) =~= before.map_values(
            |l: (String, bool)| (l.0@, l.1),
        ).push((p@, is_ssl)));
        assert(plan.take(i + 1) =~= plan.take(i as int).push(plan[i as int]));
        i = i + 1;
    }
    assert(plan.take(i as int) =~= plan);
    r
}

/// The value of a numeral of decimal digits.
pub open spec fn digits_value(d: Seq<char>) -> nat
    decreases d.len(),
{
    if d.len() == 0 {
        0
    } else {
        digits_value(d.drop_last()) * 10 + ((d.last() as u32) - 48) as nat
    }
}

pub open spec fn all_digits(d: Seq<char>) -> bool {
    forall|i: int| 0 <= i < d.len() ==> '0' <= #[trigger] d[i] <= '9'
}

/// `s.parse::<usize>()`: an optional `'+'`, then one or more decimal
/// digits, whose value fits in a `usize`.
pub open spec fn parse_usize(s: Seq<char>) -> Option<nat> {
    let d = if s.len() > 0 && s[0] == '+' {
        s.drop_first()
    } else {
        s
    };
    if d.len() > 0 && all_digits(d) && digits_value(d) <= usize::MAX {
        Some(digits_value(d))
    } else {
        None
    }
}

proof fn lemma_digits_grow(d: Seq<char>, i: int)
    requires
        0 <= i <= d.len(),
        all_digits(d),
    ensures
        digits_value(d.take(i)) <= digits_value(d),
    decreases d.len() - i,
{
    if i < d.len() {
        lemma_digits_grow(d, i + 1);
        assert(d.take(i + 1).drop_last() =~= d.take(i));
    } else {
        assert(d.take(i) =~= d);
    }
}

/// Reads a port number as `str::parse::<usize>` does.
pub fn parse_port(s: &String) -> (r: Option<usize>)
    ensures
        match parse_usize(s@) {
            Some(v) => r == Some(v as usize),
            None => r is None,
        },
{
    let chars = chars_of(s.as_str());
    let start: usize = if chars.len() > 0 && chars[0] == '+' {
        1
    } else {
        0
    };
    let ghost d = chars@.skip(start as int);
    assert(d =~= (if s@.len() > 0 && s@[0] == '+' {
        s@.drop_first()
    } else {
        s@
    }));
    if chars.len() == start {
        return None;
    }
    let mut v: usize = 0;
    let mut i: usize = start;
    while i < chars.len()
        invariant
            start <= i <= chars@.len(),
            d == chars@.skip(start as int),
            chars@ == s@,
            d == (if s@.len() > 0 && s@[0] == '+' {
                s@.drop_first()
            } else {
                s@
            }),
            all_digits(d.take(i - start)),
            v == digits_value(d.take(i - start)),
        decreases chars.len() - i,
    {
        let c = chars[i];
        assert(d.take(i + 1 - start).drop_last() =~= d.take(i - start));
        assert(d.take(i + 1 - start).last() == c);
        if c < '0' || c > '9' {
            assert(!all_digits(d)) by {
                assert(d[i - start] == c);
            }
            return None;
        }
        let digit = (c as u32 - 48) as usize;
        if v > (usize::MAX - digit) / 10 {
            proof {
                assert(all_digits(d.take(i + 1 - start)));
                assert(digits_value(d.take(i + 1 - start)) > usize::MAX) by (nonlinear_arith)
                    requires
                        digits_value(d.take(i + 1 - start)) == v * 10 + digit,
                        v > (usize::MAX - digit) / 10,
                        digit <= 9,
                ;
                if all_digits(d) {
                    lemma_digits_grow(d, i + 1 - start);
                }
            }
            return None;
        }
        v = v * 10 + digit;
        i = i + 1;
    }
    assert(d.take(i - start) =~= d);
    Some(v)
}

/// Listing the ports names each port of the hosts once, and no other: what
/// a set of the hosts' ports holds.
pub proof fn law_ports_once_each(s: Seq<Seq<char>>)
    ensures
        dedup(s).no_duplicates(),
        forall|p: Seq<char>| #[trigger] dedup(s).contains(p) <==> s.contains(p),
    decreases s.len(),
{
    if s.len() > 0 {
        let init = s.drop_last();
        law_ports_once_each(init);
        assert forall|p: Seq<char>| #[trigger] dedup(s).contains(p) <==> s.contains(p) by {
            if s.contains(p) && p != s.last() {
                let i = choose|i: int| 0 <= i < s.len() && s[i] == p;
                assert(init.contains(p)) by {
                    assert(init[i] == p);
                }
            }
            if init.contains(p) {
                let i = choose|i: int| 0 <= i < init.len() && init[i] == p;
                assert(s[i] == p);
            }
            if p == s.last() {
                assert(s[s.len() - 1] == p);
            }
            let d = dedup(init);
            if !d.contains(s.last()) {
                assert(d.push(s.last()).contains(p) <==> (d.contains(p) || p == s.last())) by {
                    if d.push(s.last()).contains(p) {
                        let i = choose|i: int| 0 <= i < d.len() + 1 && d.push(s.last())[i] == p;
                        if i < d.len() {
                            assert(d[i] == p);
                        }
                    }
                    if d.contains(p) {
                        let i = choose|i: int| 0 <= i < d.len() && d[i] == p;
                        assert(d.push(s.last())[i] == p);
                    }
                    if p == s.last() {
                        assert(d.push(s.last())[d.len() as int] == p);
                    }
                }
            }
        }
    }
}

/// Reading the numeral of a port gives the port back.
pub proof fn law_port_numeral_round_trip(n: nat)
    requires
        n <= usize::MAX,
    ensures
        parse_usize(decimal(n)) == Some(n),
{
    lemma_decimal_digits(n);
}

proof fn lemma_decimal_digits(n: nat)
    ensures
        decimal(n).len() > 0,
        all_digits(decimal(n)),
        digits_value(decimal(n)) == n,
    decreases n,
{
    assert((decimal_digit(n % 10) as u32) == n % 10 + 48);
    if n >= 10 {
        lemma_decimal_digits(n / 10);
        let d = decimal(n);
        assert(d.drop_last() =~= decimal(n / 10));
        assert(d.last() == decimal_digit(n % 10));
        assert((n / 10) * 10 + n % 10 == n);
        assert(digits_value(d) == digits_value(d.drop_last()) * 10 + ((d.last() as u32) - 48) as nat);
    } else {
        let d = decimal(n);
        assert(d.drop_last() =~= Seq::<char>::empty());
        assert(digits_value(d.drop_last()) == 0);
        assert(digits_value(d) == digits_value(d.drop_last()) * 10 + ((d.last() as u32) - 48) as nat);
        assert forall|i: int| 0 <= i < d.len() implies '0' <= #[trigger] d[i] <= '9' by {
            if i < d.len() - 1 {
                assert(d[i] == decimal(n / 10)[i]);
            }
        }
    }
}

} // verus!
