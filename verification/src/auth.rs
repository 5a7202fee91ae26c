//! HTTP basic authentication against a password file whose lines read
//! `user:base64(password)`.
use vstd::prelude::*;
use vstd::utf8::{valid_utf8, decode_utf8};
use crate::text::{
    byte_len, utf8_width_exec, lemma_take_succ, lemma_byte_len_take_strict, char_index_of_byte,
    char_index_of_byte_exec, chars_of, string_from_chars, split_on, split_exec, views_of, lemma_split_without_sep,
    lemma_split_at_first_sep,
};
use crate::codec::{spec_base64_decode, spec_base64_encode, base64_decode, base64_encode, utf8_decode};

verus! {

/// What an `Authorization` header value offers.
pub enum Credentials {
    /// The value is at most 5 bytes long: no credentials are offered.
    Missing,
    /// The value cannot be read as `Basic base64(user:password)`; the
    /// connection is given up.
    Malformed,
    /// A user name, and the Base64 encoding of the password given.
    Given { user: String, password: String },
}

pub enum CredentialsView {
    Missing,
    Malformed,
    Given { user: Seq<char>, password: Seq<char> },
}

impl View for Credentials {
    type V = CredentialsView;

    open spec fn view(&self) -> CredentialsView {
        match self {
            Credentials::Missing => CredentialsView::Missing,
            Credentials::Malformed => CredentialsView::Malformed,
            Credentials::Given { user, password } => CredentialsView::Given {
                user: user@,
                password: password@,
            },
        }
    }
}

/// Reads an `Authorization` header value: where it is longer than 5 bytes,
/// the text after its first 6 bytes is Base64 that decodes to UTF-8 text
/// `user:password[:..]`; the password is taken as its Base64 encoding.
pub open spec fn read_credentials(auth: Seq<char>) -> CredentialsView {
    if byte_len(auth) <= 5 {
        CredentialsView::Missing
    } else {
        match char_index_of_byte(auth, 6) {
            None => CredentialsView::Malformed,
            Some(i) => match spec_base64_decode(auth.skip(i)) {
                None => CredentialsView::Malformed,
                Some(bytes) => if !valid_utf8(bytes) {
                    CredentialsView::Malformed
                } else {
                    let parts = split_on(decode_utf8(bytes), ':');
                    if parts.len() < 2 {
                        CredentialsView::Malformed
                    } else {
                        CredentialsView::Given { user: parts[0], password: spec_base64_encode(parts[1]) }
                    }
                },
            },
        }
    }
}

proof fn lemma_byte_len_at_least_prefix(s: Seq<char>, i: int)
    requires
        0 <= i <= s.len(),
    ensures
        byte_len(s.take(i)) <= byte_len(s),
{
    assert(s.take(s.len() as int) =~= s);
    if i < s.len() {
        lemma_byte_len_take_strict(s, i, s.len() as int);
    }
}

/// Whether the UTF-8 encoding of `s` is longer than `n` bytes.
pub fn byte_len_exceeds(s: &Vec<char>, n: usize) -> (r: bool)
    requires
        n <= 0x10000,
    ensures
        r == (byte_len(s@) > n),
{
    let mut i: usize = 0;
    let mut acc: usize = 0;
    while i < s.len() && acc <= n
        invariant
            0 <= i <= s@.len(),
            acc == byte_len(s@.take(i as int)),
            acc <= n + 4,
            n <= 0x10000,
        decreases s.len() - i,
    {
        proof {
            lemma_take_succ(s@, i as int);
        }
        acc = acc + utf8_width_exec(s[i]);
        i = i + 1;
    }
    proof {
        lemma_byte_len_at_least_prefix(s@, i as int);
        if i == s.len() {
            assert(s@.take(i as int) =~= s@);
        }
    }
    acc > n
}

/// Reads the credentials of an `Authorization` header value.
pub fn read_credentials_exec(auth: &String) -> (r: Credentials)
    ensures
        r@ == read_credentials(auth@),
{
    let chars = chars_of(auth.as_str());
    if !byte_len_exceeds(&chars, 5) {
        return Credentials::Missing;
    }
    let i = match char_index_of_byte_exec(&chars, 6) {
        Some(i) => i,
        None => {
            return Credentials::Malformed;
        },
    };
    let mut rest: Vec<char> = Vec::new();
    let mut m = i;
    assert(rest@ =~= chars@.subrange(i as int, m as int));
    while m < chars.len()
        invariant
            i <= m <= chars@.len(),
            rest@ == chars@.subrange(i as int, m as int),
        decreases chars.len() - m,
    {
        rest.push(chars[m]);
        m = m + 1;
        assert(rest@ =~= chars@.subrange(i as int, m as int));
    }
    assert(rest@ =~= auth@.skip(i as int));
    let encoded = string_from_chars(rest.as_slice());
    let bytes = match base64_decode(encoded.as_str()) {
        Some(b) => b,
        None => {
            return Credentials::Malformed;
        },
    };
    let text = match utf8_decode(bytes) {
        Some(t) => t,
        None => {
            return Credentials::Malformed;
        },
    };
    let tchars = chars_of(text.as_str());
    let parts = split_exec(tchars.as_slice(), ':');
    if parts.len() < 2 {
        return Credentials::Malformed;
    }
    assert(views_of(parts@)[0] == parts@[0]@);
    assert(views_of(parts@)[1] == parts@[1]@);
    let user = string_from_chars(parts[0].as_slice());
    let second = string_from_chars(parts[1].as_slice());
    let password = base64_encode(second.as_str());
    Credentials::Given { user, password }
}

/// Some line of the password file (lines end at `'\n'`) splits at `':'`
/// into exactly `user` and `password`.
pub open spec fn authfile_accepts(authfile: Seq<char>, user: Seq<char>, password: Seq<char>) -> bool {
    let lines = split_on(authfile, '\n');
    exists|i: int| 0 <= i < lines.len() && line_matches(#[trigger] lines[i], user, password)
}

pub open spec fn line_matches(line: Seq<char>, user: Seq<char>, password: Seq<char>) -> bool {
    let parts = split_on(line, ':');
    parts.len() == 2 && parts[0] == user && parts[1] == password
}

fn chars_eq(a: &Vec<char>, b: &Vec<char>) -> (r: bool)
    ensures
        r == (a@ == b@),
{
    if a.len() != b.len() {
        return false;
    }
    let mut i: usize = 0;
    while i < a.len()
        invariant
            0 <= i <= a@.len(),
            a@.len() == b@.len(),
            forall|k: int| 0 <= k < i ==> a@[k] == b@[k],
        decreases a.len() - i,
    {
        if a[i] != b[i] {
            return false;
        }
        i = i + 1;
    }
    assert(a@ =~= b@);
    true
}

/// Whether the password file accepts `user` with the (encoded) `password`.
pub fn authfile_accepts_exec(authfile: &String, user: &String, password: &String) -> (r: bool)
    ensures
        r == authfile_accepts(authfile@, user@, password@),
{
    let chars = chars_of(authfile.as_str());
    let lines = split_exec(chars.as_slice(), '\n');
    let u = chars_of(user.as_str());
    let p = chars_of(password.as_str());
    let ghost all = split_on(authfile@, '\n');
    let mut i: usize = 0;
    while i < lines.len()
        invariant
            0 <= i <= lines@.len(),
            views_of(lines@) == all,
            all == split_on(authfile@, '\n'),
            u@ == user@,
            p@ == password@,
            forall|k: int| 0 <= k < i ==> !line_matches(#[trigger] all[k], user@, password@),
        decreases lines.len() - i,
    {
        let parts = split_exec(lines[i].as_slice(), ':');
        assert(all[i as int] == lines@[i as int]@);
        if parts.len() == 2 {
            assert(views_of(parts@)[0] == parts@[0]@);
            assert(views_of(parts@)[1] == parts@[1]@);
            if chars_eq(&parts[0], &u) && chars_eq(&parts[1], &p) {
                assert(split_on(all[i as int], ':') == views_of(parts@));
                assert(line_matches(all[i as int], user@, password@));
                assert(all.len() == lines@.len());
                assert(exists|k: int| 0 <= k < all.len() && line_matches(#[trigger] all[k], user@, password@));
                return true;
            }
        }
        i = i + 1;
    }
    false
}

/// A user listed in the password file as a line `user:password` (neither
/// holding a `':'`) is accepted with that password.
pub proof fn law_listed_user_accepted(authfile: Seq<char>, user: Seq<char>, password: Seq<char>)
    requires
        split_on(authfile, '\n').contains(user + seq![':'] + password),
        !user.contains(':'),
        !password.contains(':'),
    ensures
        authfile_accepts(authfile, user, password),
{
    let lines = split_on(authfile, '\n');
    let i = choose|i: int| 0 <= i < lines.len() && lines[i] == user + seq![':'] + password;
    lemma_split_at_first_sep(user, password, ':');
    lemma_split_without_sep(password, ':');
    assert(split_on(lines[i], ':') =~= seq![user, password]);
    assert(line_matches(lines[i], user, password));
}

} // verus!
