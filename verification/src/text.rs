//! Character-level text utilities: splitting, searching, and the byte
//! offsets of the UTF-8 encoding of a character sequence.
use vstd::prelude::*;
use vstd::utf8::{encode_utf8, encode_scalar, char_is_scalar};

verus! {

/// The characters of a string slice, as a vector.
pub fn chars_of(s: &str) -> (v: Vec<char>)
    ensures
        v@ == s@,
{
    let mut v: Vec<char> = Vec::new();
    for c in it: s.chars()
        invariant
            v@ == it.seq().take(it.index() as int),
            it.seq() == s@,
    {
        v.push(c);
    }
    v
}

/// Collects characters into a `String` (std's `FromIterator<&char>` for `String`),
/// which keeps every character in order.
#[verifier::external_body]
pub(crate) fn string_from_chars(cs: &[char]) -> (s: String)
    ensures
        s@ == cs@,
{
    cs.iter().collect()
}

/// The number of bytes of the UTF-8 encoding of `c`.
pub open spec fn utf8_width(c: char) -> nat {
    if (c as u32) < 0x80 {
        1
    } else if (c as u32) < 0x800 {
        2
    } else if (c as u32) < 0x10000 {
        3
    } else {
        4
    }
}

/// The number of bytes of the UTF-8 encoding of `s`.
pub open spec fn byte_len(s: Seq<char>) -> nat
    decreases s.len(),
{
    if s.len() == 0 {
        0
    } else {
        byte_len(s.drop_last()) + utf8_width(s.last())
    }
}

/// Byte offset `b` of the encoding of `s` is the start of character `i`
/// (or the end of the text, for `i == s.len()`).
pub open spec fn boundary_at(s: Seq<char>, b: int, i: int) -> bool {
    0 <= i <= s.len() && byte_len(s.take(i)) == b
}

/// The character index at which byte offset `b` falls on a character
/// boundary, if it does.
#[verifier::opaque]
pub open spec fn char_index_of_byte(s: Seq<char>, b: int) -> Option<int> {
    if exists|i: int| boundary_at(s, b, i) {
        Some(choose|i: int| boundary_at(s, b, i))
    } else {
        None
    }
}

pub fn utf8_width_exec(c: char) -> (w: usize)
    ensures
        w == utf8_width(c),
{
    let u = c as u32;
    if u < 0x80 {
        1
    } else if u < 0x800 {
        2
    } else if u < 0x10000 {
        3
    } else {
        4
    }
}

pub proof fn lemma_take_succ(s: Seq<char>, i: int)
    requires
        0 <= i < s.len(),
    ensures
        byte_len(s.take(i + 1)) == byte_len(s.take(i)) + utf8_width(s[i]),
{
    assert(s.take(i + 1).drop_last() =~= s.take(i));
}

/// Byte offsets of character starts grow strictly with the character index.
pub proof fn lemma_byte_len_take_strict(s: Seq<char>, i: int, j: int)
    requires
        0 <= i < j <= s.len(),
    ensures
        byte_len(s.take(i)) < byte_len(s.take(j)),
    decreases j - i,
{
    lemma_take_succ(s, j - 1);
    if i < j - 1 {
        lemma_byte_len_take_strict(s, i, j - 1);
    }
}

pub proof fn lemma_boundary_unique(s: Seq<char>, b: int, i: int)
    requires
        boundary_at(s, b, i),
    ensures
        char_index_of_byte(s, b) == Some(i),
{
    reveal(char_index_of_byte);
    let k = choose|k: int| boundary_at(s, b, k);
    if k < i {
        lemma_byte_len_take_strict(s, k, i);
    } else if i < k {
        lemma_byte_len_take_strict(s, i, k);
    }
}

/// Finds the character index at which byte offset `b` starts a character.
pub fn char_index_of_byte_exec(s: &Vec<char>, b: usize) -> (r: Option<usize>)
    requires
        b <= 0x10000,
    ensures
        r matches Some(i) ==> char_index_of_byte(s@, b as int) == Some(i as int) && i <= s@.len(),
        r is None ==> char_index_of_byte(s@, b as int) is None,
{
    let mut i: usize = 0;
    let mut acc: usize = 0;
    while i < s.len() && acc < b
        invariant
            0 <= i <= s.len(),
            acc == byte_len(s@.take(i as int)),
            acc <= b + 3,
            b <= 0x10000,
            forall|j: int| 0 <= j < i ==> byte_len(#[trigger] s@.take(j)) < b,
        decreases s.len() - i,
    {
        proof {
            lemma_take_succ(s@, i as int);
        }
        acc = acc + utf8_width_exec(s[i]);
        i = i + 1;
    }
    if acc == b {
        proof {
            lemma_boundary_unique(s@, b as int, i as int);
        }
        Some(i)
    } else {
        reveal(char_index_of_byte);
        assert forall|j: int| !boundary_at(s@, b as int, j) by {
            if 0 <= j <= s@.len() {
                if j < i {
                    assert(byte_len(s@.take(j)) < b);
                } else if j > i {
                    lemma_byte_len_take_strict(s@, i as int, j);
                }
            }
        }
        None
    }
}

/// `s` begins with `pat`.
pub open spec fn starts_with(s: Seq<char>, pat: Seq<char>) -> bool {
    pat.len() <= s.len() && s.take(pat.len() as int) == pat
}

/// `pat` occurs in `s` at character index `j`.
pub open spec fn occurs_at(s: Seq<char>, pat: Seq<char>, j: int) -> bool {
    0 <= j && j + pat.len() <= s.len() && s.subrange(j, j + pat.len()) == pat
}

/// The character index of the first occurrence of `pat` in `s`.
#[verifier::opaque]
pub open spec fn find(s: Seq<char>, pat: Seq<char>) -> Option<int> {
    if exists|j: int| occurs_at(s, pat, j) {
        Some(choose|j: int| occurs_at(s, pat, j) && forall|k: int| 0 <= k < j ==> !occurs_at(s, pat, k))
    } else {
        None
    }
}

/// Compares `s[at..at + pat.len()]` with `pat`.
pub fn matches_at(s: &[char], pat: &[char], at: usize) -> (r: bool)
    requires
        at <= s@.len(),
    ensures
        r == occurs_at(s@, pat@, at as int),
{
    if pat.len() > s.len() - at {
        return false;
    }
    let mut k: usize = 0;
    while k < pat.len()
        invariant
            0 <= k <= pat@.len(),
            at + pat@.len() <= s@.len(),
            forall|m: int| 0 <= m < k ==> s@[at + m] == pat@[m],
        decreases pat.len() - k,
    {
        assert(at + k < s.len());
        if s[at + k] != pat[k] {
            assert(s@.subrange(at as int, at + pat@.len())[k as int] != pat@[k as int]);
            return false;
        }
        k = k + 1;
    }
    assert(s@.subrange(at as int, at + pat@.len()) =~= pat@);
    true
}

pub fn starts_with_exec(s: &[char], pat: &[char]) -> (r: bool)
    ensures
        r == starts_with(s@, pat@),
{
    let r = matches_at(s, pat, 0);
    assert(s@.subrange(0, pat@.len() as int) =~= s@.take(pat@.len() as int));
    r
}

pub fn find_exec(s: &[char], pat: &[char]) -> (r: Option<usize>)
    ensures
        r matches Some(j) ==> find(s@, pat@) == Some(j as int) && j + pat@.len() <= s@.len(),
        r is None ==> find(s@, pat@) is None,
{
    reveal(find);
    let mut j: usize = 0;
    while j < s.len()
        invariant
            0 <= j <= s@.len(),
            forall|k: int| 0 <= k < j ==> !occurs_at(s@, pat@, k),
        decreases s.len() - j,
    {
        if matches_at(s, pat, j) {
            proof {
                lemma_first_occurrence(s@, pat@, j as int);
            }
            return Some(j);
        }
        j = j + 1;
    }
    if matches_at(s, pat, j) {
        proof {
            lemma_first_occurrence(s@, pat@, j as int);
        }
        return Some(j);
    }
    assert forall|k: int| !occurs_at(s@, pat@, k) by {
        if 0 <= k && k + pat@.len() <= s@.len() {
            assert(k <= j);
        }
    }
    None
}

proof fn lemma_first_occurrence(s: Seq<char>, pat: Seq<char>, j: int)
    requires
        occurs_at(s, pat, j),
        forall|k: int| 0 <= k < j ==> !occurs_at(s, pat, k),
    ensures
        find(s, pat) == Some(j),
{
    reveal(find);
    let c = choose|c: int| occurs_at(s, pat, c) && forall|k: int| 0 <= k < c ==> !occurs_at(s, pat, k);
    assert(c == j) by {
        if c < j {
            assert(!occurs_at(s, pat, c));
        } else if c > j {
            assert(!occurs_at(s, pat, j));
        }
    }
}

/// Splits `s` at every occurrence of the character `sep` (as `str::split`
/// with a one-character pattern does); there is always at least one part.
pub open spec fn split_on(s: Seq<char>, sep: char) -> Seq<Seq<char>>
    decreases s.len(),
{
    if s.len() == 0 {
        seq![Seq::<char>::empty()]
    } else {
        let rest = split_on(s.drop_first(), sep);
        if s[0] == sep {
            seq![Seq::<char>::empty()] + rest
        } else {
            rest.update(0, seq![s[0]] + rest[0])
        }
    }
}

pub proof fn lemma_split_nonempty(s: Seq<char>, sep: char)
    ensures
        split_on(s, sep).len() >= 1,
    decreases s.len(),
{
    if s.len() > 0 {
        lemma_split_nonempty(s.drop_first(), sep);
    }
}

/// Prefixes the first part of a split with `cur`.
pub open spec fn prefix_first(cur: Seq<char>, parts: Seq<Seq<char>>) -> Seq<Seq<char>> {
    parts.update(0, cur + parts[0])
}

pub open spec fn views_of(v: Seq<Vec<char>>) -> Seq<Seq<char>> {
    v.map_values(|x: Vec<char>| x@)
}

pub fn split_exec(s: &[char], sep: char) -> (parts: Vec<Vec<char>>)
    ensures
        views_of(parts@) == split_on(s@, sep),
{
    let mut parts: Vec<Vec<char>> = Vec::new();
    let mut cur: Vec<char> = Vec::new();
    let mut i: usize = 0;
    proof {
        lemma_split_nonempty(s@, sep);
        assert(s@.skip(0) =~= s@);
        assert(prefix_first(cur@, split_on(s@, sep)) =~= split_on(s@, sep));
    }
    while i < s.len()
        invariant
            0 <= i <= s@.len(),
            split_on(s@, sep) == views_of(parts@) + prefix_first(cur@, split_on(s@.skip(i as int), sep)),
        decreases s.len() - i,
    {
        let ghost rest = s@.skip(i as int);
        proof {
            assert(rest.drop_first() =~= s@.skip(i + 1));
            assert(rest[0] == s@[i as int]);
            lemma_split_nonempty(s@.skip(i + 1), sep);
        }
        let c = s[i];
        if c == sep {
            let ghost old_parts = parts@;
            let done = cur;
            parts.push(done);
            cur = Vec::new();
            proof {
                let r = split_on(s@.skip(i + 1), sep);
                assert(split_on(rest, sep) == seq![Seq::<char>::empty()] + r);
                assert(prefix_first(done@, split_on(rest, sep)) =~= seq![done@] + r);
                assert(prefix_first(cur@, r) =~= r);
                assert(views_of(parts@) =~= views_of(old_parts) + seq![done@]);
                assert(views_of(old_parts) + prefix_first(done@, split_on(rest, sep)) =~= views_of(
                    parts@,
                ) + prefix_first(cur@, r));
            }
        } else {
            let ghost old_cur = cur@;
            cur.push(c);
            proof {
                let r = split_on(s@.skip(i + 1), sep);
                assert(split_on(rest, sep) == r.update(0, seq![c] + r[0]));
                assert(old_cur + (seq![c] + r[0]) =~= cur@ + r[0]);
                assert(prefix_first(old_cur, split_on(rest, sep)) =~= prefix_first(cur@, r));
            }
        }
        i = i + 1;
    }
    proof {
        assert(s@.skip(i as int) =~= Seq::<char>::empty());
        assert(prefix_first(cur@, split_on(s@.skip(i as int), sep)) =~= seq![cur@]);
    }
    let ghost before = parts@;
    parts.push(cur);
    assert(views_of(parts@) =~= views_of(before) + seq![cur@]);
    parts
}

/// The decimal digit for `d < 10`.
pub open spec fn decimal_digit(d: nat) -> char {
    ((d + 48) as u32) as char
}

/// The decimal numeral of `n`, without leading zeros.
pub open spec fn decimal(n: nat) -> Seq<char>
    decreases n,
{
    if n < 10 {
        seq![decimal_digit(n)]
    } else {
        decimal(n / 10).push(decimal_digit(n % 10))
    }
}

/// The decimal numeral of `n`, with a leading `'-'` where it is negative.
pub open spec fn signed_decimal(n: int) -> Seq<char> {
    if n < 0 {
        seq!['-'] + decimal((-n) as nat)
    } else {
        decimal(n as nat)
    }
}

fn decimal_digit_exec(d: u64) -> (c: char)
    requires
        d < 10,
    ensures
        c == decimal_digit(d as nat),
{
    match d {
        0 => '0',
        1 => '1',
        2 => '2',
        3 => '3',
        4 => '4',
        5 => '5',
        6 => '6',
        7 => '7',
        8 => '8',
        _ => '9',
    }
}

fn push_decimal(n: u64, out: &mut Vec<char>)
    ensures
        final(out)@ == old(out)@ + decimal(n as nat),
    decreases n,
{
    if n >= 10 {
        push_decimal(n / 10, out);
    }
    let ghost mid = out@;
    out.push(decimal_digit_exec(n % 10));
    proof {
        if n >= 10 {
            assert(out@ =~= old(out)@ + decimal(n as nat));
        } else {
            assert(out@ =~= old(out)@ + decimal(n as nat));
        }
    }
}

/// `n.to_string()` for an unsigned number.
pub fn u64_to_string(n: u64) -> (r: String)
    ensures
        r@ == decimal(n as nat),
{
    let mut v: Vec<char> = Vec::new();
    push_decimal(n, &mut v);
    assert(v@ =~= decimal(n as nat));
    string_from_chars(v.as_slice())
}

/// `n.to_string()` for a signed number.
pub fn i64_to_string(n: i64) -> (r: String)
    ensures
        r@ == signed_decimal(n as int),
{
    let mut v: Vec<char> = Vec::new();
    if n < 0 {
        v.push('-');
        let m: u64 = ((-(n + 1)) as u64) + 1;
        push_decimal(m, &mut v);
        assert(v@ =~= signed_decimal(n as int));
    } else {
        push_decimal(n as u64, &mut v);
        assert(v@ =~= signed_decimal(n as int));
    }
    string_from_chars(v.as_slice())
}

/// The number of non-overlapping occurrences of `cc` in `s`, scanning from
/// the left (as `str::match_indices` finds them).
pub open spec fn count_pair(s: Seq<char>, c: char) -> nat
    decreases s.len(),
{
    if s.len() < 2 {
        0
    } else if s[0] == c && s[1] == c {
        1 + count_pair(s.skip(2), c)
    } else {
        count_pair(s.skip(1), c)
    }
}

pub fn count_pair_exec(s: &[char], c: char) -> (n: usize)
    ensures
        n == count_pair(s@, c),
{
    let mut n: usize = 0;
    let mut i: usize = 0;
    assert(s@.skip(0) =~= s@);
    while s.len() - i >= 2
        invariant
            0 <= i <= s@.len(),
            n <= i,
            count_pair(s@, c) == n + count_pair(s@.skip(i as int), c),
        decreases s.len() - i,
    {
        let ghost rest = s@.skip(i as int);
        if s[i] == c && s[i + 1] == c {
            assert(rest.skip(2) =~= s@.skip(i + 2));
            n = n + 1;
            i = i + 2;
        } else {
            assert(rest.skip(1) =~= s@.skip(i + 1));
            i = i + 1;
        }
    }
    n
}

/// Text without the separator is one part.
pub proof fn lemma_split_without_sep(s: Seq<char>, sep: char)
    requires
        !s.contains(sep),
    ensures
        split_on(s, sep) == seq![s],
    decreases s.len(),
{
    if s.len() > 0 {
        assert(!s.drop_first().contains(sep)) by {
            if s.drop_first().contains(sep) {
                let i = choose|i: int| 0 <= i < s.drop_first().len() && s.drop_first()[i] == sep;
                assert(s[i + 1] == sep);
            }
        }
        lemma_split_without_sep(s.drop_first(), sep);
        assert(s[0] != sep) by {
            if s[0] == sep {
                assert(s.contains(sep));
            }
        }
        assert(seq![s[0]] + s.drop_first() =~= s);
        assert(split_on(s, sep) =~= seq![s]);
    } else {
        assert(s =~= Seq::<char>::empty());
        assert(split_on(s, sep) =~= seq![s]);
    }
}

/// Text up to the first separator is the first part; the rest splits on.
pub proof fn lemma_split_at_first_sep(a: Seq<char>, b: Seq<char>, sep: char)
    requires
        !a.contains(sep),
    ensures
        split_on(a + seq![sep] + b, sep) == seq![a] + split_on(b, sep),
    decreases a.len(),
{
    let s = a + seq![sep] + b;
    if a.len() == 0 {
        assert(s.drop_first() =~= b);
        assert(a =~= Seq::<char>::empty());
        assert(seq![a] =~= seq![Seq::<char>::empty()]);
    } else {
        let a2 = a.drop_first();
        assert(!a2.contains(sep)) by {
            if a2.contains(sep) {
                let i = choose|i: int| 0 <= i < a2.len() && a2[i] == sep;
                assert(a[i + 1] == sep);
            }
        }
        lemma_split_at_first_sep(a2, b, sep);
        assert(s.drop_first() =~= a2 + seq![sep] + b);
        assert(s[0] == a[0]);
        assert(a[0] != sep) by {
            if a[0] == sep {
                assert(a.contains(sep));
            }
        }
        lemma_split_nonempty(b, sep);
        assert(seq![a[0]] + a2 =~= a);
        assert(split_on(s, sep) =~= seq![a] + split_on(b, sep));
    }
}

/// `s` holds the character `c` twice in a row.
pub open spec fn has_pair(s: Seq<char>, c: char) -> bool {
    exists|i: int| 0 <= i && i + 1 < s.len() && #[trigger] s[i] == c && s[i + 1] == c
}

/// Some occurrence is counted exactly where there is one.
pub proof fn lemma_count_pair_positive(s: Seq<char>, c: char)
    ensures
        count_pair(s, c) > 0 <==> has_pair(s, c),
    decreases s.len(),
{
    if s.len() >= 2 {
        if s[0] == c && s[1] == c {
            assert(s[0] == c && s[0int + 1] == c);
        } else {
            let t = s.skip(1);
            lemma_count_pair_positive(t, c);
            if has_pair(s, c) {
                let i = choose|i: int| 0 <= i && i + 1 < s.len() && #[trigger] s[i] == c && s[i + 1] == c;
                assert(i >= 1);
                assert(t[i - 1] == c && t[(i - 1) + 1] == c);
            }
            if has_pair(t, c) {
                let i = choose|i: int| 0 <= i && i + 1 < t.len() && #[trigger] t[i] == c && t[i + 1] == c;
                assert(s[i + 1] == c && s[(i + 1) + 1] == c);
            }
        }
    } else {
        if has_pair(s, c) {
            let i = choose|i: int| 0 <= i && i + 1 < s.len() && #[trigger] s[i] == c && s[i + 1] == c;
        }
    }
}

proof fn lemma_byte_len_front(s: Seq<char>)
    requires
        s.len() > 0,
    ensures
        byte_len(s) == utf8_width(s[0]) + byte_len(s.drop_first()),
    decreases s.len(),
{
    if s.len() > 1 {
        lemma_byte_len_front(s.drop_last());
        assert(s.drop_last().drop_first() =~= s.drop_first().drop_last());
        assert(s.drop_last()[0] == s[0]);
        assert(s.drop_first().last() == s.last());
        assert(byte_len(s.drop_first()) == byte_len(s.drop_first().drop_last()) + utf8_width(
            s.drop_first().last(),
        ));
        assert(byte_len(s.drop_last()) == utf8_width(s[0]) + byte_len(s.drop_last().drop_first()));
        assert(byte_len(s) == byte_len(s.drop_last()) + utf8_width(s.last()));
    } else {
        assert(s.drop_first().len() == 0);
        assert(s.drop_last().len() == 0);
        assert(s.last() == s[0]);
        assert(byte_len(s.drop_first()) == 0);
        assert(byte_len(s.drop_last()) == 0);
        assert(byte_len(s) == byte_len(s.drop_last()) + utf8_width(s.last()));
    }
}

/// The byte offsets used here are those of the UTF-8 encoding: the byte
/// length of a text is the length of its encoding (what `str::len` gives).
pub proof fn law_byte_len_is_encoding_len(s: Seq<char>)
    ensures
        byte_len(s) == encode_utf8(s).len(),
    decreases s.len(),
{
    if s.len() > 0 {
        lemma_byte_len_front(s);
        law_byte_len_is_encoding_len(s.drop_first());
        let c = s[0];
        char_is_scalar(c);
        assert(encode_scalar(c as u32).len() == utf8_width(c));
    }
}

/// Where the first `n` characters are ASCII, byte offset `n` starts
/// character `n`.
pub proof fn lemma_ascii_prefix_boundary(s: Seq<char>, n: int)
    requires
        0 <= n <= s.len(),
        forall|i: int| 0 <= i < n ==> (#[trigger] s[i] as u32) < 0x80,
    ensures
        char_index_of_byte(s, n) == Some(n),
{
    lemma_ascii_prefix_len(s, n);
    lemma_boundary_unique(s, n, n);
}

proof fn lemma_ascii_prefix_len(s: Seq<char>, n: int)
    requires
        0 <= n <= s.len(),
        forall|i: int| 0 <= i < n ==> (#[trigger] s[i] as u32) < 0x80,
    ensures
        byte_len(s.take(n)) == n,
    decreases n,
{
    if n > 0 {
        lemma_ascii_prefix_len(s, n - 1);
        lemma_take_succ(s, n - 1);
        assert((s[n - 1] as u32) < 0x80);
    } else {
        assert(s.take(0).len() == 0);
    }
}

} // verus!
