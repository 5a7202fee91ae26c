//! SHA-256 digests through `sha2`, written in lower-case hexadecimal.
use vstd::prelude::*;

verus! {

/// The SHA-256 digest of `data` (`sha2::Sha256::digest`).
pub uninterp spec fn spec_sha256(data: Seq<u8>) -> Seq<u8>;

/// `sha2::Sha256::digest(data)`, whose output is 32 bytes (the
/// `OutputSize` of `Sha256` is `U32`); the digest itself is named.
#[verifier::external_body]
pub(crate) fn sha256(data: &[u8]) -> (r: Vec<u8>)
    ensures
        r@ == spec_sha256(data@),
        r@.len() == 32,
{
    <sha2::Sha256 as sha2::Digest>::digest(data).to_vec()
}

/// The lower-case hexadecimal digit of `d < 16`.
pub open spec fn hex_digit(d: nat) -> char {
    if d < 10 {
        ((d + 48) as u32) as char
    } else {
        ((d + 87) as u32) as char
    }
}

/// Two lower-case hexadecimal digits per byte, high nibble first (as the
/// `LowerHex` formatting of a digest writes it).
pub open spec fn lower_hex(bytes: Seq<u8>) -> Seq<char>
    decreases bytes.len(),
{
    if bytes.len() == 0 {
        Seq::empty()
    } else {
        let b = bytes.last();
        lower_hex(bytes.drop_last()) + seq![hex_digit((b / 16) as nat), hex_digit((b % 16) as nat)]
    }
}

fn hex_digit_exec(d: u8) -> (c: char)
    requires
        d < 16,
    ensures
        c == hex_digit(d as nat),
{
    match d {
        0 => '0',
        1 => '1',
        2 => '2',
        3 => '3',
        4 => '4',
        5 => '5',
        6 => '6',
        7 => '7',
        8 => '8',
        9 => '9',
        10 => 'a',
        11 => 'b',
        12 => 'c',
        13 => 'd',
        14 => 'e',
        _ => 'f',
    }
}

/// Writes `bytes` as lower-case hexadecimal.
pub fn lower_hex_exec(bytes: &[u8]) -> (r: Vec<char>)
    ensures
        r@ == lower_hex(bytes@),
{
    let mut r: Vec<char> = Vec::new();
    let mut i: usize = 0;
    while i < bytes.len()
        invariant
            0 <= i <= bytes@.len(),
            r@ == lower_hex(bytes@.take(i as int)),
        decreases bytes.len() - i,
    {
        let b = bytes[i];
        let ghost prev = r@;
        r.push(hex_digit_exec(b / 16));
        r.push(hex_digit_exec(b % 16));
        proof {
            assert(bytes@.take(i + 1).drop_last() =~= bytes@.take(i as int));
            assert(r@ =~= prev + seq![hex_digit((b / 16) as nat), hex_digit((b % 16) as nat)]);
        }
        i = i + 1;
    }
    assert(bytes@.take(i as int) =~= bytes@);
    r
}

/// A digest in hexadecimal has two lower-case hex digits per byte: an
/// entity tag of a SHA-256 digest is 64 of them.
pub proof fn law_hex_digits(bytes: Seq<u8>)
    ensures
        lower_hex(bytes).len() == 2 * bytes.len(),
        forall|i: int|
            0 <= i < lower_hex(bytes).len() ==> ('0' <= #[trigger] lower_hex(bytes)[i] <= '9' || 'a'
                <= lower_hex(bytes)[i] <= 'f'),
    decreases bytes.len(),
{
    if bytes.len() > 0 {
        law_hex_digits(bytes.drop_last());
        let b = bytes.last();
        let h = lower_hex(bytes);
        let p = lower_hex(bytes.drop_last());
        assert forall|i: int| 0 <= i < h.len() implies ('0' <= #[trigger] h[i] <= '9' || 'a' <= h[i] <= 'f') by {
            if i < p.len() {
                assert(h[i] == p[i]);
            }
        }
    }
}

/// The entity tag of a body is 64 lower-case hex digits.
pub proof fn law_etag_length(data: Seq<u8>)
    requires
        spec_sha256(data).len() == 32,
    ensures
        lower_hex(spec_sha256(data)).len() == 64,
{
    law_hex_digits(spec_sha256(data));
}

} // verus!
