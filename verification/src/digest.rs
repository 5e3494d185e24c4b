//! Content digests.

use sha2::{Digest, Sha256};
use vstd::prelude::*;

use crate::text::string_of;

verus! {

/// The SHA-256 digest of a byte string.
pub uninterp spec fn sha256(bytes: Seq<u8>) -> Seq<u8>;

/// `Sha256::digest` of the `sha2` crate: a function of the bytes alone, whose
/// result is 32 bytes long.
#[verifier::external_body]
fn sha256_bytes(bytes: &[u8]) -> (r: Vec<u8>)
    ensures
        r@ == sha256(bytes@),
        r@.len() == 32,
{
    Sha256::digest(bytes).to_vec()
}

pub open spec fn hex_digit(n: int) -> char {
    if n < 10 {
        (48 + n) as char
    } else {
        (87 + n) as char
    }
}

/// Two lower-case hexadecimal digits for each byte.
pub open spec fn hex(bytes: Seq<u8>) -> Seq<char> {
    Seq::new(
        2 * bytes.len(),
        |i: int|
            if i % 2 == 0 {
                hex_digit(bytes[i / 2] as int / 16)
            } else {
                hex_digit(bytes[i / 2] as int % 16)
            },
    )
}

fn hex_char(n: u8) -> (r: char)
    requires
        n < 16,
    ensures
        r == hex_digit(n as int),
{
    if n < 10 {
        (48u8 + n) as char
    } else {
        (87u8 + n) as char
    }
}

pub fn to_hex(bytes: &[u8]) -> (r: String)
    ensures
        r@ == hex(bytes@),
{
    let mut chars: Vec<char> = Vec::new();
    let mut i: usize = 0;
    while i < bytes.len()
        invariant
            i <= bytes.len(),
            chars@ == hex(bytes@.take(i as int)),
        decreases bytes.len() - i,
    {
        let ghost before = chars@;
        chars.push(hex_char(bytes[i] / 16));
        chars.push(hex_char(bytes[i] % 16));
        proof {
            let next = hex(bytes@.take(i + 1));
            assert(chars@.len() == next.len());
            assert forall|k: int| 0 <= k < next.len() implies chars@[k] == next[k] by {
                if k < before.len() {
                    assert(bytes@.take(i + 1)[k / 2] == bytes@.take(i as int)[k / 2]);
                } else {
                    assert(k == 2 * i || k == 2 * i + 1);
                    assert(bytes@.take(i + 1)[k / 2] == bytes@[i as int]);
                }
            }
            assert(chars@ =~= next);
        }
        i += 1;
    }
    proof {
        assert(bytes@.take(bytes@.len() as int) =~= bytes@);
    }
    string_of(&chars)
}

/// The lower-case hexadecimal form of the SHA-256 digest.
pub open spec fn content_digest(bytes: Seq<u8>) -> Seq<char> {
    hex(sha256(bytes))
}

pub fn digest(bytes: &[u8]) -> (r: String)
    ensures
        r@ == content_digest(bytes@),
        valid(r@),
{
    let raw = sha256_bytes(bytes);
    proof {
        lemma_hex_is_hexadecimal(raw@);
    }
    to_hex(&raw)
}

pub open spec fn hexadecimal(c: char) -> bool {
    '0' <= c <= '9' || 'a' <= c <= 'f' || 'A' <= c <= 'F'
}

/// The shape of a digest: 64 hexadecimal digits.
pub open spec fn valid(s: Seq<char>) -> bool {
    s.len() == 64 && forall|i: int| 0 <= i < s.len() ==> hexadecimal(#[trigger] s[i])
}

proof fn lemma_hex_is_hexadecimal(bytes: Seq<u8>)
    ensures
        forall|i: int| 0 <= i < hex(bytes).len() ==> hexadecimal(#[trigger] hex(bytes)[i]),
{
    assert forall|i: int| 0 <= i < hex(bytes).len() implies hexadecimal(#[trigger] hex(bytes)[i]) by {
        let b = bytes[i / 2] as int;
        assert(0 <= b / 16 < 16 && 0 <= b % 16 < 16);
    }
}

/// A digest is written as two digits of sixteen for each byte, the higher
/// first, in lower case.
pub proof fn digests_are_written_in_sixteens(bytes: Seq<u8>, i: int)
    requires
        0 <= i < bytes.len(),
    ensures
        hex(bytes).len() == 2 * bytes.len(),
        sixteen_value(hex(bytes)[2 * i]) * 16 + sixteen_value(hex(bytes)[2 * i + 1]) == bytes[i],
        '0' <= hex(bytes)[2 * i] <= '9' || 'a' <= hex(bytes)[2 * i] <= 'f',
        '0' <= hex(bytes)[2 * i + 1] <= '9' || 'a' <= hex(bytes)[2 * i + 1] <= 'f',
{
    assert((2 * i) % 2 == 0 && (2 * i) / 2 == i);
    assert((2 * i + 1) % 2 == 1 && (2 * i + 1) / 2 == i);
}

/// The value of a digit of sixteen in lower case.
pub open spec fn sixteen_value(c: char) -> int {
    if '0' <= c <= '9' {
        c as int - '0' as int
    } else {
        c as int - 'a' as int + 10
    }
}

/// A digest names its content: it is that of the content alone, and has the
/// form in which digests are stored.
pub proof fn digests_have_sixty_four_digits(s: Seq<char>)
    ensures
        valid(s) <==> s.len() == 64 && forall|i: int|
            0 <= i < s.len() ==> ('0' <= #[trigger] s[i] <= '9' || 'a' <= s[i] <= 'f' || 'A' <= s[i]
                <= 'F'),
{
    assert forall|i: int| 0 <= i < s.len() implies hexadecimal(#[trigger] s[i]) == ('0' <= s[i]
        <= '9' || 'a' <= s[i] <= 'f' || 'A' <= s[i] <= 'F') by {}
}

/// The digest of a content is written from its bytes alone.
pub proof fn digests_are_those_of_the_bytes(bytes: Seq<u8>)
    ensures
        content_digest(bytes) == hex(sha256(bytes)),
{
}

} // verus!
