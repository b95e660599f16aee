//! Digests and the references derived from them.

use sha2::Digest;
use vstd::prelude::*;
use vstd::string::*;

use crate::text;

verus! {

/// The SHA-256 digest of some bytes.
pub uninterp spec fn sha256(bytes: Seq<u8>) -> Seq<u8>;

/// `sha2::Sha256::digest`: the digest depends on the bytes alone and has 32 bytes.
#[verifier::external_body]
fn digest(bytes: &[u8]) -> (res: Vec<u8>)
    ensures
        res@ == sha256(bytes@),
        res@.len() == 32,
{
    sha2::Sha256::digest(bytes).to_vec()
}

/// The lowercase hexadecimal digit for a number below sixteen.
pub open spec fn hex_digit(n: int) -> char {
    if n < 10 {
        text::digit(n)
    } else if n == 10 {
        'a'
    } else if n == 11 {
        'b'
    } else if n == 12 {
        'c'
    } else if n == 13 {
        'd'
    } else if n == 14 {
        'e'
    } else {
        'f'
    }
}

/// Two hexadecimal digits for each byte, the higher half first.
pub open spec fn hex(bytes: Seq<u8>) -> Seq<char> {
    Seq::new(
        2 * bytes.len(),
        |i: int|
            if i % 2 == 0 {
                hex_digit(bytes[i / 2] as int / 16)
            } else {
                hex_digit(bytes[i / 2] as int % 16)
            },
    )
}

fn hex_char(n: u8) -> (res: char)
    requires
        n < 16,
    ensures
        res == hex_digit(n as int),
{
    if n < 10 {
        text::digit_char(n as u128)
    } else if n == 10 {
        'a'
    } else if n == 11 {
        'b'
    } else if n == 12 {
        'c'
    } else if n == 13 {
        'd'
    } else if n == 14 {
        'e'
    } else {
        'f'
    }
}

/// Bytes in lowercase hexadecimal notation.
pub fn to_hex(bytes: &Vec<u8>) -> (res: String)
    ensures
        res@ == hex(bytes@),
{
    let mut res: String = String::new();
    let mut i: usize = 0;
    while i < bytes.len()
        invariant
            i <= bytes@.len(),
            res@ == hex(bytes@.take(i as int)),
        decreases bytes@.len() - i,
    {
        let byte: u8 = bytes[i];
        let ghost before = res@;
        res.push(hex_char(byte / 16));
        res.push(hex_char(byte % 16));
        proof {
            let shorter = bytes@.take(i as int);
            let longer = bytes@.take(i + 1);
            assert forall|j: int| 0 <= j < 2 * i implies hex(longer)[j] == hex(shorter)[j] by {
                assert(longer[j / 2] == shorter[j / 2]);
            }
            assert(res@ =~= hex(longer));
        }
        i += 1;
    }
    proof {
        assert(bytes@.take(bytes@.len() as int) =~= bytes@);
    }
    res
}

/// The digest of some bytes in lowercase hexadecimal notation.
pub open spec fn digest_hex(bytes: Seq<u8>) -> Seq<char> {
    hex(sha256(bytes))
}

/// The digest of some bytes, marked with the name of the algorithm.
pub open spec fn digest_tag(bytes: Seq<u8>) -> Seq<char> {
    "sha256:"@ + digest_hex(bytes)
}

/// The SHA-256 digest of some bytes, as 64 lowercase hexadecimal digits.
pub fn sha256_hex(bytes: &[u8]) -> (res: String)
    ensures
        res@ == digest_hex(bytes@),
        res@.len() == 64,
{
    to_hex(&digest(bytes))
}

/// The SHA-256 digest of some bytes behind the prefix `sha256:`.
pub fn sha256_tag(bytes: &[u8]) -> (res: String)
    ensures
        res@ == digest_tag(bytes@),
        res@.len() == 71,
{
    let mut res: String = "sha256:".to_string();
    proof {
        reveal_strlit("sha256:");
    }
    res.append(sha256_hex(bytes).as_str());
    res
}

/// A reference to a text that does not show it: the first sixteen hexadecimal digits of
/// its digest.
pub open spec fn short_reference(value: Seq<char>) -> Seq<char> {
    digest_hex(vstd::utf8::encode_utf8(value)).take(16)
}

/// A short reference to a text, safe to write to a log.
pub fn safe_hash(value: &str) -> (res: String)
    ensures
        res@ == short_reference(value@),
        res@.len() == 16,
{
    text::take_chars(sha256_hex(value.as_bytes()).as_str(), 16)
}

/// Different bytes have different hexadecimal notations.
pub proof fn hex_is_injective(a: Seq<u8>, b: Seq<u8>)
    requires
        hex(a) == hex(b),
    ensures
        a == b,
{
    assert(hex(a).len() == 2 * a.len());
    assert(hex(b).len() == 2 * b.len());
    assert forall|i: int| 0 <= i < a.len() implies a[i] == b[i] by {
        assert((2 * i) / 2 == i && (2 * i + 1) / 2 == i);
        assert(hex(a)[2 * i] == hex_digit(a[i] as int / 16));
        assert(hex(b)[2 * i] == hex_digit(b[i] as int / 16));
        assert(hex(a)[2 * i + 1] == hex_digit(a[i] as int % 16));
        assert(hex(b)[2 * i + 1] == hex_digit(b[i] as int % 16));
        lemma_hex_digit_injective(a[i] as int / 16, b[i] as int / 16);
        lemma_hex_digit_injective(a[i] as int % 16, b[i] as int % 16);
    }
    assert(a =~= b);
}

proof fn lemma_hex_digit_injective(m: int, n: int)
    requires
        0 <= m < 16,
        0 <= n < 16,
        hex_digit(m) == hex_digit(n),
    ensures
        m == n,
{
}

/// The number that a lowercase hexadecimal digit stands for.
pub open spec fn digit_value(c: char) -> int {
    if c <= '9' {
        c as int - 48
    } else {
        c as int - 87
    }
}

/// Hexadecimal notation is read back digit by digit: two digits from `0` to `9` and `a` to `f`
/// for each byte, the first of them worth sixteen times as much. The digest is written in it
/// behind the name of the algorithm, and a short reference is what it begins with.
pub proof fn hexadecimal_is_read_back(
    bytes: Vec<u8>,
    res: String,
    i: int,
    data: &[u8],
    digest_text: String,
    tagged: String,
    value: &str,
    short: String,
)
    requires
        call_ensures(to_hex, (&bytes,), res),
        0 <= i < bytes@.len(),
        call_ensures(sha256_hex, (data,), digest_text),
        call_ensures(sha256_tag, (data,), tagged),
        call_ensures(safe_hash, (value,), short),
    ensures
        res@.len() == 2 * bytes@.len(),
        16 * digit_value(res@[2 * i]) + digit_value(res@[2 * i + 1]) == bytes@[i],
        ('0' <= res@[2 * i] && res@[2 * i] <= '9') || ('a' <= res@[2 * i] && res@[2 * i] <= 'f'),
        ('0' <= res@[2 * i + 1] && res@[2 * i + 1] <= '9') || ('a' <= res@[2 * i + 1] && res@[2 * i
            + 1] <= 'f'),
        digest_text@ == hex(sha256(data@)),
        tagged@ == "sha256:"@ + digest_text@,
        short@.len() == 16,
        data@ == vstd::utf8::encode_utf8(value@) ==> short@ == digest_text@.take(16),
{
    assert((2 * i) / 2 == i && (2 * i + 1) / 2 == i);
    assert(hex(bytes@)[2 * i] == hex_digit(bytes@[i] as int / 16));
    assert(hex(bytes@)[2 * i + 1] == hex_digit(bytes@[i] as int % 16));
}

} // verus!
