//! Window labels derived from a URL: the SHA-256 digest of the URL written
//! in hexadecimal, with every decimal digit replaced by a letter.
use vstd::prelude::*;
use sha2::{Digest, Sha256};
use crate::text::char_from_ascii;

verus! {

/// The SHA-256 digest of a byte string.
pub uninterp spec fn sha256_digest(data: Seq<u8>) -> Seq<u8>;

/// `Sha256::digest` from the sha2 crate. Its result is named by
/// `sha256_digest`; the crate's output size for SHA-256 is 32 bytes.
#[verifier::external_body]
fn sha256(data: &[u8]) -> (r: Vec<u8>)
    ensures
        r@ == sha256_digest(data@),
        r@.len() == 32,
{
    Sha256::digest(data).to_vec()
}

/// The lower-case hexadecimal digit of a value below 16.
pub open spec fn hex_digit(n: int) -> char {
    if n < 10 {
        ('0' as int + n) as char
    } else {
        ('a' as int + n - 10) as char
    }
}

/// A decimal digit becomes the letter at the same place from `a`; any other
/// character is kept.
pub open spec fn digit_to_letter(c: char) -> char {
    if '0' <= c && c <= '9' {
        ('a' as int + (c as int - '0' as int)) as char
    } else {
        c
    }
}

/// Lower-case hexadecimal of bytes, two digits per byte, high nibble first.
pub open spec fn lower_hex(b: Seq<u8>) -> Seq<char> {
    Seq::new(
        2 * b.len(),
        |i: int|
            if i % 2 == 0 {
                hex_digit((b[i / 2] / 16) as int)
            } else {
                hex_digit((b[i / 2] % 16) as int)
            },
    )
}

/// The first 20 hexadecimal digits of a digest (all of them when there are
/// fewer), with the decimal digits replaced by letters.
pub open spec fn digest_letters(b: Seq<u8>) -> Seq<char> {
    let hex = lower_hex(b);
    Seq::new(
        if hex.len() < 20 {
            hex.len()
        } else {
            20nat
        },
        |i: int| digit_to_letter(hex[i]),
    )
}

/// The letters of the SHA-256 digest of the URL's UTF-8 bytes.
pub open spec fn url_letters(url: Seq<char>) -> Seq<char> {
    digest_letters(sha256_digest(vstd::utf8::encode_utf8(url)))
}

fn nibble_letter(n: u8) -> (c: char)
    requires
        n < 16,
    ensures
        c == digit_to_letter(hex_digit(n as int)),
{
    if n < 10 {
        let code: u32 = 97 + n as u32;
        char_from_ascii(code)
    } else {
        let code: u32 = 97 + (n - 10) as u32;
        char_from_ascii(code)
    }
}

/// The letters a digest gives: its first 20 hexadecimal digits, each
/// decimal digit replaced by the letter at the same place from `a`.
pub fn letters_of_digest(digest: &[u8]) -> (r: Vec<char>)
    ensures
        r@ == digest_letters(digest@),
        forall|i: int| 0 <= i < r@.len() ==> 'a' <= #[trigger] r@[i] && r@[i] <= 'j',
{
    let ghost hex = lower_hex(digest@);
    let mut r: Vec<char> = Vec::new();
    let mut k: usize = 0;
    while k < digest.len() && k < 10
        invariant
            hex == lower_hex(digest@),
            k <= digest@.len(),
            k <= 10,
            r@.len() == 2 * k,
            forall|i: int| 0 <= i < 2 * k ==> r@[i] == digit_to_letter(#[trigger] hex[i]),
            forall|i: int| 0 <= i < 2 * k ==> 'a' <= #[trigger] r@[i] && r@[i] <= 'j',
        decreases 10 - k,
    {
        let b = digest[k];
        let hi = nibble_letter(b / 16);
        let lo = nibble_letter(b % 16);
        assert(hex[2 * k as int] == hex_digit((b / 16) as int)) by {
            assert((2 * k as int) / 2 == k as int);
            assert((2 * k as int) % 2 == 0);
        }
        assert(hex[2 * k as int + 1] == hex_digit((b % 16) as int)) by {
            assert((2 * k as int + 1) / 2 == k as int);
            assert((2 * k as int + 1) % 2 == 1);
        }
        proof {
            lemma_letter_in_range(digest@, 2 * k as int);
            lemma_letter_in_range(digest@, 2 * k as int + 1);
        }
        r.push(hi);
        r.push(lo);
        k = k + 1;
    }
    assert(r@ =~= digest_letters(digest@));
    r
}

/// The 20 letters that a URL's label ends with.
pub fn url_label_letters(url: &str) -> (r: Vec<char>)
    ensures
        r@ == url_letters(url@),
        r@.len() == 20,
        forall|i: int| 0 <= i < 20 ==> 'a' <= #[trigger] r@[i] && r@[i] <= 'j',
{
    let bytes = url.as_bytes();
    let digest = sha256(bytes);
    letters_of_digest(digest.as_slice())
}

proof fn lemma_letter_in_range(b: Seq<u8>, i: int)
    requires
        0 <= i < 2 * b.len(),
    ensures
        'a' <= digit_to_letter(lower_hex(b)[i]) <= 'j',
{
    let n: int = if i % 2 == 0 {
        (b[i / 2] / 16) as int
    } else {
        (b[i / 2] % 16) as int
    };
    assert(0 <= n < 16);
    assert(lower_hex(b)[i] == hex_digit(n));
}

} // verus!
