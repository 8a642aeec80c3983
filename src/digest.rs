use vstd::prelude::*;
use vstd::string::*;

verus! {

/// What MD5 makes of a byte sequence.
pub uninterp spec fn md5_of(data: Seq<u8>) -> Seq<u8>;

/// Relies on md-5's `Md5::digest`: the 16-byte MD5 digest of `data`, which
/// depends on the bytes alone.
#[verifier::external_body]
fn md5_digest(data: &[u8]) -> (r: [u8; 16])
    ensures
        r@ == md5_of(data@),
{
    <md5::Md5 as md5::Digest>::digest(data).into()
}

/// The lowercase hexadecimal digit for a value below 16.
pub open spec fn hex_digit(n: int) -> char {
    if n < 10 {
        ((48 + n) as u8) as char
    } else {
        ((87 + n) as u8) as char
    }
}

/// Lowercase hexadecimal text of a byte sequence: two digits per byte, high
/// nibble first.
pub open spec fn hex_text(b: Seq<u8>) -> Seq<char> {
    Seq::new(
        2 * b.len(),
        |i: int|
            if i % 2 == 0 {
                hex_digit(b[i / 2] as int / 16)
            } else {
                hex_digit(b[i / 2] as int % 16)
            },
    )
}

/// Relies on hex's `encode`: each byte becomes two lowercase hexadecimal
/// digits, high nibble first.
#[verifier::external_body]
fn hex_encode(b: &[u8]) -> (r: String)
    ensures
        r@ == hex_text(b@),
{
    hex::encode(b)
}

/// The fingerprint code of a digest: the first sixteen hexadecimal digits of
/// the digest, in four groups of four joined by `-`.
pub open spec fn fingerprint_code(digest: Seq<u8>) -> Seq<char> {
    let h = hex_text(digest);
    h.subrange(0, 4) + seq!['-'] + h.subrange(4, 8) + seq!['-'] + h.subrange(8, 12) + seq!['-']
        + h.subrange(12, 16)
}

/// True when `c` is a lowercase hexadecimal digit.
pub open spec fn is_lower_hex(c: char) -> bool {
    ('0' <= c && c <= '9') || ('a' <= c && c <= 'f')
}

/// True when `s` reads `xxxx-xxxx-xxxx-xxxx`, each `x` a lowercase
/// hexadecimal digit.
pub open spec fn is_code_format(s: Seq<char>) -> bool {
    &&& s.len() == 19
    &&& forall|i: int|
        0 <= i < 19 ==> if i == 4 || i == 9 || i == 14 {
            #[trigger] s[i] == '-'
        } else {
            is_lower_hex(s[i])
        }
}

proof fn lemma_hex_digit_is_lower_hex(n: int)
    requires
        0 <= n < 16,
    ensures
        is_lower_hex(hex_digit(n)),
{
}

/// Every fingerprint code has the shape `xxxx-xxxx-xxxx-xxxx` in lowercase
/// hexadecimal digits.
pub proof fn lemma_code_format(digest: Seq<u8>)
    requires
        digest.len() >= 8,
    ensures
        is_code_format(fingerprint_code(digest)),
{
    let h = hex_text(digest);
    assert forall|i: int| 0 <= i < h.len() implies is_lower_hex(#[trigger] h[i]) by {
        lemma_hex_digit_is_lower_hex(digest[i / 2] as int / 16);
        lemma_hex_digit_is_lower_hex(digest[i / 2] as int % 16);
    }
}

/// The two bytes at `i` and `i + 1`, in hexadecimal.
fn hex_pair(digest: &[u8], i: usize) -> (r: String)
    requires
        i + 1 < digest@.len(),
    ensures
        r@ == hex_text(digest@).subrange(2 * i as int, 2 * i + 4),
{
    let pair: Vec<u8> = vec![digest[i], digest[i + 1]];
    let r = hex_encode(pair.as_slice());
    assert(r@ =~= hex_text(digest@).subrange(2 * i as int, 2 * i + 4));
    r
}

/// Formats a digest as a fingerprint code.
pub fn code_from_digest(digest: &[u8]) -> (r: String)
    requires
        digest@.len() >= 8,
    ensures
        r@ == fingerprint_code(digest@),
{
    let mut r = hex_pair(digest, 0);
    let g1 = hex_pair(digest, 2);
    let g2 = hex_pair(digest, 4);
    let g3 = hex_pair(digest, 6);
    proof {
        reveal_strlit("-");
    }
    r.append("-");
    r.append(g1.as_str());
    r.append("-");
    r.append(g2.as_str());
    r.append("-");
    r.append(g3.as_str());
    assert(r@ =~= fingerprint_code(digest@));
    r
}

/// The fingerprint code of `data`: its MD5 digest, formatted.
pub fn code_of_bytes(data: &[u8]) -> (r: String)
    ensures
        r@ == fingerprint_code(md5_of(data@)),
        is_code_format(r@),
{
    let d = md5_digest(data);
    proof {
        lemma_code_format(d@);
    }
    code_from_digest(d.as_slice())
}

} // verus!
