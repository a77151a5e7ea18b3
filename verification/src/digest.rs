//! The fingerprint of a file's contents.

use sha2::Digest;
use vstd::prelude::*;

verus! {

/// The SHA-256 digest of some bytes.
pub uninterp spec fn sha256_of(data: Seq<u8>) -> Seq<u8>;

/// Calls `sha2::Sha256::digest`, which hashes the whole of `data` at once. The result is a
/// function of the bytes alone and has 32 bytes.
#[verifier::external_body]
fn sha256(data: &[u8]) -> (res: Vec<u8>)
    ensures
        res@ == sha256_of(data@),
        res@.len() == 32,
{
    sha2::Sha256::digest(data).to_vec()
}

/// The digit of a number below sixteen, in lower case.
pub open spec fn hex_digit(n: u8) -> char {
    if n < 10 {
        (48 + n) as char
    } else {
        (87 + n) as char
    }
}

/// Bytes as text, two digits for each.
pub open spec fn hex_of(bytes: Seq<u8>) -> Seq<char>
    decreases bytes.len(),
{
    if bytes.len() == 0 {
        seq![]
    } else {
        hex_of(bytes.drop_last()).push(hex_digit(bytes.last() / 16)).push(
            hex_digit(bytes.last() % 16),
        )
    }
}

fn digit(n: u8) -> (res: char)
    requires
        n < 16,
    ensures
        res == hex_digit(n),
{
    if n < 10 {
        (48 + n) as char
    } else {
        (87 + n) as char
    }
}

/// Writes bytes as text, two digits for each, in lower case.
pub fn hex(bytes: &[u8]) -> (res: String)
    ensures
        res@ == hex_of(bytes@),
{
    let mut res: String = String::new();
    let mut i: usize = 0;
    assert(bytes@.take(0) =~= seq![]);
    while i < bytes.len()
        invariant
            i <= bytes@.len(),
            res@ == hex_of(bytes@.take(i as int)),
        decreases bytes@.len() - i,
    {
        assert(bytes@.take(i + 1).drop_last() =~= bytes@.take(i as int));
        res.push(digit(bytes[i] / 16));
        res.push(digit(bytes[i] % 16));
        i += 1;
    }
    assert(bytes@.take(bytes@.len() as int) =~= bytes@);
    res
}

/// The fingerprint of a file's contents: their SHA-256 digest, as text.
pub open spec fn hash_of(contents: Seq<u8>) -> Seq<char> {
    hex_of(sha256_of(contents))
}

/// The fingerprint of a file's contents.
pub fn calculate_hash(contents: &[u8]) -> (res: String)
    ensures
        res@ == hash_of(contents@),
        res@.len() == 64,
{
    let digest: Vec<u8> = sha256(contents);
    proof {
        lemma_hex_len(digest@);
    }
    hex(digest.as_slice())
}

proof fn lemma_hex_len(bytes: Seq<u8>)
    ensures
        hex_of(bytes).len() == 2 * bytes.len(),
    decreases bytes.len(),
{
    if bytes.len() > 0 {
        lemma_hex_len(bytes.drop_last());
    }
}

/// The digits of a byte tell the byte: no two byte strings have one hexadecimal form.
pub proof fn lemma_hex_injective(a: Seq<u8>, b: Seq<u8>)
    requires
        hex_of(a) == hex_of(b),
    ensures
        a == b,
    decreases a.len(),
{
    lemma_hex_len(a);
    lemma_hex_len(b);
    if a.len() == 0 {
        assert(a =~= b);
    } else {
        let x = hex_of(a);
        let y = hex_of(b);
        let n = x.len() as int;
        assert(x[n - 1] == hex_digit(a.last() % 16));
        assert(y[n - 1] == hex_digit(b.last() % 16));
        assert(x[n - 2] == hex_digit(a.last() / 16));
        assert(y[n - 2] == hex_digit(b.last() / 16));
        assert(a.last() == b.last());
        assert(hex_of(a.drop_last()) =~= x.take(n - 2));
        assert(hex_of(b.drop_last()) =~= y.take(n - 2));
        lemma_hex_injective(a.drop_last(), b.drop_last());
        assert(a =~= a.drop_last().push(a.last()));
        assert(b =~= b.drop_last().push(b.last()));
    }
}

/// The fingerprint writes out every byte of the digest of the whole contents, the upper half of a
/// byte before the lower, in the digits 0 to 9 and a to f.
pub proof fn lemma_hash_spells_digest(contents: Seq<u8>, i: int)
    requires
        0 <= i < sha256_of(contents).len(),
    ensures
        hash_of(contents).len() == 2 * sha256_of(contents).len(),
        hash_of(contents)[2 * i] == "0123456789abcdef"@[sha256_of(contents)[i] as int / 16],
        hash_of(contents)[2 * i + 1] == "0123456789abcdef"@[sha256_of(contents)[i] as int % 16],
{
    lemma_hex_len(sha256_of(contents));
    lemma_hex_digits(sha256_of(contents), i);
}

/// Two files have one fingerprint exactly if their contents have one digest.
pub proof fn lemma_hash_tells_digest(a: Seq<u8>, b: Seq<u8>)
    ensures
        hash_of(a) == hash_of(b) <==> sha256_of(a) == sha256_of(b),
{
    if hash_of(a) == hash_of(b) {
        lemma_hex_injective(sha256_of(a), sha256_of(b));
    }
}

/// Each byte is written in two digits, the upper half first, at twice its place.
pub proof fn lemma_hex_digits(bytes: Seq<u8>, i: int)
    requires
        0 <= i < bytes.len(),
    ensures
        hex_of(bytes).len() == 2 * bytes.len(),
        hex_of(bytes)[2 * i] == "0123456789abcdef"@[bytes[i] as int / 16],
        hex_of(bytes)[2 * i + 1] == "0123456789abcdef"@[bytes[i] as int % 16],
    decreases bytes.len(),
{
    reveal_strlit("0123456789abcdef");
    lemma_hex_len(bytes);
    let rest = bytes.drop_last();
    lemma_hex_len(rest);
    if i < rest.len() {
        lemma_hex_digits(rest, i);
        assert(rest[i] == bytes[i]);
    } else {
        assert(bytes.last() == bytes[i]);
    }
}

} // verus!
