use vstd::prelude::*;
use vstd::string::*;

use crate::plan::HashAlgorithm;
use sha2::Digest;

verus! {

/// The MD5 digest of the bytes.
pub uninterp spec fn md5_of(bytes: Seq<u8>) -> Seq<u8>;

/// The SHA-256 digest of the bytes.
pub uninterp spec fn sha256_of(bytes: Seq<u8>) -> Seq<u8>;

/// The SHA-512 digest of the bytes.
pub uninterp spec fn sha512_of(bytes: Seq<u8>) -> Seq<u8>;

/// Relies on md-5's `Md5::digest`: a function of the bytes alone, 16 bytes long.
#[verifier::external_body]
fn md5_digest(bytes: &Vec<u8>) -> (r: Vec<u8>)
    ensures
        r@ == md5_of(bytes@),
        r@.len() == 16,
{
    md5::Md5::digest(bytes.as_slice()).to_vec()
}

/// Relies on sha2's `Sha256::digest`: a function of the bytes alone, 32 bytes long.
#[verifier::external_body]
fn sha256_digest(bytes: &Vec<u8>) -> (r: Vec<u8>)
    ensures
        r@ == sha256_of(bytes@),
        r@.len() == 32,
{
    sha2::Sha256::digest(bytes.as_slice()).to_vec()
}

/// Relies on sha2's `Sha512::digest`: a function of the bytes alone, 64 bytes long.
#[verifier::external_body]
fn sha512_digest(bytes: &Vec<u8>) -> (r: Vec<u8>)
    ensures
        r@ == sha512_of(bytes@),
        r@.len() == 64,
{
    sha2::Sha512::digest(bytes.as_slice()).to_vec()
}

pub open spec fn digest_of(h: HashAlgorithm, bytes: Seq<u8>) -> Seq<u8> {
    match h {
        HashAlgorithm::Md5 => md5_of(bytes),
        HashAlgorithm::Sha256 => sha256_of(bytes),
        HashAlgorithm::Sha512 => sha512_of(bytes),
    }
}

pub open spec fn hex_alphabet() -> Seq<char> {
    seq!['0', '1', '2', '3', '4', '5', '6', '7', '8', '9', 'a', 'b', 'c', 'd', 'e', 'f']
}

/// Lowercase hex: two digits per byte, high nibble first.
pub open spec fn hex_text(b: Seq<u8>) -> Seq<char>
    decreases b.len(),
{
    if b.len() == 0 {
        seq![]
    } else {
        hex_text(b.drop_last()) + seq![hex_alphabet()[(b.last() / 16) as int], hex_alphabet()[(b.last() % 16) as int]]
    }
}

/// The text of a digest sidecar: the digest of `content` in lowercase hex.
pub open spec fn sidecar_content(h: HashAlgorithm, content: Seq<u8>) -> Seq<char> {
    hex_text(digest_of(h, content))
}

/// The bytes in lowercase hex.
pub fn to_hex(b: &Vec<u8>) -> (r: String)
    ensures
        r@ == hex_text(b@),
{
    let digits = "0123456789abcdef";
    proof {
        reveal_strlit("0123456789abcdef");
        assert(digits@ =~= hex_alphabet());
    }
    let mut r = String::new();
    let mut k: usize = 0;
    while k < b.len()
        invariant
            k <= b.len(),
            digits@ == hex_alphabet(),
            r@ == hex_text(b@.subrange(0, k as int)),
        decreases b.len() - k,
    {
        let hi = (b[k] / 16) as usize;
        let lo = (b[k] % 16) as usize;
        let ghost before = r@;
        r.append(digits.substring_char(hi, hi + 1));
        r.append(digits.substring_char(lo, lo + 1));
        proof {
            let s = b@.subrange(0, k + 1);
            assert(s.drop_last() =~= b@.subrange(0, k as int));
            assert(r@ =~= before + seq![hex_alphabet()[hi as int], hex_alphabet()[lo as int]]);
        }
        k = k + 1;
    }
    assert(b@.subrange(0, b.len() as int) =~= b@);
    r
}

/// The digest of `content` for the algorithm.
pub fn digest(h: HashAlgorithm, content: &Vec<u8>) -> (r: Vec<u8>)
    ensures
        r@ == digest_of(h, content@),
{
    match h {
        HashAlgorithm::Md5 => md5_digest(content),
        HashAlgorithm::Sha256 => sha256_digest(content),
        HashAlgorithm::Sha512 => sha512_digest(content),
    }
}

/// The full text of the sidecar of an archive whose bytes are `content`.
pub fn sidecar_text(h: HashAlgorithm, content: &Vec<u8>) -> (r: String)
    ensures
        r@ == sidecar_content(h, content@),
{
    let d = digest(h, content);
    to_hex(&d)
}

/// Recomputes the digest of `content` and checks it against a sidecar's text.
pub fn sidecar_matches(h: HashAlgorithm, content: &Vec<u8>, sidecar: &String) -> (r: bool)
    ensures
        r == (sidecar@ == sidecar_content(h, content@)),
{
    let expected = sidecar_text(h, content);
    *sidecar == expected
}

/// Hex text has two digits per byte.
pub proof fn lemma_hex_text_len(b: Seq<u8>)
    ensures
        hex_text(b).len() == 2 * b.len(),
    decreases b.len(),
{
    if b.len() > 0 {
        lemma_hex_text_len(b.drop_last());
    }
}

/// Hex text is faithful: two byte strings have the same text exactly when
/// they are equal.
pub proof fn lemma_hex_text_injective(a: Seq<u8>, b: Seq<u8>)
    ensures
        hex_text(a) == hex_text(b) <==> a == b,
    decreases a.len(),
{
    if hex_text(a) == hex_text(b) {
        lemma_hex_text_len(a);
        lemma_hex_text_len(b);
        if a.len() > 0 {
            let ta = hex_text(a);
            let n = ta.len();
            let x = a.last();
            let y = b.last();
            assert(hex_text(a.drop_last()) =~= ta.subrange(0, n - 2));
            assert(hex_text(b.drop_last()) =~= ta.subrange(0, n - 2));
            lemma_hex_text_injective(a.drop_last(), b.drop_last());
            assert(ta[n - 2] == hex_alphabet()[(x / 16) as int]);
            assert(ta[n - 2] == hex_alphabet()[(y / 16) as int]);
            assert(ta[n - 1] == hex_alphabet()[(x % 16) as int]);
            assert(ta[n - 1] == hex_alphabet()[(y % 16) as int]);
            assert(x / 16 == y / 16 && x % 16 == y % 16);
            assert(x == y) by (nonlinear_arith)
                requires
                    x / 16 == y / 16,
                    x % 16 == y % 16,
            ;
            assert(a =~= a.drop_last().push(x));
            assert(b =~= b.drop_last().push(y));
        } else {
            assert(a =~= b);
        }
    }
}

/// A sidecar's text, recomputed over the same archive bytes with the same
/// algorithm, comes out the same; and two sidecars of one algorithm agree
/// exactly when the digests they were written from agree.
pub proof fn lemma_sidecar_reproducible(h: HashAlgorithm, archive: Seq<u8>, recomputed_over: Seq<u8>)
    ensures
        archive == recomputed_over ==> sidecar_content(h, archive) == sidecar_content(h, recomputed_over),
        sidecar_content(h, archive) == sidecar_content(h, recomputed_over)
            <==> digest_of(h, archive) == digest_of(h, recomputed_over),
{
    lemma_hex_text_injective(digest_of(h, archive), digest_of(h, recomputed_over));
}

} // verus!
