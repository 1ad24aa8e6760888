//! The key of a compiled-output cache entry: the SHA-1 digest of a module's
//! file name followed by its source text, in lowercase hexadecimal.
use vstd::prelude::*;
use vstd::string::StringSliceAdditionalSpecFns;
use vstd::utf8::encode_utf8;
use crate::text::push_char;

verus! {

/// The SHA-1 digest of `data`.
pub uninterp spec fn sha1_of(data: Seq<u8>) -> Seq<u8>;

/// Relies on `ring::digest::Context` with SHA-1: the digest of the bytes of
/// `first` followed by those of `second`, twenty bytes long.
#[verifier::external_body]
fn sha1_digest(first: &str, second: &str) -> (r: Vec<u8>)
    ensures
        r@ == sha1_of(first.spec_bytes() + second.spec_bytes()),
        r@.len() == 20,
{
    let mut ctx = ring::digest::Context::new(&ring::digest::SHA1_FOR_LEGACY_USE_ONLY);
    ctx.update(first.as_bytes());
    ctx.update(second.as_bytes());
    ctx.finish().as_ref().to_vec()
}

/// The lowercase hexadecimal digit for `d < 16`.
pub open spec fn hex_digit(d: u8) -> char {
    if d < 10 {
        (('0' as u8) + d) as char
    } else {
        (('a' as u8) + (d - 10)) as char
    }
}

/// Two lowercase hexadecimal digits for each byte, high digit first.
pub open spec fn hex_of(b: Seq<u8>) -> Seq<char>
    decreases b.len(),
{
    if b.len() == 0 {
        Seq::empty()
    } else {
        hex_of(b.drop_last()) + seq![hex_digit(b.last() / 16), hex_digit(b.last() % 16)]
    }
}

/// The cache key of a module's file name and source text.
pub open spec fn digest_of(filename: Seq<char>, source_code: Seq<char>) -> Seq<char> {
    hex_of(sha1_of(encode_utf8(filename) + encode_utf8(source_code)))
}

proof fn lemma_hex_len(b: Seq<u8>)
    ensures
        hex_of(b).len() == 2 * b.len(),
    decreases b.len(),
{
    if b.len() > 0 {
        lemma_hex_len(b.drop_last());
    }
}

proof fn lemma_hex_digit_injective(x: u8, y: u8)
    requires
        x < 16,
        y < 16,
        hex_digit(x) == hex_digit(y),
    ensures
        x == y,
{
}

/// Hexadecimal text tells bytes apart: two byte strings with the same text
/// are equal, so distinct digests give distinct cache keys.
pub proof fn lemma_hex_injective(a: Seq<u8>, b: Seq<u8>)
    requires
        hex_of(a) == hex_of(b),
    ensures
        a == b,
    decreases a.len(),
{
    lemma_hex_len(a);
    lemma_hex_len(b);
    if a.len() > 0 {
        let ha = hex_of(a);
        let hb = hex_of(b);
        let n = ha.len() as int;
        assert(ha[n - 2] == hex_digit(a.last() / 16));
        assert(hb[n - 2] == hex_digit(b.last() / 16));
        assert(ha[n - 1] == hex_digit(a.last() % 16));
        assert(hb[n - 1] == hex_digit(b.last() % 16));
        lemma_hex_digit_injective(a.last() / 16, b.last() / 16);
        lemma_hex_digit_injective(a.last() % 16, b.last() % 16);
        assert(ha.subrange(0, n - 2) =~= hex_of(a.drop_last()));
        assert(hb.subrange(0, n - 2) =~= hex_of(b.drop_last()));
        lemma_hex_injective(a.drop_last(), b.drop_last());
        assert(a.last() == b.last()) by (nonlinear_arith)
            requires
                a.last() / 16 == b.last() / 16,
                a.last() % 16 == b.last() % 16,
        ;
        assert(a =~= a.drop_last().push(a.last()));
        assert(b =~= b.drop_last().push(b.last()));
    }
}

/// The cache key is a function of the file name and source text alone, and
/// two pairs whose digests differ get different keys.
pub proof fn lemma_digest_deterministic(
    f1: Seq<char>,
    s1: Seq<char>,
    f2: Seq<char>,
    s2: Seq<char>,
)
    ensures
        (f1 == f2 && s1 == s2) ==> digest_of(f1, s1) == digest_of(f2, s2),
        sha1_of(encode_utf8(f1) + encode_utf8(s1)) != sha1_of(encode_utf8(f2) + encode_utf8(s2))
            ==> digest_of(f1, s1) != digest_of(f2, s2),
{
    if sha1_of(encode_utf8(f1) + encode_utf8(s1)) != sha1_of(encode_utf8(f2) + encode_utf8(s2)) {
        if digest_of(f1, s1) == digest_of(f2, s2) {
            lemma_hex_injective(
                sha1_of(encode_utf8(f1) + encode_utf8(s1)),
                sha1_of(encode_utf8(f2) + encode_utf8(s2)),
            );
        }
    }
}

/// The lowercase hexadecimal digit for `d`.
fn hex_char(d: u8) -> (c: char)
    requires
        d < 16,
    ensures
        c == hex_digit(d),
{
    if d < 10 {
        ('0' as u8 + d) as char
    } else {
        ('a' as u8 + (d - 10)) as char
    }
}

/// Two lowercase hexadecimal digits for each byte of `bytes`.
pub fn to_hex(bytes: &Vec<u8>) -> (r: String)
    ensures
        r@ == hex_of(bytes@),
{
    let mut out = String::new();
    let mut i: usize = 0;
    while i < bytes.len()
        invariant
            i <= bytes@.len(),
            out@ == hex_of(bytes@.subrange(0, i as int)),
        decreases bytes.len() - i,
    {
        let b = bytes[i];
        push_char(&mut out, hex_char(b / 16));
        push_char(&mut out, hex_char(b % 16));
        assert(bytes@.subrange(0, i + 1).drop_last() =~= bytes@.subrange(0, i as int));
        i = i + 1;
    }
    assert(bytes@.subrange(0, bytes@.len() as int) =~= bytes@);
    out
}

/// The cache key of a module's file name and source text.
pub fn source_code_hash(filename: &str, source_code: &str) -> (r: String)
    ensures
        r@ == digest_of(filename@, source_code@),
        r@.len() == 40,
{
    let d = sha1_digest(filename, source_code);
    proof {
        lemma_hex_len(d@);
    }
    to_hex(&d)
}

} // verus!
