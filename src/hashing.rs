use vstd::prelude::*;

use crate::text::{
    chars_of, is_ws, string_of_range, trim, trim_end, trim_end_index, trim_start_index,
};

verus! {

/// The SHA-256 digest of the UTF-8 encoding of a text.
pub uninterp spec fn sha256_of(s: Seq<char>) -> Seq<u8>;

/// Relies on `sha2::Sha256::digest` over `s.as_bytes()`: a 32-byte digest that
/// depends on the text alone.
#[verifier::external_body]
fn sha256_digest(s: &str) -> (r: Vec<u8>)
    ensures
        r@ == sha256_of(s@),
        r@.len() == 32,
{
    <sha2::Sha256 as sha2::Digest>::digest(s.as_bytes()).to_vec()
}

/// Lower-case hexadecimal digit of `n` (below 16).
pub open spec fn hex_digit(n: u8) -> char {
    seq!['0', '1', '2', '3', '4', '5', '6', '7', '8', '9', 'a', 'b', 'c', 'd', 'e', 'f'][n as int]
}

/// Two lower-case hexadecimal digits per byte, high half first.
pub open spec fn hex_of(b: Seq<u8>) -> Seq<char>
    decreases b.len(),
{
    if b.len() == 0 {
        seq![]
    } else {
        seq![hex_digit(b[0] / 16), hex_digit(b[0] % 16)] + hex_of(b.subrange(1, b.len() as int))
    }
}

/// Relies on `hex::encode`: two lower-case hexadecimal digits per byte, high half first.
#[verifier::external_body]
fn hex_encode(b: &Vec<u8>) -> (r: String)
    ensures
        r@ == hex_of(b@),
{
    hex::encode(b)
}

pub proof fn lemma_hex_len(b: Seq<u8>)
    ensures
        hex_of(b).len() == 2 * b.len(),
    decreases b.len(),
{
    if b.len() > 0 {
        lemma_hex_len(b.subrange(1, b.len() as int));
    }
}

/// The content key of a block's text: the first 16 bytes of the SHA-256 digest
/// of the trimmed text, in hexadecimal.
pub open spec fn content_hash_of(t: Seq<char>) -> Seq<char> {
    hex_of(sha256_of(trim(t)).subrange(0, 16))
}

/// Computes the 32-digit content key of `content`.
pub fn compute_hash(content: &str) -> (r: String)
    ensures
        r@ == content_hash_of(content@),
        r@.len() == 32,
{
    let s = chars_of(content);
    let k = trim_end_index(&s, 0, s.len());
    let a = trim_start_index(&s, 0, k);
    assert(s@.subrange(0, s@.len() as int) =~= s@);
    let trimmed = string_of_range(&s, a, k);
    let digest = sha256_digest(trimmed.as_str());
    let mut prefix: Vec<u8> = Vec::new();
    let mut i: usize = 0;
    while i < 16
        invariant
            i <= 16,
            digest@.len() == 32,
            prefix@ == digest@.subrange(0, i as int),
        decreases 16 - i,
    {
        prefix.push(digest[i]);
        assert(prefix@ =~= digest@.subrange(0, i + 1));
        i = i + 1;
    }
    proof {
        lemma_hex_len(prefix@);
    }
    hex_encode(&prefix)
}

/// Trailing whitespace does not change a text's trimmed form.
proof fn lemma_trim_end_push_ws(s: Seq<char>, c: char)
    requires
        is_ws(c),
    ensures
        trim_end(s.push(c)) == trim_end(s),
{
    assert(s.push(c).drop_last() =~= s);
}

/// Content keys depend on the trimmed text only: texts that trim to the same
/// characters have the same key.
pub proof fn lemma_hash_of_trimmed(s: Seq<char>, t: Seq<char>)
    requires
        trim(s) == trim(t),
    ensures
        content_hash_of(s) == content_hash_of(t),
{
}

/// Appending whitespace to a text leaves its content key unchanged.
pub proof fn lemma_hash_trailing_whitespace(s: Seq<char>, c: char)
    requires
        is_ws(c),
    ensures
        content_hash_of(s.push(c)) == content_hash_of(s),
{
    lemma_trim_end_push_ws(s, c);
}

proof fn lemma_trim_end_prepend(c: char, s: Seq<char>)
    ensures
        trim_end(seq![c] + s) == (if trim_end(s).len() == 0 {
            trim_end(seq![c])
        } else {
            seq![c] + trim_end(s)
        }),
    decreases s.len(),
{
    if s.len() == 0 {
        assert(seq![c] + s =~= seq![c]);
    } else if is_ws(s.last()) {
        assert((seq![c] + s).drop_last() =~= seq![c] + s.drop_last());
        lemma_trim_end_prepend(c, s.drop_last());
    }
}

/// Prepending whitespace to a text leaves its content key unchanged.
pub proof fn lemma_hash_leading_whitespace(c: char, s: Seq<char>)
    requires
        is_ws(c),
    ensures
        content_hash_of(seq![c] + s) == content_hash_of(s),
{
    lemma_trim_end_prepend(c, s);
    assert(seq![c].drop_last() =~= Seq::<char>::empty());
    assert(trim_end(seq![c]) == trim_end(Seq::<char>::empty()));
    if trim_end(s).len() > 0 {
        assert((seq![c] + trim_end(s)).subrange(1, trim_end(s).len() as int + 1) =~= trim_end(s));
    }
    assert(trim(seq![c] + s) == trim(s));
}

} // verus!
