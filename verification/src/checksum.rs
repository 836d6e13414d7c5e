//! SHA-256 of the finished archive, as lower-case hex text.

use vstd::prelude::*;

use crate::text::push_char;

verus! {

/// The SHA-256 digest of `data`, as `sha2` computes it.
pub uninterp spec fn sha256_of(data: Seq<u8>) -> Seq<u8>;

/// `sha2::Sha256::digest`: the 32-byte SHA-256 digest of `data`.
#[verifier::external_body]
fn sha256(data: &[u8]) -> (d: Vec<u8>)
    ensures
        d@ == sha256_of(data@),
        d@.len() == 32,
{
    <sha2::Sha256 as sha2::Digest>::digest(data).to_vec()
}

/// SHA-256 of `data` as 64 lower-case hex characters.
pub fn sha256_hex(data: &[u8]) -> (h: String)
    ensures
        h@ == hex_text(sha256_of(data@)),
        h@.len() == 64,
{
    let digest = sha256(data);
    hex(digest.as_slice())
}

/// The lower-case hex digit for `d < 16`.
pub open spec fn hex_digit(d: nat) -> char {
    if d < 10 {
        ((d + 48) as u32) as char
    } else {
        ((d + 87) as u32) as char
    }
}

/// Lower-case hex text of `bytes`: two digits per byte, high nibble first.
pub open spec fn hex_text(bytes: Seq<u8>) -> Seq<char>
    decreases bytes.len(),
{
    if bytes.len() == 0 {
        Seq::empty()
    } else {
        hex_text(bytes.drop_last()) + seq![
            hex_digit((bytes.last() / 16) as nat),
            hex_digit((bytes.last() % 16) as nat),
        ]
    }
}

/// The length of the hex text is twice the number of bytes.
pub proof fn lemma_hex_len(bytes: Seq<u8>)
    ensures
        hex_text(bytes).len() == 2 * bytes.len(),
    decreases bytes.len(),
{
    if bytes.len() > 0 {
        lemma_hex_len(bytes.drop_last());
    }
}

/// The lower-case hex digit character for `d`.
fn nibble(d: u8) -> (c: char)
    requires
        d < 16,
    ensures
        c == hex_digit(d as nat),
{
    if d < 10 {
        (d + 48) as char
    } else {
        (d + 87) as char
    }
}

/// Lower-case hex text of `bytes` (`{b:02x}` for each byte, in order).
pub fn hex(bytes: &[u8]) -> (s: String)
    ensures
        s@ == hex_text(bytes@),
        s@.len() == 2 * bytes@.len(),
{
    let mut s = String::new();
    let mut i: usize = 0;
    while i < bytes.len()
        invariant
            i <= bytes@.len(),
            s@ == hex_text(bytes@.take(i as int)),
        decreases bytes@.len() - i,
    {
        let b = bytes[i];
        push_char(&mut s, nibble(b / 16));
        push_char(&mut s, nibble(b % 16));
        assert(bytes@.take(i + 1).drop_last() =~= bytes@.take(i as int));
        assert(s@ =~= hex_text(bytes@.take(i + 1)));
        i += 1;
    }
    assert(bytes@.take(i as int) =~= bytes@);
    proof {
        lemma_hex_len(bytes@);
    }
    s
}

/// A lower-case hex digit character: `0`..`9` or `a`..`f`.
pub open spec fn is_hex_char(c: char) -> bool {
    (48 <= (c as u32) <= 57) || (97 <= (c as u32) <= 102)
}

proof fn lemma_hex_digit(d: nat)
    requires
        d < 16,
    ensures
        is_hex_char(hex_digit(d)),
        (hex_digit(d) as u32) == if d < 10 {
            d + 48
        } else {
            d + 87
        },
{
}

/// The hex text of two runs of bytes is the hex text of the first followed
/// by that of the second.
pub proof fn law_hex_concat(a: Seq<u8>, b: Seq<u8>)
    ensures
        hex_text(a + b) == hex_text(a) + hex_text(b),
    decreases b.len(),
{
    if b.len() == 0 {
        assert(a + b =~= a);
        assert(hex_text(a) + hex_text(b) =~= hex_text(a));
    } else {
        law_hex_concat(a, b.drop_last());
        assert((a + b).drop_last() =~= a + b.drop_last());
        assert((a + b).last() == b.last());
        assert(hex_text(a + b) =~= hex_text(a) + hex_text(b));
    }
}

/// Every character of the hex text is a lower-case hex digit.
pub proof fn law_hex_digits(bytes: Seq<u8>)
    ensures
        forall|i: int| 0 <= i < hex_text(bytes).len() ==> is_hex_char(#[trigger] hex_text(bytes)[i]),
    decreases bytes.len(),
{
    if bytes.len() > 0 {
        law_hex_digits(bytes.drop_last());
        lemma_hex_len(bytes.drop_last());
        lemma_hex_digit((bytes.last() / 16) as nat);
        lemma_hex_digit((bytes.last() % 16) as nat);
    }
}

/// Different bytes give different hex texts: the text determines the bytes.
pub proof fn law_hex_injective(a: Seq<u8>, b: Seq<u8>)
    requires
        hex_text(a) == hex_text(b),
    ensures
        a == b,
    decreases a.len(),
{
    lemma_hex_len(a);
    lemma_hex_len(b);
    if a.len() > 0 {
        let ta = hex_text(a.drop_last());
        let tb = hex_text(b.drop_last());
        lemma_hex_len(a.drop_last());
        lemma_hex_len(b.drop_last());
        let n = hex_text(a).len() as int;
        let (ha, la) = ((a.last() / 16) as nat, (a.last() % 16) as nat);
        let (hb, lb) = ((b.last() / 16) as nat, (b.last() % 16) as nat);
        assert(hex_text(a)[n - 2] == hex_digit(ha));
        assert(hex_text(b)[n - 2] == hex_digit(hb));
        assert(hex_text(a)[n - 1] == hex_digit(la));
        assert(hex_text(b)[n - 1] == hex_digit(lb));
        lemma_hex_digit(ha);
        lemma_hex_digit(hb);
        lemma_hex_digit(la);
        lemma_hex_digit(lb);
        assert(ha == hb);
        assert(la == lb);
        assert(a.last() == b.last());
        assert(hex_text(a).subrange(0, n - 2) =~= ta);
        assert(hex_text(b).subrange(0, n - 2) =~= tb);
        law_hex_injective(a.drop_last(), b.drop_last());
        assert(a =~= a.drop_last().push(a.last()));
        assert(b =~= b.drop_last().push(b.last()));
    } else {
        assert(a =~= b);
    }
}

/// Byte `i` is written as the pair of characters at `2i` and `2i + 1`: its
/// high nibble, then its low nibble, as lower-case hex digits.
pub proof fn law_hex_pairs(bytes: Seq<u8>, i: int)
    requires
        0 <= i < bytes.len(),
    ensures
        hex_text(bytes)[2 * i] == hex_digit((bytes[i] / 16) as nat),
        hex_text(bytes)[2 * i + 1] == hex_digit((bytes[i] % 16) as nat),
    decreases bytes.len(),
{
    lemma_hex_len(bytes.drop_last());
    if i < bytes.len() - 1 {
        law_hex_pairs(bytes.drop_last(), i);
    }
}

} // verus!
