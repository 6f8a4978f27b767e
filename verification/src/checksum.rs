//! SHA-256 checksums, written as lowercase hexadecimal.
//!
//! The hash itself is the work of the `sha2` crate and is taken on trust: the
//! library gives it a name, `sha256`, and proves everything else against that
//! name. A `Checksum` takes its input piece by piece, so a stream of any
//! length can be hashed in a fixed amount of memory.

use vstd::prelude::*;
use vstd::string::StrSliceExecFns;
use vstd::string::StringExecFns;

verus! {

/// A running SHA-256 computation of the `sha2` crate.
///
/// Nothing of its inside is known to the verifier; what it has taken in goes
/// by the name `absorbed`.
#[verifier::external_body]
pub struct Hasher {
    inner: sha2::Sha256,
}

/// The bytes that a hasher has taken in so far, in the order in which they
/// came.
pub uninterp spec fn absorbed(hasher: Hasher) -> Seq<u8>;

/// The SHA-256 digest of `data`, as `sha2` computes it.
pub uninterp spec fn sha256(data: Seq<u8>) -> Seq<u8>;

/// `sha2::Sha256::new`: a hasher that has taken in nothing yet.
#[verifier::external_body]
fn hasher_new() -> (hasher: Hasher)
    ensures
        absorbed(hasher) == Seq::<u8>::empty(),
{
    Hasher { inner: <sha2::Sha256 as sha2::Digest>::new() }
}

/// `sha2::Digest::update`: the hasher takes in `chunk`, behind what it has
/// already.
#[verifier::external_body]
fn hasher_update(hasher: &mut Hasher, chunk: &[u8])
    ensures
        absorbed(*final(hasher)) == absorbed(*old(hasher)) + chunk@,
{
    sha2::Digest::update(&mut hasher.inner, chunk);
}

/// `sha2::Digest::finalize`: the digest of all that the hasher has taken in.
/// It has 32 bytes, and it depends on nothing but those bytes.
#[verifier::external_body]
fn hasher_finalize(hasher: Hasher) -> (digest: Vec<u8>)
    ensures
        digest@ == sha256(absorbed(hasher)),
        digest@.len() == 32,
{
    sha2::Digest::finalize(hasher.inner).to_vec()
}

/// The sixteen digits, each at the index of its value.
pub const HEX_DIGITS: &'static str = "0123456789abcdef";

/// The digit for a value below sixteen.
pub open spec fn hex_digit(value: int) -> char {
    HEX_DIGITS@[value]
}

/// `bytes` in hexadecimal: two digits for each byte, the high half first.
pub open spec fn hex_lower(bytes: Seq<u8>) -> Seq<char> {
    Seq::new(
        2 * bytes.len(),
        |i: int|
            if i % 2 == 0 {
                hex_digit(bytes[i / 2] as int / 16)
            } else {
                hex_digit(bytes[i / 2] as int % 16)
            },
    )
}

/// The checksum of `data` as it is printed.
pub open spec fn checksum_text(data: Seq<u8>) -> Seq<char> {
    hex_lower(sha256(data))
}

/// What a hasher has taken in after `chunks` were handed to it one by one.
pub open spec fn fed(taken: Seq<u8>, chunks: Seq<Seq<u8>>) -> Seq<u8>
    decreases chunks.len(),
{
    if chunks.len() == 0 {
        taken
    } else {
        fed(taken + chunks.first(), chunks.drop_first())
    }
}

/// Makes the sixteen digits known to the verifier.
proof fn reveal_hex_digits()
    ensures
        HEX_DIGITS@ == seq![
            '0',
            '1',
            '2',
            '3',
            '4',
            '5',
            '6',
            '7',
            '8',
            '9',
            'a',
            'b',
            'c',
            'd',
            'e',
            'f',
        ],
        HEX_DIGITS.is_ascii(),
{
    reveal_strlit("0123456789abcdef");
    assert(HEX_DIGITS@ =~= seq![
        '0',
        '1',
        '2',
        '3',
        '4',
        '5',
        '6',
        '7',
        '8',
        '9',
        'a',
        'b',
        'c',
        'd',
        'e',
        'f',
    ]);
}

/// Different values have different digits.
pub proof fn lemma_hex_digit_is_injective(a: int, b: int)
    requires
        0 <= a < 16,
        0 <= b < 16,
        hex_digit(a) == hex_digit(b),
    ensures
        a == b,
{
    reveal_hex_digits();
}

/// Different bytes never read the same in hexadecimal: two checksums that
/// print alike are the same digest.
pub proof fn lemma_hex_lower_is_injective(a: Seq<u8>, b: Seq<u8>)
    requires
        hex_lower(a) == hex_lower(b),
    ensures
        a == b,
{
    assert(hex_lower(a).len() == 2 * a.len());
    assert(hex_lower(b).len() == 2 * b.len());
    assert forall|i: int| 0 <= i < a.len() implies a[i] == b[i] by {
        let high = hex_lower(a)[2 * i];
        let low = hex_lower(a)[2 * i + 1];
        assert(high == hex_lower(b)[2 * i]);
        assert(low == hex_lower(b)[2 * i + 1]);
        assert((2 * i) / 2 == i && (2 * i) % 2 == 0);
        assert((2 * i + 1) / 2 == i && (2 * i + 1) % 2 == 1);
        lemma_hex_digit_is_injective(a[i] as int / 16, b[i] as int / 16);
        lemma_hex_digit_is_injective(a[i] as int % 16, b[i] as int % 16);
    }
    assert(a =~= b);
}

/// The same bytes have the same checksum, whenever and wherever it is taken.
pub proof fn lemma_checksum_is_deterministic(a: Seq<u8>, b: Seq<u8>)
    requires
        a == b,
    ensures
        checksum_text(a) == checksum_text(b),
{
}

/// Handing chunks over one by one is handing over all their bytes in order.
pub proof fn lemma_fed_is_concatenation(taken: Seq<u8>, chunks: Seq<Seq<u8>>)
    ensures
        fed(taken, chunks) == taken + chunks.flatten(),
    decreases chunks.len(),
{
    if chunks.len() == 0 {
        assert(taken + chunks.flatten() =~= taken);
    } else {
        lemma_fed_is_concatenation(taken + chunks.first(), chunks.drop_first());
        assert(taken + chunks.first() + chunks.drop_first().flatten() =~= taken + (chunks.first()
            + chunks.drop_first().flatten()));
    }
}

/// How a stream is cut into chunks does not matter: two runs of chunks with
/// the same bytes in the same order give the same checksum.
pub proof fn lemma_chunking_is_irrelevant(first: Seq<Seq<u8>>, second: Seq<Seq<u8>>)
    requires
        first.flatten() == second.flatten(),
    ensures
        checksum_text(fed(Seq::empty(), first)) == checksum_text(fed(Seq::empty(), second)),
{
    lemma_fed_is_concatenation(Seq::empty(), first);
    lemma_fed_is_concatenation(Seq::empty(), second);
}

/// Writes `bytes` in lowercase hexadecimal.
pub fn hex_encode(bytes: &[u8]) -> (text: String)
    ensures
        text@ == hex_lower(bytes@),
{
    proof {
        reveal_hex_digits();
    }
    let mut text = String::new();
    let mut i: usize = 0;
    while i < bytes.len()
        invariant
            i <= bytes@.len(),
            HEX_DIGITS@.len() == 16,
            HEX_DIGITS.is_ascii(),
            text@ == hex_lower(bytes@.subrange(0, i as int)),
        decreases bytes@.len() - i,
    {
        let high = (bytes[i] / 16) as usize;
        let low = (bytes[i] % 16) as usize;
        let ghost before = text@;
        text.append(HEX_DIGITS.substring_ascii(high, high + 1));
        text.append(HEX_DIGITS.substring_ascii(low, low + 1));
        proof {
            let shorter = bytes@.subrange(0, i as int);
            let longer = bytes@.subrange(0, i + 1);
            assert(text@ =~= before + seq![hex_digit(high as int), hex_digit(low as int)]);
            assert forall|k: int| 0 <= k < 2 * (i + 1) implies text@[k] == hex_lower(longer)[k] by {
                if k < 2 * i {
                    assert(before[k] == hex_lower(shorter)[k]);
                    assert(shorter[k / 2] == longer[k / 2]);
                } else {
                    assert(longer[k / 2] == bytes@[i as int]);
                }
            }
            assert(text@ =~= hex_lower(longer));
        }
        i += 1;
    }
    assert(bytes@.subrange(0, i as int) =~= bytes@);
    text
}

/// A checksum in the making.
///
/// Its view is the bytes that it has taken in so far.
pub struct Checksum {
    hasher: Hasher,
}

impl View for Checksum {
    type V = Seq<u8>;

    closed spec fn view(&self) -> Seq<u8> {
        absorbed(self.hasher)
    }
}

impl Checksum {
    /// A checksum that has taken in nothing yet.
    pub fn new() -> (checksum: Checksum)
        ensures
            checksum@ == Seq::<u8>::empty(),
    {
        Checksum { hasher: hasher_new() }
    }

    /// Takes in the next piece of the stream.
    pub fn update(&mut self, chunk: &[u8])
        ensures
            final(self)@ == old(self)@ + chunk@,
    {
        hasher_update(&mut self.hasher, chunk);
    }

    /// The checksum of all that was taken in: 64 hexadecimal digits.
    pub fn finish(self) -> (text: String)
        ensures
            text@ == checksum_text(self@),
            text@.len() == 64,
    {
        let digest = hasher_finalize(self.hasher);
        hex_encode(digest.as_slice())
    }
}

/// The SHA-256 checksum of `data`, in lowercase hexadecimal.
pub fn sha256sum(data: &[u8]) -> (text: String)
    ensures
        text@ == checksum_text(data@),
        text@.len() == 64,
{
    let mut checksum = Checksum::new();
    checksum.update(data);
    assert(checksum@ =~= data@);
    checksum.finish()
}

} // verus!
