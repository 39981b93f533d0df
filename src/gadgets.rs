//! Byte-level deoptimization gadgets shared by the fixed-width backends.
use vstd::prelude::*;

verus! {

/// Every byte incremented by one, wrapping at 256.
pub open spec fn add_one_each(s: Seq<u8>) -> Seq<u8> {
    Seq::new(s.len(), |i: int| ((s[i] + 1) % 256) as u8)
}

/// Every byte decremented by one, wrapping at 256.
pub open spec fn sub_one_each(s: Seq<u8>) -> Seq<u8> {
    Seq::new(s.len(), |i: int| ((s[i] + 255) % 256) as u8)
}

/// Every byte with all of its bits flipped.
pub open spec fn invert_each(s: Seq<u8>) -> Seq<u8> {
    Seq::new(s.len(), |i: int| (255 - s[i]) as u8)
}

/// Every byte exclusive-or'ed with `k`.
pub open spec fn xor_each(s: Seq<u8>, k: u8) -> Seq<u8> {
    Seq::new(s.len(), |i: int| s[i] ^ k)
}

/// Neighbouring bytes exchanged in pairs (0 with 1, 2 with 3, ...); a last
/// byte without a partner stays where it is.
pub open spec fn swap_pairs(s: Seq<u8>) -> Seq<u8> {
    Seq::new(
        s.len(),
        |i: int|
            if i % 2 == 0 {
                if i + 1 < s.len() {
                    s[i + 1]
                } else {
                    s[i]
                }
            } else {
                s[i - 1]
            },
    )
}

/// The mask that the logical-partitioning gadget applies.
pub const PARTITION_MASK: u8 = 0x55;

pub fn add_one_in_place(v: &mut Vec<u8>)
    ensures
        final(v)@ == add_one_each(old(v)@),
{
    let n = v.len();
    let mut i: usize = 0;
    while i < n
        invariant
            n == v.len(),
            n == old(v)@.len(),
            i <= n,
            forall|j: int| 0 <= j < i ==> v@[j] == ((old(v)@[j] + 1) % 256) as u8,
            forall|j: int| i <= j < n ==> v@[j] == old(v)@[j],
        decreases n - i,
    {
        let b = v[i];
        v.set(i, b.wrapping_add(1));
        i += 1;
    }
    assert(v@ =~= add_one_each(old(v)@));
}

pub fn sub_one_in_place(v: &mut Vec<u8>)
    ensures
        final(v)@ == sub_one_each(old(v)@),
{
    let n = v.len();
    let mut i: usize = 0;
    while i < n
        invariant
            n == v.len(),
            n == old(v)@.len(),
            i <= n,
            forall|j: int| 0 <= j < i ==> v@[j] == ((old(v)@[j] + 255) % 256) as u8,
            forall|j: int| i <= j < n ==> v@[j] == old(v)@[j],
        decreases n - i,
    {
        let b = v[i];
        v.set(i, b.wrapping_sub(1));
        i += 1;
    }
    assert(v@ =~= sub_one_each(old(v)@));
}

pub fn invert_in_place(v: &mut Vec<u8>)
    ensures
        final(v)@ == invert_each(old(v)@),
{
    let n = v.len();
    let mut i: usize = 0;
    while i < n
        invariant
            n == v.len(),
            n == old(v)@.len(),
            i <= n,
            forall|j: int| 0 <= j < i ==> v@[j] == (255 - old(v)@[j]) as u8,
            forall|j: int| i <= j < n ==> v@[j] == old(v)@[j],
        decreases n - i,
    {
        let b = v[i];
        let nb = !b;
        assert(nb == 255 - b) by (bit_vector)
            requires
                nb == !b,
        ;
        v.set(i, nb);
        i += 1;
    }
    assert(v@ =~= invert_each(old(v)@));
}

pub fn xor_in_place(v: &mut Vec<u8>, k: u8)
    ensures
        final(v)@ == xor_each(old(v)@, k),
{
    let n = v.len();
    let mut i: usize = 0;
    while i < n
        invariant
            n == v.len(),
            n == old(v)@.len(),
            i <= n,
            forall|j: int| 0 <= j < i ==> v@[j] == old(v)@[j] ^ k,
            forall|j: int| i <= j < n ==> v@[j] == old(v)@[j],
        decreases n - i,
    {
        let b = v[i];
        v.set(i, b ^ k);
        i += 1;
    }
    assert(v@ =~= xor_each(old(v)@, k));
}

pub fn swap_pairs_in_place(v: &mut Vec<u8>)
    ensures
        final(v)@ == swap_pairs(old(v)@),
{
    let n = v.len();
    let mut i: usize = 0;
    while i + 1 < n
        invariant
            n == v.len(),
            n == old(v)@.len(),
            i <= n,
            i % 2 == 0,
            forall|j: int| 0 <= j < i ==> v@[j] == swap_pairs(old(v)@)[j],
            forall|j: int| i <= j < n ==> v@[j] == old(v)@[j],
        decreases n - i,
    {
        let a = v[i];
        let b = v[i + 1];
        v.set(i, b);
        v.set(i + 1, a);
        i += 2;
    }
    assert(v@ =~= swap_pairs(old(v)@));
}

/// Bit of the arithmetic-partitioning gadget in an [`AvailableTransforms`] mask.
pub const ARITHMETIC_PARTITIONING: u8 = 1;
/// Bit of the logical-inverse gadget.
pub const LOGICAL_INVERSE: u8 = 2;
/// Bit of the logical-partitioning gadget.
pub const LOGICAL_PARTITIONING: u8 = 4;
/// Bit of the offset-mutation gadget.
pub const OFFSET_MUTATION: u8 = 8;
/// Bit of the register-swap gadget.
pub const REGISTER_SWAP: u8 = 16;

/// A set of enabled gadgets, one bit each; bits are tested independently.
#[derive(Clone, Copy, PartialEq, Eq, Structural, Debug)]
pub struct AvailableTransforms {
    pub bits: u8,
}

pub open spec fn has_bit(bits: u8, flag: u8) -> bool {
    bits & flag == flag
}

impl AvailableTransforms {
    /// No gadget enabled.
    pub fn none() -> (r: Self)
        ensures
            r.bits == 0,
    {
        AvailableTransforms { bits: 0 }
    }

    /// Every gadget enabled.
    pub fn all() -> (r: Self)
        ensures
            r.bits == 0xff,
    {
        AvailableTransforms { bits: 0xff }
    }

    pub fn from_bits(bits: u8) -> (r: Self)
        ensures
            r.bits == bits,
    {
        AvailableTransforms { bits }
    }

    pub fn contains(&self, flag: u8) -> (r: bool)
        ensures
            r == has_bit(self.bits, flag),
    {
        self.bits & flag == flag
    }
}

/// Little-endian 32-bit word made of the four bytes at `4 * k`.
pub open spec fn le_word(b: Seq<u8>, k: int) -> u32 {
    (b[4 * k] + b[4 * k + 1] * 0x100 + b[4 * k + 2] * 0x10000 + b[4 * k + 3] * 0x1000000) as u32
}

/// Why a buffer does not split into whole 32-bit instructions.
#[derive(Clone, Copy, PartialEq, Eq, Structural, Debug)]
pub enum WordDecodeError {
    EmptyInput,
    TruncatedInstruction,
}

/// Splits a buffer into little-endian 32-bit instruction words.
pub fn decode_words(binary: &[u8]) -> (r: Result<Vec<u32>, WordDecodeError>)
    ensures
        binary@.len() == 0 <==> r == Err::<Vec<u32>, WordDecodeError>(WordDecodeError::EmptyInput),
        (binary@.len() > 0 && binary@.len() % 4 != 0) <==> r == Err::<Vec<u32>, WordDecodeError>(
            WordDecodeError::TruncatedInstruction,
        ),
        r is Ok ==> {
            let w = r->Ok_0@;
            &&& w.len() * 4 == binary@.len()
            &&& forall|k: int| 0 <= k < w.len() ==> w[k] == le_word(binary@, k)
        },
{
    let n = binary.len();
    if n == 0 {
        return Err(WordDecodeError::EmptyInput);
    }
    if n % 4 != 0 {
        return Err(WordDecodeError::TruncatedInstruction);
    }
    let mut words: Vec<u32> = Vec::new();
    let mut k: usize = 0;
    while k < n / 4
        invariant
            n == binary@.len(),
            n % 4 == 0,
            k <= n / 4,
            words@.len() == k,
            forall|j: int| 0 <= j < k ==> words@[j] == le_word(binary@, j),
        decreases n / 4 - k,
    {
        let b0 = binary[4 * k] as u32;
        let b1 = binary[4 * k + 1] as u32;
        let b2 = binary[4 * k + 2] as u32;
        let b3 = binary[4 * k + 3] as u32;
        let w = b0 + b1 * 0x100 + b2 * 0x10000 + b3 * 0x1000000;
        words.push(w);
        k += 1;
    }
    Ok(words)
}

/// A byte-for-byte copy: the fixed-width backends re-encode without change.
pub fn copy_bytes(v: &Vec<u8>) -> (r: Vec<u8>)
    ensures
        r@ == v@,
{
    let mut out: Vec<u8> = Vec::new();
    let mut i: usize = 0;
    while i < v.len()
        invariant
            i <= v.len(),
            out@ == v@.subrange(0, i as int),
        decreases v.len() - i,
    {
        out.push(v[i]);
        i += 1;
    }
    assert(out@ =~= v@);
    out
}

} // verus!
