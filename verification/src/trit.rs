//! Ternary digits and their two-bit packing.

use vstd::arithmetic::power2::pow2;
use vstd::bits::lemma_u32_shr_is_div;
use vstd::prelude::*;

verus! {

/// A balanced ternary digit: -1, 0 or +1.
#[derive(Debug, Clone, Copy, PartialEq, Eq, Structural, Hash)]
pub enum Trit {
    Neg,
    Zero,
    Pos,
}

/// The integer a trit stands for.
pub open spec fn trit_value(t: Trit) -> int {
    match t {
        Trit::Neg => -1,
        Trit::Zero => 0,
        Trit::Pos => 1,
    }
}

/// The trit that an `i8` stands for, if any.
pub open spec fn trit_of_i8(v: i8) -> Option<Trit> {
    if v == -1 {
        Some(Trit::Neg)
    } else if v == 0 {
        Some(Trit::Zero)
    } else if v == 1 {
        Some(Trit::Pos)
    } else {
        None
    }
}

/// The two-bit code of a trit: `Neg` is 0, `Zero` is 1, `Pos` is 2.
pub open spec fn trit_code(t: Trit) -> u32 {
    match t {
        Trit::Neg => 0,
        Trit::Zero => 1,
        Trit::Pos => 2,
    }
}

/// The trit read back from a two-bit field; the unused code 3 reads as `Zero`.
pub open spec fn trit_of_code(c: int) -> Trit {
    if c == 0 {
        Trit::Neg
    } else if c == 1 {
        Trit::Zero
    } else if c == 2 {
        Trit::Pos
    } else {
        Trit::Zero
    }
}

/// How many trits `pack_16` takes from a sequence of length `len`.
pub open spec fn packed_count(len: int) -> int {
    if len < 16 {
        len
    } else {
        16
    }
}

/// The two-bit field number `i` of a packed word.
pub open spec fn field(word: u32, i: int) -> u32 {
    ((word >> ((2 * i) as u32)) & 3u32) as u32
}

/// `word` holds the codes of the first `packed_count` trits of `trits`,
/// trit `i` in bits `2i` and `2i + 1`, and zero in every other field.
pub open spec fn packs(word: u32, trits: Seq<Trit>) -> bool {
    forall|i: int|
        0 <= i < 16 ==> #[trigger] field(word, i) == if i < packed_count(trits.len() as int) {
            trit_code(trits[i])
        } else {
            0u32
        }
}

impl Trit {
    /// The integer this trit stands for.
    pub fn to_i8(self) -> (v: i8)
        ensures
            v == trit_value(self),
    {
        match self {
            Trit::Neg => -1,
            Trit::Zero => 0,
            Trit::Pos => 1,
        }
    }

    /// The trit for -1, 0 or 1; `None` for any other value.
    pub fn from_i8(v: i8) -> (t: Option<Self>)
        ensures
            t == trit_of_i8(v),
            t is Some <==> (v == -1 || v == 0 || v == 1),
    {
        match v {
            -1 => Some(Trit::Neg),
            0 => Some(Trit::Zero),
            1 => Some(Trit::Pos),
            _ => None,
        }
    }

    /// The two-bit code of this trit.
    pub fn pack_bits(self) -> (b: u8)
        ensures
            b == trit_code(self),
            b < 3,
    {
        match self {
            Trit::Neg => 0,
            Trit::Zero => 1,
            Trit::Pos => 2,
        }
    }

    /// The trit coded by the two low bits of `b`; the higher bits are ignored.
    pub fn unpack_bits(b: u8) -> (t: Self)
        ensures
            t == trit_of_code((b % 4) as int),
    {
        let low = b & 0x3;
        assert(low == b % 4) by (bit_vector)
            requires
                low == b & 0x3,
        ;
        match low {
            0 => Trit::Neg,
            1 => Trit::Zero,
            2 => Trit::Pos,
            _ => Trit::Zero,
        }
    }
}

/// Setting field `i` of a word whose field `i` is clear puts `c` there and
/// leaves every other field as it was.
proof fn lemma_set_field(word: u32, c: u32, i: u32, j: u32)
    requires
        c < 4,
        i < 16,
        j < 16,
        (word >> (2 * i)) & 3 == 0,
    ensures
        ((word | (c << (2 * i))) >> (2 * j)) & 3 == if j == i {
            c
        } else {
            (word >> (2 * j)) & 3
        },
{
    assert(((word | (c << (2 * i))) >> (2 * j)) & 3 == if j == i {
        c
    } else {
        (word >> (2 * j)) & 3
    }) by (bit_vector)
        requires
            c < 4,
            i < 16,
            j < 16,
            (word >> (2 * i)) & 3 == 0,
    ;
}

/// Packs up to 16 trits into one word, two bits per trit, the first trit in
/// the lowest bits. Trits past the sixteenth are ignored; fields with no trit
/// are zero.
pub fn pack_16(trits: &[Trit]) -> (packed: u32)
    ensures
        packs(packed, trits@),
{
    let n: usize = if trits.len() < 16 {
        trits.len()
    } else {
        16
    };
    let mut packed: u32 = 0;
    let mut i: usize = 0;
    assert forall|j: int| 0 <= j < 16 implies #[trigger] field(0u32, j) == 0u32 by {
        let jj = j as u32;
        assert((0u32 >> (2 * jj)) & 3 == 0) by (bit_vector);
    }
    while i < n
        invariant
            n == packed_count(trits@.len() as int),
            n <= 16,
            i <= n,
            forall|j: int|
                0 <= j < 16 ==> #[trigger] field(packed, j) == if j < i {
                    trit_code(trits@[j])
                } else {
                    0u32
                },
        decreases n - i,
    {
        let code = trits[i].pack_bits() as u32;
        let old_packed = packed;
        packed = packed | (code << (i * 2));
        proof {
            let ii = i as u32;
            assert(field(old_packed, i as int) == 0u32);
            assert forall|j: int| 0 <= j < 16 implies #[trigger] field(packed, j) == if j < i + 1 {
                trit_code(trits@[j])
            } else {
                0u32
            } by {
                lemma_set_field(old_packed, code, ii, j as u32);
                assert(field(old_packed, j) == if j < i {
                    trit_code(trits@[j])
                } else {
                    0u32
                });
            }
        }
        i = i + 1;
    }
    packed
}

/// Reading a trit back as an `i8` and converting it again gives the trit.
pub proof fn lemma_i8_round_trip(t: Trit)
    ensures
        trit_of_i8(trit_value(t) as i8) == Some(t),
{
}

/// An `i8` that converts to a trit is the value of that trit.
pub proof fn lemma_i8_converts_back(v: i8)
    ensures
        trit_of_i8(v) matches Some(t) ==> trit_value(t) == v,
{
}

/// Unpacking the code of a trit gives the trit.
pub proof fn lemma_bits_round_trip(t: Trit)
    ensures
        trit_of_code((trit_code(t) as u8 % 4) as int) == t,
{
}

/// Every trit that `pack_16` took is read back from its field.
pub proof fn lemma_pack_16_unpacks(packed: u32, trits: Seq<Trit>, i: int)
    requires
        packs(packed, trits),
        0 <= i < packed_count(trits.len() as int),
    ensures
        trit_of_code(field(packed, i) as int) == trits[i],
{
    assert(field(packed, i) == trit_code(trits[i]));
}

/// Trits stand for -1, 0 and +1 in the order `Neg`, `Zero`, `Pos`: the
/// values are distinct, ordered and within -1..=1.
pub proof fn lemma_trit_values()
    ensures
        trit_value(Trit::Neg) < trit_value(Trit::Zero) < trit_value(Trit::Pos),
        forall|t: Trit| -1 <= #[trigger] trit_value(t) <= 1,
{
}

/// A trit's two-bit code is its value plus one (so it is below 3), and the
/// code reads back as the trit; the unused code 3 reads as `Zero`.
pub proof fn lemma_codes_shift_values(t: Trit)
    ensures
        trit_code(t) == trit_value(t) + 1,
        trit_code(t) < 3,
        trit_of_code(trit_value(t) + 1) == t,
        trit_of_code(3) == Trit::Zero,
{
}

/// Only -1, 0 and 1 convert to trits, and each converts to the trit of
/// that value.
pub proof fn lemma_i8_conversion_domain(v: i8)
    ensures
        trit_of_i8(v) is Some <==> -1 <= v <= 1,
        -1 <= v <= 1 ==> trit_value(trit_of_i8(v).unwrap()) == v,
{
}

/// Read in base 4, a packed word holds trit `i` as its digit `i`: the
/// digit is the trit's value plus one for each trit taken, and zero in the
/// remaining digits up to the sixteenth.
pub proof fn lemma_packed_base4_digits(packed: u32, trits: Seq<Trit>, i: int)
    requires
        packs(packed, trits),
        0 <= i < 16,
    ensures
        i < packed_count(trits.len() as int) ==> (packed as nat / pow2((2 * i) as nat)) % 4
            == trit_value(trits[i]) + 1,
        i >= packed_count(trits.len() as int) ==> (packed as nat / pow2((2 * i) as nat)) % 4 == 0,
{
    let sh = (2 * i) as u32;
    lemma_u32_shr_is_div(packed, sh);
    let shifted = packed >> sh;
    assert(shifted & 3 == shifted % 4) by (bit_vector);
    assert(field(packed, i) == shifted & 3);
}

} // verus!
