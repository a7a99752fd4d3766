use vstd::prelude::*;

verus! {

/// Sign bit of an IEEE-754 binary64 bit pattern.
pub const SIGN_BIT: u64 = 0x8000_0000_0000_0000;

/// Exponent field of an IEEE-754 binary64 bit pattern.
pub const EXPONENT_MASK: u64 = 0x7ff0_0000_0000_0000;

/// Fraction (mantissa) field of an IEEE-754 binary64 bit pattern.
pub const FRACTION_MASK: u64 = 0x000f_ffff_ffff_ffff;

/// Magnitude (exponent and fraction) fields of an IEEE-754 binary64 bit
/// pattern. For values that are not NaN, a larger magnitude field encodes a
/// larger absolute value.
pub const MAGNITUDE_MASK: u64 = 0x7fff_ffff_ffff_ffff;

/// The bit pattern encodes a NaN: all exponent bits set, fraction non-zero.
pub open spec fn is_nan_bits(bits: u64) -> bool {
    bits & EXPONENT_MASK == EXPONENT_MASK && bits & FRACTION_MASK != 0
}

/// The order key of a non-NaN binary64 bit pattern. Positive values get the
/// sign bit set so that they sort above all negative ones; negative values
/// have all bits flipped, so that a larger magnitude gives a smaller key.
/// Negative zero is keyed as positive zero, since the two compare equal.
pub open spec fn order_key(bits: u64) -> u64 {
    if bits == SIGN_BIT {
        SIGN_BIT
    } else if bits & SIGN_BIT != 0 {
        !bits
    } else {
        bits | SIGN_BIT
    }
}

/// Maps the bit pattern of a hit distance to a key whose unsigned order is the
/// numeric order of the distances; a NaN has no place in that order and gives
/// `None`.
pub fn distance_key(bits: u64) -> (r: Option<u64>)
    ensures
        r is None <==> is_nan_bits(bits),
        r matches Some(k) ==> k == order_key(bits),
{
    if bits & EXPONENT_MASK == EXPONENT_MASK && bits & FRACTION_MASK != 0 {
        None
    } else if bits == SIGN_BIT {
        Some(SIGN_BIT)
    } else if bits & SIGN_BIT != 0 {
        Some(!bits)
    } else {
        Some(bits | SIGN_BIT)
    }
}

/// `a < b` for the binary64 values with these bit patterns, read from sign
/// and magnitude: zeros of either sign are equal, a negative value lies below
/// every non-negative one, and among values of one sign the magnitude decides.
pub open spec fn numeric_lt(a: u64, b: u64) -> bool {
    if a & MAGNITUDE_MASK == 0 && b & MAGNITUDE_MASK == 0 {
        false
    } else if a & SIGN_BIT != 0 && b & SIGN_BIT != 0 {
        a & MAGNITUDE_MASK > b & MAGNITUDE_MASK
    } else if a & SIGN_BIT != 0 {
        true
    } else if b & SIGN_BIT != 0 {
        false
    } else {
        a & MAGNITUDE_MASK < b & MAGNITUDE_MASK
    }
}

/// `a == b` for the binary64 values with these bit patterns: the same
/// pattern, or two zeros.
pub open spec fn numeric_eq(a: u64, b: u64) -> bool {
    a == b || (a & MAGNITUDE_MASK == 0 && b & MAGNITUDE_MASK == 0)
}

/// Order keys compare as the values they come from: a smaller key is a
/// smaller value, and equal keys are equal values.
pub proof fn lemma_key_order_is_numeric(a: u64, b: u64)
    ensures
        order_key(a) < order_key(b) <==> numeric_lt(a, b),
        order_key(a) == order_key(b) <==> numeric_eq(a, b),
{
    assert((if a == 0x8000_0000_0000_0000u64 {
        0x8000_0000_0000_0000u64
    } else if a & 0x8000_0000_0000_0000u64 != 0 {
        !a
    } else {
        a | 0x8000_0000_0000_0000u64
    }) < (if b == 0x8000_0000_0000_0000u64 {
        0x8000_0000_0000_0000u64
    } else if b & 0x8000_0000_0000_0000u64 != 0 {
        !b
    } else {
        b | 0x8000_0000_0000_0000u64
    }) <==> (if a & 0x7fff_ffff_ffff_ffffu64 == 0 && b & 0x7fff_ffff_ffff_ffffu64 == 0 {
        false
    } else if a & 0x8000_0000_0000_0000u64 != 0 && b & 0x8000_0000_0000_0000u64 != 0 {
        a & 0x7fff_ffff_ffff_ffffu64 > b & 0x7fff_ffff_ffff_ffffu64
    } else if a & 0x8000_0000_0000_0000u64 != 0 {
        true
    } else if b & 0x8000_0000_0000_0000u64 != 0 {
        false
    } else {
        a & 0x7fff_ffff_ffff_ffffu64 < b & 0x7fff_ffff_ffff_ffffu64
    })) by (bit_vector);
    assert((if a == 0x8000_0000_0000_0000u64 {
        0x8000_0000_0000_0000u64
    } else if a & 0x8000_0000_0000_0000u64 != 0 {
        !a
    } else {
        a | 0x8000_0000_0000_0000u64
    }) == (if b == 0x8000_0000_0000_0000u64 {
        0x8000_0000_0000_0000u64
    } else if b & 0x8000_0000_0000_0000u64 != 0 {
        !b
    } else {
        b | 0x8000_0000_0000_0000u64
    }) <==> (a == b || (a & 0x7fff_ffff_ffff_ffffu64 == 0 && b & 0x7fff_ffff_ffff_ffffu64
        == 0))) by (bit_vector);
}

/// `order` lists every index below `n` exactly once.
pub open spec fn is_index_permutation(order: Seq<usize>, n: nat) -> bool {
    &&& order.len() == n
    &&& forall|i: int| 0 <= i < order.len() ==> order[i] < n
    &&& order.no_duplicates()
}

/// Following `order`, the keys of the distances never decrease.
pub open spec fn is_nearest_first(order: Seq<usize>, bits: Seq<u64>) -> bool {
    forall|i: int, j: int|
        0 <= i < j < order.len() ==> order_key(#[trigger] bits[order[i] as int]) <= order_key(
            #[trigger] bits[order[j] as int],
        )
}

/// Orders hits nearest first, given the bit patterns of their distances:
/// the result lists each hit's index once, by non-decreasing distance. A NaN
/// distance cannot be ordered, and gives `None`.
pub fn nearest_first(distance_bits: &Vec<u64>) -> (r: Option<Vec<usize>>)
    ensures
        r is None <==> exists|i: int|
            0 <= i < distance_bits@.len() && is_nan_bits(#[trigger] distance_bits@[i]),
        r matches Some(order) ==> is_index_permutation(order@, distance_bits@.len())
            && is_nearest_first(order@, distance_bits@),
{
    let n = distance_bits.len();
    let mut keys: Vec<u64> = Vec::new();
    let mut i: usize = 0;
    while i < n
        invariant
            n == distance_bits@.len(),
            i <= n,
            keys@.len() == i,
            forall|k: int| 0 <= k < i ==> !is_nan_bits(#[trigger] distance_bits@[k]),
            forall|k: int| 0 <= k < i ==> keys@[k] == order_key(#[trigger] distance_bits@[k]),
        decreases n - i,
    {
        match distance_key(distance_bits[i]) {
            None => {
                return None;
            },
            Some(k) => {
                keys.push(k);
            },
        }
        i = i + 1;
    }
    let mut order: Vec<usize> = Vec::new();
    let mut next: usize = 0;
    while next < n
        invariant
            n == distance_bits@.len(),
            n == keys@.len(),
            next <= n,
            forall|k: int| 0 <= k < n ==> keys@[k] == order_key(#[trigger] distance_bits@[k]),
            is_index_permutation(order@, next as nat),
            forall|a: int, b: int|
                0 <= a < b < order@.len() ==> keys@[#[trigger] order@[a] as int] <= keys@[
                    #[trigger] order@[b] as int
                ],
        decreases n - next,
    {
        let key = keys[next];
        let mut pos: usize = order.len();
        while pos > 0 && keys[order[pos - 1]] > key
            invariant
                n == keys@.len(),
                next < n,
                key == keys@[next as int],
                pos <= order@.len(),
                forall|k: int| 0 <= k < order@.len() ==> order@[k] < next,
                forall|k: int| pos <= k < order@.len() ==> keys@[#[trigger] order@[k] as int] > key,
                forall|a: int, b: int|
                    0 <= a < b < order@.len() ==> keys@[#[trigger] order@[a] as int] <= keys@[
                        #[trigger] order@[b] as int
                    ],
            decreases pos,
        {
            pos = pos - 1;
        }
        proof {
            assert forall|k: int| 0 <= k < pos implies keys@[#[trigger] order@[k] as int] <= key by {
                if pos > 0 && k < pos - 1 {
                    assert(keys@[order@[k] as int] <= keys@[order@[pos - 1] as int]);
                }
            }
        }
        let ghost prev = order@;
        order.insert(pos, next);
        proof {
            assert(order@ == prev.insert(pos as int, next));
            assert forall|a: int, b: int|
                0 <= a < b < order@.len() implies keys@[#[trigger] order@[a] as int] <= keys@[
                #[trigger] order@[b] as int
            ] by {
                if b < pos {
                } else if b == pos {
                } else if a < pos {
                    assert(order@[b] == prev[b - 1]);
                } else if a == pos {
                    assert(order@[b] == prev[b - 1]);
                } else {
                    assert(order@[a] == prev[a - 1]);
                    assert(order@[b] == prev[b - 1]);
                }
            }
            assert forall|a: int, b: int|
                0 <= a < order@.len() && 0 <= b < order@.len() && a != b implies order@[a]
                != order@[b] by {
                if a != pos && b != pos {
                    let pa = if a < pos { a } else { a - 1 };
                    let pb = if b < pos { b } else { b - 1 };
                    assert(order@[a] == prev[pa]);
                    assert(order@[b] == prev[pb]);
                } else if a == pos {
                    let pb = if b < pos { b } else { b - 1 };
                    assert(order@[b] == prev[pb]);
                } else {
                    let pa = if a < pos { a } else { a - 1 };
                    assert(order@[a] == prev[pa]);
                }
            }
            assert forall|k: int| 0 <= k < order@.len() implies order@[k] < next + 1 by {
                if k < pos {
                } else if k > pos {
                    assert(order@[k] == prev[k - 1]);
                }
            }
        }
        next = next + 1;
    }
    proof {
        assert forall|a: int, b: int|
            0 <= a < b < order@.len() implies order_key(
            #[trigger] distance_bits@[order@[a] as int],
        ) <= order_key(#[trigger] distance_bits@[order@[b] as int]) by {
            assert(keys@[order@[a] as int] <= keys@[order@[b] as int]);
        }
    }
    Some(order)
}

} // verus!
