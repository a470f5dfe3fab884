//! The packed words of the phase ids, taken apart: each slot's bits can be
//! read back from the word, and words made of the same bits are the same.

use vstd::prelude::*;

use crate::phase::{corner_class, corner_classes, edge_class, edge_classes, slice_mask};

verus! {

/// Laying a digit of two bits over a word that ends below it leaves the
/// lower digits alone, can be read back, and ends two bits higher.
proof fn lemma_two_bit_digit(word: u32, digit: u32, at: u32, lower: u32)
    by (bit_vector)
    requires
        at <= 22,
        word >> at == 0,
        digit <= 3,
        lower + 2 <= at,
    ensures
        ((word | (digit << at)) >> lower) & 3 == (word >> lower) & 3,
        ((word | (digit << at)) >> at) & 3 == digit,
        (word | (digit << at)) >> ((at + 2) as u32) == 0,
{
}

/// As above, where there is no lower digit to look at.
proof fn lemma_two_bit_digit_top(word: u32, digit: u32, at: u32)
    by (bit_vector)
    requires
        at <= 22,
        word >> at == 0,
        digit <= 3,
    ensures
        ((word | (digit << at)) >> at) & 3 == digit,
        (word | (digit << at)) >> ((at + 2) as u32) == 0,
{
}

/// Laying a digit of three bits over a word that ends below it leaves the
/// lower digits alone, can be read back, and ends three bits higher.
proof fn lemma_three_bit_digit(word: u32, digit: u32, at: u32, lower: u32)
    by (bit_vector)
    requires
        at <= 21,
        word >> at == 0,
        digit <= 7,
        lower + 3 <= at,
    ensures
        ((word | (digit << at)) >> lower) & 7 == (word >> lower) & 7,
        ((word | (digit << at)) >> at) & 7 == digit,
        (word | (digit << at)) >> ((at + 3) as u32) == 0,
{
}

/// As above, where there is no lower digit to look at.
proof fn lemma_three_bit_digit_top(word: u32, digit: u32, at: u32)
    by (bit_vector)
    requires
        at <= 21,
        word >> at == 0,
        digit <= 7,
    ensures
        ((word | (digit << at)) >> at) & 7 == digit,
        (word | (digit << at)) >> ((at + 3) as u32) == 0,
{
}

/// The classes of edges and corners are small.
proof fn lemma_class_bounds(number: u32)
    by (bit_vector)
    ensures
        number & 1 <= 1,
        number & 5 <= 5,
{
}

/// The class of the edge in each of the first `n` slots can be read back
/// from the word of edge classes.
pub proof fn lemma_edge_classes_read(pc: Seq<u32>, n: nat, k: nat)
    requires
        k < n <= 12,
    ensures
        (edge_classes(pc, n) >> ((2 * k) as u32)) & 3 == edge_class(pc[k as int]),
        edge_classes(pc, n) >> ((2 * n) as u32) == 0,
    decreases n,
{
    let m = (n - 1) as nat;
    let before = edge_classes(pc, m);
    let digit = edge_class(pc[m as int]);
    let at = (2 * m) as u32;
    lemma_class_bounds(pc[m as int]);
    assert(digit <= 3);
    if m == 0 {
        assert(before >> 0u32 == 0) by (bit_vector)
            requires
                before == 0,
        ;
    } else {
        lemma_edge_classes_read(pc, m, 0);
    }
    assert(before >> at == 0);
    if k < m {
        lemma_edge_classes_read(pc, m, k);
        lemma_two_bit_digit(before, digit, at, (2 * k) as u32);
    } else {
        lemma_two_bit_digit_top(before, digit, at);
    }
}

/// The class of the corner in each of the first `n` slots can be read back
/// from the word of corner classes.
pub proof fn lemma_corner_classes_read(pc: Seq<u32>, n: nat, k: nat)
    requires
        k < n <= 8,
    ensures
        (corner_classes(pc, n) >> ((3 * k) as u32)) & 7 == corner_class(pc[12 + k as int]),
        corner_classes(pc, n) >> ((3 * n) as u32) == 0,
    decreases n,
{
    let m = (n - 1) as nat;
    let before = corner_classes(pc, m);
    let digit = corner_class(pc[12 + m as int]);
    let at = (3 * m) as u32;
    lemma_class_bounds(((pc[12 + m as int] - 12) as u32));
    assert(digit <= 7);
    if m == 0 {
        assert(before >> 0u32 == 0) by (bit_vector)
            requires
                before == 0,
        ;
    } else {
        lemma_corner_classes_read(pc, m, 0);
    }
    assert(before >> at == 0);
    if k < m {
        lemma_corner_classes_read(pc, m, k);
        lemma_three_bit_digit(before, digit, at, (3 * k) as u32);
    } else {
        lemma_three_bit_digit_top(before, digit, at);
    }
}

/// Words of edge classes are the same if the classes are.
pub proof fn lemma_edge_classes_same(a: Seq<u32>, b: Seq<u32>, n: nat)
    requires
        forall|k: int| 0 <= k < n ==> edge_class(#[trigger] a[k]) == edge_class(b[k]),
    ensures
        edge_classes(a, n) == edge_classes(b, n),
    decreases n,
{
    if n > 0 {
        lemma_edge_classes_same(a, b, (n - 1) as nat);
        assert(edge_class(a[n - 1]) == edge_class(b[n - 1]));
    }
}

/// Words of corner classes are the same if the classes are.
pub proof fn lemma_corner_classes_same(a: Seq<u32>, b: Seq<u32>, n: nat)
    requires
        forall|k: int| 12 <= k < 12 + n ==> corner_class(#[trigger] a[k]) == corner_class(b[k]),
    ensures
        corner_classes(a, n) == corner_classes(b, n),
    decreases n,
{
    if n > 0 {
        lemma_corner_classes_same(a, b, (n - 1) as nat);
        assert(corner_class(a[12 + n - 1]) == corner_class(b[12 + n - 1]));
    }
}

/// Words of edge classes tell the classes apart: if the words are the
/// same, so is the class in every slot.
pub proof fn lemma_edge_classes_apart(a: Seq<u32>, b: Seq<u32>)
    requires
        edge_classes(a, 12) == edge_classes(b, 12),
    ensures
        forall|k: int| 0 <= k < 12 ==> edge_class(#[trigger] a[k]) == edge_class(b[k]),
{
    assert forall|k: int| 0 <= k < 12 implies edge_class(#[trigger] a[k]) == edge_class(b[k]) by {
        lemma_edge_classes_read(a, 12, k as nat);
        lemma_edge_classes_read(b, 12, k as nat);
    }
}

/// Words of corner classes tell the classes apart.
pub proof fn lemma_corner_classes_apart(a: Seq<u32>, b: Seq<u32>)
    requires
        corner_classes(a, 8) == corner_classes(b, 8),
    ensures
        forall|k: int| 12 <= k < 20 ==> corner_class(#[trigger] a[k]) == corner_class(b[k]),
{
    assert forall|k: int| 12 <= k < 20 implies corner_class(#[trigger] a[k]) == corner_class(
        b[k],
    ) by {
        lemma_corner_classes_read(a, 8, (k - 12) as nat);
        lemma_corner_classes_read(b, 8, (k - 12) as nat);
    }
}

/// Laying one bit over a word changes that bit only.
proof fn lemma_one_bit(word: u32, bit: u32, at: u32, k: u32)
    by (bit_vector)
    requires
        bit <= 1,
        at < 32,
        k < 32,
    ensures
        ((word | (bit << at)) >> k) & 1 == ((word >> k) & 1) | (if k == at {
            bit
        } else {
            0u32
        }),
{
}

/// A small number has no high bits, and its low bits are 0 or 1.
pub proof fn lemma_small_start(start: u32, k: u32)
    by (bit_vector)
    requires
        start < 3,
        k < 32,
    ensures
        k >= 2 ==> (start >> k) & 1 == 0,
        (start >> k) & 1 <= 1,
        start == 0 ==> (start >> k) & 1 == 0,
        start == 1 ==> (start >> 1u32) & 1 == 0,
        start == 2 ==> (start >> 0u32) & 1 == 0,
{
}

/// A bit laid over a bit that is not set is the bit itself.
pub proof fn lemma_or_zero(bit: u32)
    by (bit_vector)
    ensures
        0u32 | bit == bit,
{
}

/// The mark of the edge in slot `k`: 1 if it is an edge of the middle
/// slice, else 0.
pub open spec fn slice_bit(pc: Seq<u32>, k: int) -> u32 {
    (pc[k] / 8) as u32
}

/// Each bit of the word of middle-slice marks is the bit of the word that
/// the marks were laid over, with the slot's mark laid over it.
pub proof fn lemma_slice_mask_read(pc: Seq<u32>, start: u32, n: nat, k: nat)
    requires
        n <= 12,
        k < 32,
        forall|i: int| 0 <= i < n ==> #[trigger] pc[i] < 16,
    ensures
        (slice_mask(pc, start, n) >> (k as u32)) & 1 == ((start >> (k as u32)) & 1) | (if k < n {
            slice_bit(pc, k as int)
        } else {
            0u32
        }),
    decreases n,
{
    if n == 0 {
        let bit = (start >> (k as u32)) & 1;
        assert(bit == bit | 0u32) by (bit_vector);
    } else {
        let m = (n - 1) as nat;
        let before = slice_mask(pc, start, m);
        let bit = slice_bit(pc, m as int);
        assert(pc[m as int] < 16);
        assert(bit <= 1);
        lemma_slice_mask_read(pc, start, m, k);
        lemma_one_bit(before, bit, m as u32, k as u32);
        let low = (start >> (k as u32)) & 1;
        if k == m {
            assert(low | 0u32 | bit == low | bit) by (bit_vector);
        } else if k < m {
            let other = slice_bit(pc, k as int);
            assert((low | other) | 0u32 == low | other) by (bit_vector);
        } else {
            assert((low | 0u32) | 0u32 == low | 0u32) by (bit_vector);
        }
    }
}

/// Words of middle-slice marks are the same if they are laid over the same
/// word and the marks are the same.
pub proof fn lemma_slice_mask_same(a: Seq<u32>, b: Seq<u32>, start: u32, n: nat)
    requires
        forall|k: int| 0 <= k < n ==> #[trigger] slice_bit(a, k) == slice_bit(b, k),
    ensures
        slice_mask(a, start, n) == slice_mask(b, start, n),
    decreases n,
{
    if n > 0 {
        lemma_slice_mask_same(a, b, start, (n - 1) as nat);
        assert(slice_bit(a, n - 1) == slice_bit(b, n - 1));
    }
}

} // verus!
