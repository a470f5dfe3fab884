//! Phase ids as single integers. The search looks ids up in hash maps, so
//! each id is packed into one `u128`: a numeral in mixed radix whose digits
//! are the id's forty entries. On the ids of well-formed cubes the packing
//! loses nothing.

use vstd::arithmetic::div_mod::{lemma_fundamental_div_mod_converse, lemma_small_mod};
use vstd::arithmetic::power2::{
    lemma2_to64,
    lemma2_to64_rest,
    lemma_pow2_adds,
    lemma_pow2_pos,
    lemma_pow2_strictly_increases,
    pow2,
};
use vstd::prelude::*;

use crate::cubie_cube::CubieState;
use crate::phase::{phase_id, pochmann_cube, Phase, PochmannCube};

verus! {

/// The number of bits that the key of a phase sets aside for entry `i` of
/// an id.
pub open spec fn width(phase: Phase, i: int) -> nat {
    match phase {
        Phase::One => if i < 12 {
            1
        } else {
            0
        },
        Phase::Two => if i == 0 {
            32
        } else if i < 8 {
            3
        } else {
            0
        },
        Phase::Three => if i < 3 {
            32
        } else {
            0
        },
        Phase::Four => if i < 12 {
            4
        } else if i < 20 {
            5
        } else if i < 32 {
            1
        } else {
            3
        },
    }
}

/// The number of bits that the first `n` entries take together.
pub open spec fn bits(phase: Phase, n: nat) -> nat
    decreases n,
{
    if n == 0 {
        0
    } else {
        bits(phase, (n - 1) as nat) + width(phase, n - 1)
    }
}

/// Every entry of the id is small enough for the bits set aside for it.
pub open spec fn fits(phase: Phase, id: Seq<u32>) -> bool {
    &&& id.len() == 40
    &&& forall|i: int| 0 <= i < 40 ==> (#[trigger] id[i]) < pow2(width(phase, i))
}

/// The numeral that the first `n` entries make, most significant first,
/// each entry taken modulo its radix.
pub open spec fn pack(phase: Phase, id: Seq<u32>, n: nat) -> nat
    decreases n,
{
    if n == 0 {
        0
    } else {
        let radix = pow2(width(phase, n - 1));
        pack(phase, id, (n - 1) as nat) * radix + (id[n - 1] as nat) % radix
    }
}

/// The key of an id.
pub open spec fn phase_key(phase: Phase, id: Seq<u32>) -> nat {
    pack(phase, id, 40)
}

/// No phase needs more than 124 bits.
pub proof fn lemma_bits_bound(phase: Phase, n: nat)
    requires
        n <= 40,
    ensures
        bits(phase, n) <= 124,
        bits(phase, n) as int == match phase {
            Phase::One => if n <= 12 {
                n as int
            } else {
                12
            },
            Phase::Two => if n == 0 {
                0
            } else if n <= 8 {
                32 + 3 * (n - 1)
            } else {
                53
            },
            Phase::Three => if n <= 3 {
                32 * (n as int)
            } else {
                96
            },
            Phase::Four => if n <= 12 {
                4 * (n as int)
            } else if n <= 20 {
                48 + 5 * (n - 12)
            } else if n <= 32 {
                88 + (n - 20)
            } else {
                100 + 3 * (n - 32)
            },
        },
    decreases n,
{
    if n > 0 {
        lemma_bits_bound(phase, (n - 1) as nat);
    }
}

proof fn lemma_digit_step(high: nat, bound: nat, digit: nat, radix: nat)
    requires
        high < bound,
        digit < radix,
    ensures
        high * radix + digit < bound * radix,
{
    assert(high * radix + digit < bound * radix) by (nonlinear_arith)
        requires
            high + 1 <= bound,
            digit < radix,
    ;
}

/// A numeral of `n` entries stays below two to the number of its bits.
pub proof fn lemma_pack_bound(phase: Phase, id: Seq<u32>, n: nat)
    requires
        n <= 40,
    ensures
        pack(phase, id, n) < pow2(bits(phase, n)),
        pow2(bits(phase, n)) <= 0x1000_0000_0000_0000_0000_0000_0000_0000,
    decreases n,
{
    lemma2_to64();
    lemma2_to64_rest();
    lemma_pow2_adds(64, 60);
    assert(pow2(124) == 0x1000_0000_0000_0000_0000_0000_0000_0000) by {
        assert(pow2(64) == 0x1_0000_0000_0000_0000);
        assert(pow2(60) == 0x1000_0000_0000_0000);
        assert(0x1_0000_0000_0000_0000 * 0x1000_0000_0000_0000
            == 0x1000_0000_0000_0000_0000_0000_0000_0000) by (nonlinear_arith);
    }
    lemma_bits_bound(phase, n);
    if bits(phase, n) < 124 {
        lemma_pow2_strictly_increases(bits(phase, n), 124);
    }
    if n > 0 {
        let w = width(phase, n - 1);
        let radix = pow2(w);
        lemma_pack_bound(phase, id, (n - 1) as nat);
        lemma_pow2_pos(w);
        lemma_pow2_adds(bits(phase, (n - 1) as nat), w);
        lemma_digit_step(
            pack(phase, id, (n - 1) as nat),
            pow2(bits(phase, (n - 1) as nat)),
            (id[n - 1] as nat) % radix,
            radix,
        );
    }
}

proof fn lemma_pack_injective(phase: Phase, a: Seq<u32>, b: Seq<u32>, n: nat)
    requires
        n <= 40,
        fits(phase, a),
        fits(phase, b),
        pack(phase, a, n) == pack(phase, b, n),
    ensures
        forall|i: int| 0 <= i < n ==> a[i] == b[i],
    decreases n,
{
    if n > 0 {
        let radix = pow2(width(phase, n - 1));
        lemma_pow2_pos(width(phase, n - 1));
        let high_a = pack(phase, a, (n - 1) as nat);
        let high_b = pack(phase, b, (n - 1) as nat);
        lemma_small_mod(a[n - 1] as nat, radix);
        lemma_small_mod(b[n - 1] as nat, radix);
        let x = pack(phase, a, n);
        lemma_fundamental_div_mod_converse(
            x as int,
            radix as int,
            high_a as int,
            a[n - 1] as int,
        );
        lemma_fundamental_div_mod_converse(
            x as int,
            radix as int,
            high_b as int,
            b[n - 1] as int,
        );
        lemma_pack_injective(phase, a, b, (n - 1) as nat);
    }
}

/// Two ids that fit and have the same key are the same id.
pub proof fn lemma_key_injective(phase: Phase, a: Seq<u32>, b: Seq<u32>)
    requires
        fits(phase, a),
        fits(phase, b),
        phase_key(phase, a) == phase_key(phase, b),
    ensures
        a == b,
{
    lemma_pack_injective(phase, a, b, 40);
    assert(a =~= b);
}

/// The id of a well-formed cube fits, in every phase.
pub proof fn lemma_phase_id_fits(phase: Phase, cube: CubieState)
    requires
        cube.wf(),
    ensures
        fits(phase, phase_id(phase, cube)),
{
    lemma2_to64();
    let id = phase_id(phase, cube);
    let pc = pochmann_cube(cube);
    assert forall|i: int| 0 <= i < 40 implies (#[trigger] id[i]) < pow2(width(phase, i)) by {
        if i < 12 {
            assert(0 <= cube.ep[crate::phase::pochmann_edge(i)] < 12);
            assert(0 <= cube.eo[crate::phase::pochmann_edge(i)] < 2);
        }
        if i < 8 {
            assert(0 <= cube.cp[crate::phase::pochmann_corner(i)] < 8);
            assert(0 <= cube.co[crate::phase::pochmann_corner(i)] < 6);
        }
        if 12 <= i < 20 {
            assert(0 <= cube.cp[crate::phase::pochmann_corner(i - 12)] < 8);
        }
        if 20 <= i < 32 {
            assert(0 <= cube.eo[crate::phase::pochmann_edge(i - 20)] < 2);
        }
        if 32 <= i {
            assert(0 <= cube.co[crate::phase::pochmann_corner(i - 32)] < 6);
        }
    }
}

/// The radix of entry `i`: two to the number of its bits.
fn radix(phase: Phase, i: usize) -> (r: u128)
    requires
        i < 40,
    ensures
        r == pow2(width(phase, i as int)),
        r > 0,
{
    proof {
        lemma2_to64();
    }
    match phase {
        Phase::One => if i < 12 {
            2
        } else {
            1
        },
        Phase::Two => if i == 0 {
            0x1_0000_0000
        } else if i < 8 {
            8
        } else {
            1
        },
        Phase::Three => if i < 3 {
            0x1_0000_0000
        } else {
            1
        },
        Phase::Four => if i < 12 {
            16
        } else if i < 20 {
            32
        } else if i < 32 {
            2
        } else {
            8
        },
    }
}

/// Packs an id into its key.
pub fn to_phase_key(phase: Phase, id: &PochmannCube) -> (key: u128)
    ensures
        key == phase_key(phase, id@),
{
    let mut key: u128 = 0;
    let mut i: usize = 0;
    while i < 40
        invariant
            i <= 40,
            key == pack(phase, id@, i as nat),
        decreases 40 - i,
    {
        let r = radix(phase, i);
        proof {
            lemma_pack_bound(phase, id@, i as nat);
            lemma_pack_bound(phase, id@, (i + 1) as nat);
        }
        key = key * r + (id[i] as u128) % r;
        i += 1;
    }
    key
}

} // verus!
