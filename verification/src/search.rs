//! The seed-search engine: a backtracking matcher that decides, for one
//! candidate world seed, whether the generator's draw sequence is consistent
//! with a table of observed structural signatures.
//!
//! The engine re-seeds the generator from the candidate's population seed
//! plus a configured offset, then makes up to a configured number of
//! placement attempts.  Each attempt draws a position; a signature at that
//! position is probed on a speculative copy of the generator (trunk draw,
//! throwaway draws, twelve leaf draws), and only a full match commits the
//! copy's state back to the live stream and removes the signature from the
//! pending set.  The candidate is reported as soon as at most one signature
//! is left pending.

use vstd::prelude::*;

use crate::rng::ChunkRandom;
use crate::rng::JavaRandom;
use crate::rng::Xoro;
use crate::rng::bounded_state;
use crate::rng::bounded_val;
use crate::rng::is_pow2_bound;
use crate::rng::lemma_state_after_succ;
use crate::rng::lemma_state_after_zero;
use crate::rng::population_seed_spec;
use crate::rng::state_after;

verus! {

/// One observed structural fingerprint: a chunk-relative position, the trunk
/// height draw, and twelve leaf slots, each present (1), absent (0) or
/// unknown (-1, matching anything).
#[derive(Clone, Copy)]
pub struct TreeSignature {
    pub x: i32,
    pub z: i32,
    pub trunk_height: i32,
    pub leaf_bits: [i32; 12],
}

/// The trunk-height draw a probe of state `s` compares: two throwaway draws,
/// then a bounded draw with bound 3.
pub open spec fn trunk_value(s: Xoro) -> i32 {
    bounded_val(state_after(s, 2), 3u32)
}

/// The state from which the twelve leaf draws start: after the two throwaway
/// draws, the trunk draw and five further throwaway draws.
pub open spec fn leaf_base(s: Xoro) -> Xoro {
    state_after(bounded_state(state_after(s, 2), 3u32), 5)
}

/// Leaf draw number `i` of a probe of state `s`: a bounded draw with bound 2.
pub open spec fn leaf_value(s: Xoro, i: int) -> i32 {
    bounded_val(state_after(leaf_base(s), i as nat), 2u32)
}

/// Whether all twelve leaf draws of a probe of state `s` agree with the
/// signature's leaf slots; a wildcard slot (-1) matches any draw.
pub open spec fn leaves_match(s: Xoro, sig: TreeSignature) -> bool {
    forall|i: int|
        0 <= i < 12 ==> (sig.leaf_bits@[i] == -1 || leaf_value(s, i) == sig.leaf_bits@[i])
}

/// Whether the signature fully matches at state `s` for the attempt's drawn
/// position `(x, z)`.
pub open spec fn signature_match(s: Xoro, sig: TreeSignature, x: i32, z: i32) -> bool {
    x == sig.x && z == sig.z && trunk_value(s) == sig.trunk_height && leaves_match(s, sig)
}

/// The generator state a fully matched probe of state `s` commits: everything
/// up to and including the twelfth leaf draw is consumed.
pub open spec fn committed_state(s: Xoro) -> Xoro {
    state_after(leaf_base(s), 12)
}

/// Whether `i` is the first index into `pending` (scanned in ascending order)
/// whose signature fully matches at state `s` and position `(x, z)`.
pub open spec fn first_match_at(
    s: Xoro,
    sigs: Seq<TreeSignature>,
    pending: Seq<usize>,
    x: i32,
    z: i32,
    i: int,
) -> bool {
    &&& 0 <= i < pending.len()
    &&& signature_match(s, sigs[pending[i] as int], x, z)
    &&& forall|m: int| 0 <= m < i ==> !signature_match(s, sigs[pending[m] as int], x, z)
}

/// Whether the search reports the candidate, starting from generator state
/// `s` with `attempts` placement attempts left, position coordinate `x`
/// carried in from the previous attempt, and the signatures at the `pending`
/// indices still unmatched.  Each attempt draws `z`; the first fully matching
/// pending signature commits the probe's draws, removes its index and draws
/// a replacement `z`; the candidate is reported once at most one index is
/// left pending.
pub open spec fn search_from(
    s: Xoro,
    sigs: Seq<TreeSignature>,
    pending: Seq<usize>,
    x: i32,
    attempts: nat,
) -> bool
    decreases attempts,
{
    if attempts == 0 {
        false
    } else {
        let z = bounded_val(s, 16u32);
        let s1 = bounded_state(s, 16u32);
        if exists|i: int| first_match_at(s1, sigs, pending, x, z, i) {
            let i = choose|i: int| first_match_at(s1, sigs, pending, x, z, i);
            let c = committed_state(s1);
            let z2 = bounded_val(c, 16u32);
            let s2 = bounded_state(c, 16u32);
            if pending.remove(i).len() <= 1 {
                true
            } else {
                search_from(s2, sigs, pending.remove(i), z2, (attempts - 1) as nat)
            }
        } else {
            search_from(s1, sigs, pending, z, (attempts - 1) as nat)
        }
    }
}

/// The index sequence `0, 1, ..., n - 1`: all signatures pending.
pub open spec fn all_indices(n: nat) -> Seq<usize> {
    Seq::new(n, |i: int| i as usize)
}

/// Whether the candidate `world_seed` is reported: the generator is seeded
/// with the population seed of the chunk at `(block_x, block_z)` plus the
/// decoration `offset`, the first position coordinate is drawn, and the
/// backtracking search over `sigs` runs for `attempts` placement attempts.
pub open spec fn seed_matches(
    world_seed: i64,
    block_x: i32,
    block_z: i32,
    offset: i64,
    sigs: Seq<TreeSignature>,
    attempts: u32,
) -> bool {
    let pop = population_seed_spec::<Xoro>(world_seed, block_x, block_z);
    let start = Xoro::seeded_state(pop.wrapping_add(offset));
    let x0 = bounded_val(start, 16u32);
    let s0 = bounded_state(start, 16u32);
    search_from(s0, sigs, all_indices(sigs.len()), x0, attempts as nat)
}

/// The bounds the engine draws with: 16 and 2 take the power-of-two fast
/// path, 3 takes the rejection loop.
proof fn lemma_pow2_consts()
    ensures
        is_pow2_bound(2u32),
        is_pow2_bound(16u32),
        !is_pow2_bound(3u32),
{
    assert(2u32 & 0u32.wrapping_sub(2u32) == 2u32) by (bit_vector);
    assert(16u32 & 0u32.wrapping_sub(16u32) == 16u32) by (bit_vector);
    assert(3u32 & 0u32.wrapping_sub(3u32) != 3u32) by (bit_vector);
}

/// At most one index can be the first match of a scan.
proof fn lemma_first_match_at_unique(
    s: Xoro,
    sigs: Seq<TreeSignature>,
    pending: Seq<usize>,
    x: i32,
    z: i32,
    i1: int,
    i2: int,
)
    requires
        first_match_at(s, sigs, pending, x, z, i1),
        first_match_at(s, sigs, pending, x, z, i2),
    ensures
        i1 == i2,
{
    if i1 < i2 {
        assert(!signature_match(s, sigs[pending[i1] as int], x, z));
    }
    if i2 < i1 {
        assert(!signature_match(s, sigs[pending[i2] as int], x, z));
    }
}

/// Probe one signature against the live generator without disturbing it: a
/// copy of the state skips the two throwaway draws, compares the trunk draw,
/// skips five more, then compares the twelve leaf draws; the first concrete
/// mismatch aborts.  A full match returns the advanced state for the caller
/// to commit.
#[verifier::loop_isolation(false)]
pub fn probe_signature(live: &Xoro, sig: &TreeSignature) -> (r: Option<Xoro>)
    ensures
        r == (if trunk_value(*live) == sig.trunk_height && leaves_match(*live, *sig) {
            Some(committed_state(*live))
        } else {
            None::<Xoro>
        }),
{
    proof {
        lemma_pow2_consts();
    }
    let mut peek: Xoro = *live;
    peek.skip(2);
    let t: i32 = peek.next_i32_bounded(3);
    if t != sig.trunk_height {
        return None;
    }
    peek.skip(5);
    proof {
        lemma_state_after_zero(leaf_base(*live));
    }
    for i in 0..12usize
        invariant
            peek == state_after(leaf_base(*live), i as nat),
            forall|m: int|
                0 <= m < i ==> (sig.leaf_bits@[m] == -1 || leaf_value(*live, m)
                    == sig.leaf_bits@[m]),
    {
        let v: i32 = peek.next_i32_bounded(2);
        proof {
            lemma_state_after_succ(leaf_base(*live), i as nat);
        }
        if sig.leaf_bits[i] != -1 && v != sig.leaf_bits[i] {
            proof {
                assert(sig.leaf_bits@[i as int] != -1 && leaf_value(*live, i as int)
                    != sig.leaf_bits@[i as int]);
                assert(!leaves_match(*live, *sig));
            }
            return None;
        }
    }
    Some(peek)
}

/// Decide one candidate seed: derive its population seed at the chunk's
/// block coordinates, add the decoration offset, re-seed, and run the
/// backtracking search against the signature table for the configured number
/// of placement attempts.  Returns whether the candidate is reported.
#[verifier::loop_isolation(false)]
pub fn check_seed(
    world_seed: i64,
    block_x: i32,
    block_z: i32,
    offset: i64,
    sigs: &Vec<TreeSignature>,
    attempts: u32,
) -> (r: bool)
    ensures
        r == seed_matches(world_seed, block_x, block_z, offset, sigs@, attempts),
{
    proof {
        lemma_pow2_consts();
    }
    let mut random: Xoro = Xoro::new(world_seed);
    let pop: i64 = random.set_population_seed(world_seed, block_x, block_z);
    random.set_seed(pop.wrapping_add(offset));

    let mut pending: Vec<usize> = Vec::new();
    let mut fill: usize = 0;
    while fill < sigs.len()
        invariant
            fill <= sigs.len(),
            pending@.len() == fill as nat,
            forall|q: int| 0 <= q < fill ==> pending@[q] == q,
        decreases sigs.len() - fill,
    {
        pending.push(fill);
        fill = fill + 1;
    }
    proof {
        assert(pending@ =~= all_indices(sigs@.len()));
    }

    let mut x: i32 = random.next_i32_bounded(16);
    let ghost goal: bool = seed_matches(world_seed, block_x, block_z, offset, sigs@, attempts);

    let mut attempt: u32 = 0;
    while attempt < attempts
        invariant
            attempt <= attempts,
            forall|q: int| 0 <= q < pending@.len() ==> pending@[q] < sigs@.len(),
            goal == search_from(random, sigs@, pending@, x, (attempts - attempt) as nat),
        decreases attempts - attempt,
    {
        let ghost pre_random: Xoro = random;
        let ghost pre_pending: Seq<usize> = pending@;
        let ghost a_left: nat = (attempts - attempt) as nat;
        let mut z: i32 = random.next_i32_bounded(16);
        let ghost s1: Xoro = random;
        let ghost z0: i32 = z;
        let mut committed: bool = false;
        let mut j: usize = 0;
        while j < pending.len() && !committed
            invariant
                j <= pre_pending.len(),
                forall|q: int| 0 <= q < pending@.len() ==> pending@[q] < sigs@.len(),
                !committed ==> pending@ == pre_pending,
                !committed ==> random == s1,
                !committed ==> z == z0,
                !committed ==> forall|m: int|
                    0 <= m < j ==> !signature_match(s1, sigs@[pre_pending[m] as int], x, z0),
                committed ==> first_match_at(s1, sigs@, pre_pending, x, z0, j as int),
                committed ==> pending@ == pre_pending.remove(j as int),
                committed ==> pending@.len() >= 2,
                committed ==> random == bounded_state(committed_state(s1), 16u32),
                committed ==> z == bounded_val(committed_state(s1), 16u32),
            decreases pre_pending.len() - j + (if committed { 0int } else { 1int }),
        {
            let idx: usize = pending[j];
            if x == sigs[idx].x && z == sigs[idx].z {
                let probe: Option<Xoro> = probe_signature(&random, &sigs[idx]);
                match probe {
                    Some(next_gen) => {
                        proof {
                            assert(signature_match(s1, sigs@[pre_pending[j as int] as int], x, z0));
                            assert(first_match_at(s1, sigs@, pre_pending, x, z0, j as int));
                        }
                        random = next_gen;
                        z = random.next_i32_bounded(16);
                        let _removed: usize = pending.remove(j);
                        committed = true;
                        if pending.len() <= 1 {
                            proof {
                                let i0 = choose|i: int|
                                    first_match_at(s1, sigs@, pre_pending, x, z0, i);
                                lemma_first_match_at_unique(
                                    s1,
                                    sigs@,
                                    pre_pending,
                                    x,
                                    z0,
                                    i0,
                                    j as int,
                                );
                                assert(search_from(pre_random, sigs@, pre_pending, x, a_left));
                            }
                            return true;
                        }
                    },
                    None => {
                        proof {
                            assert(!signature_match(s1, sigs@[pre_pending[j as int] as int], x, z0));
                        }
                        j = j + 1;
                    },
                }
            } else {
                proof {
                    assert(!signature_match(s1, sigs@[pre_pending[j as int] as int], x, z0));
                }
                j = j + 1;
            }
        }
        proof {
            if committed {
                let i0 = choose|i: int| first_match_at(s1, sigs@, pre_pending, x, z0, i);
                lemma_first_match_at_unique(s1, sigs@, pre_pending, x, z0, i0, j as int);
                assert(goal == search_from(random, sigs@, pending@, z, (a_left - 1) as nat));
            } else {
                assert forall|i: int| !first_match_at(s1, sigs@, pre_pending, x, z0, i) by {
                    if 0 <= i < pre_pending.len() {
                        assert(!signature_match(s1, sigs@[pre_pending[i] as int], x, z0));
                    }
                }
                assert(goal == search_from(random, sigs@, pending@, z, (a_left - 1) as nat));
            }
        }
        x = z;
        attempt = attempt + 1;
    }
    false
}

} // verus!
