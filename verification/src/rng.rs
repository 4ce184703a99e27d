//! The two pseudo-random generators of the emulation layer.
//!
//! `Xoro` is a two-word xor/rotate/add generator together with the seed
//! expansion that turns a 64-bit seed into its two state words.  The
//! `JavaRandom` trait is the bounded-draw layer over the raw 64-bit stream,
//! and `ChunkRandom` derives the per-chunk population seed.  Every operation
//! is defined under 64-bit wraparound arithmetic and must agree bit for bit
//! with the emulated platform, so the contracts pin each result down exactly.

use vstd::prelude::*;

verus! {

/// Constant xored into the seed before expansion.
pub const SEED_EXPAND_XOR: u64 = 0x6A09E667F3BCC909;
/// Constant subtracted (wrapping) to form the second expansion word.
pub const SEED_EXPAND_SUB: u64 = 0x61C8864680B583EB;
/// First multiplier of the two-round mixing function.
pub const MIX_MUL_A: u64 = 0xBF58476D1CE4E5B9;
/// Second multiplier of the two-round mixing function.
pub const MIX_MUL_B: u64 = 0x94D049BB133111EB;

/// Left rotation of a 64-bit word.
pub open spec fn rotl64(x: u64, n: u32) -> u64
    recommends
        0 < n < 64,
{
    (x << n) | (x >> ((64 - n) as u32))
}

/// The two-round xor-shift-multiply mixing function of the seed expansion.
pub open spec fn split_mix64(s: u64) -> u64 {
    let a = (s ^ (s >> 30)).wrapping_mul(MIX_MUL_A);
    let b = (a ^ (a >> 27)).wrapping_mul(MIX_MUL_B);
    b ^ (b >> 31)
}

/// The 64-bit output drawn from the state words `(lo, hi)`.
pub open spec fn xoro_output(lo: u64, hi: u64) -> u64 {
    rotl64(lo.wrapping_add(hi), 17).wrapping_add(lo)
}

/// The low state word after one advance from `(lo, hi)`.
pub open spec fn xoro_next_lo(lo: u64, hi: u64) -> u64 {
    rotl64(lo, 49) ^ (hi ^ lo) ^ ((hi ^ lo) << 21)
}

/// The high state word after one advance from `(lo, hi)`.
pub open spec fn xoro_next_hi(lo: u64, hi: u64) -> u64 {
    rotl64(hi ^ lo, 28)
}

/// The low expansion word of a 64-bit seed.
pub open spec fn expand_lo(seed: i64) -> u64 {
    split_mix64((seed as u64) ^ SEED_EXPAND_XOR)
}

/// The high expansion word of a 64-bit seed.
pub open spec fn expand_hi(seed: i64) -> u64 {
    split_mix64(((seed as u64) ^ SEED_EXPAND_XOR).wrapping_sub(SEED_EXPAND_SUB))
}

/// A generator of the legacy platform's bounded-draw interface: a raw stream
/// of 64-bit words narrowed to top-bit draws, bounded draws and long draws.
pub trait JavaRandom: Sized {
    /// The state after one raw draw.
    spec fn next_state(&self) -> Self;

    /// The top `count` bits of the next raw draw, as a 32-bit value.
    spec fn bits_spec(&self, count: i32) -> i32;

    /// The state that `set_seed(seed)` establishes.
    spec fn seeded_state(seed: i64) -> Self;

    /// Draw the top `count` bits of the next raw 64-bit output.
    fn next(&mut self, count: i32) -> (r: i32)
        requires
            1 <= count <= 63,
        ensures
            r == old(self).bits_spec(count),
            *final(self) == old(self).next_state(),
    ;

    /// Replace the state by the expansion of `seed`.
    fn set_seed(&mut self, seed: i64)
        ensures
            *final(self) == Self::seeded_state(seed),
    ;
}

/// Derivation of the per-chunk population seed from the world seed and the
/// chunk's negative-most block coordinates.
pub trait ChunkRandom: JavaRandom {
    /// Seed the generator for population features: mix the world seed with the
    /// block coordinates through two forced-odd long draws, re-seed with the
    /// mixed value and return it.  The result is a function of the three
    /// arguments alone; the generator's prior state does not enter.
    fn set_population_seed(&mut self, world_seed: i64, block_x: i32, block_z: i32) -> (r: i64)
        ensures
            r == population_seed_spec::<Self>(world_seed, block_x, block_z),
            *final(self) == Self::seeded_state(r),
    ;
}

/// Whether `bound` is a power of two (the isolated lowest set bit is the
/// whole value).
pub open spec fn is_pow2_bound(bound: u32) -> bool {
    bound & (0u32.wrapping_sub(bound)) == bound
}

/// The bias-avoidance acceptance test of the rejection loop: `bits` is kept
/// iff `bits - bits % bound + (bound - 1)` stays within the signed 32-bit
/// range.
pub open spec fn accept31(bits: i32, bound: i32) -> bool {
    bits - (bits % bound) + (bound - 1) <= i32::MAX
}

/// Ceiling on the draws one bounded draw may make before the rejection loop
/// gives up and keeps the last value; unreachable in practice, it makes the
/// loop provably finite.
pub const DRAW_ATTEMPT_CAP: u64 = 0xFFFF_FFFF_FFFF_FFFF;

/// The index (counted from 0) of the first 31-bit draw out of `s` that the
/// acceptance test keeps, or the last index within `fuel` draws when none is
/// kept.
pub open spec fn accept_index<R: JavaRandom>(s: R, bound: i32, fuel: nat) -> nat
    decreases fuel,
{
    if accept31(s.bits_spec(31), bound) || fuel <= 1 {
        0
    } else {
        (accept_index(s.next_state(), bound, (fuel - 1) as nat) + 1) as nat
    }
}

/// How many draws the rejection loop discards before the one it keeps.
pub open spec fn reject_count<R: JavaRandom>(s: R, bound: u32) -> nat {
    accept_index(s, bound as i32, DRAW_ATTEMPT_CAP as nat)
}

/// How many raw draws one bounded draw with `bound` consumes from `s`.
pub open spec fn bounded_draws<R: JavaRandom>(s: R, bound: u32) -> nat {
    if is_pow2_bound(bound) {
        1
    } else {
        reject_count(s, bound) + 1
    }
}

/// The value of the power-of-two fast path: the product scaled back by 31
/// bits.
pub open spec fn pow2_draw_val(bits: i32, bound: u32) -> i32 {
    (((bound * bits) as i64) >> 31u32) as i32
}

/// The value a bounded draw with `bound` returns from state `s`.
pub open spec fn bounded_val<R: JavaRandom>(s: R, bound: u32) -> i32 {
    if is_pow2_bound(bound) {
        pow2_draw_val(s.bits_spec(31), bound)
    } else {
        (bits_at(s, reject_count(s, bound), 31) % (bound as i32)) as i32
    }
}

/// The state a bounded draw with `bound` leaves behind.
pub open spec fn bounded_state<R: JavaRandom>(s: R, bound: u32) -> R {
    state_after(s, bounded_draws(s, bound))
}

/// The 64-bit value built from two 32-bit draws out of `s`, high word first,
/// under wraparound addition.
pub open spec fn next_i64_spec<R: JavaRandom>(s: R) -> i64 {
    ((s.bits_spec(32) as i64) << 32u32).wrapping_add(state_after(s, 1).bits_spec(32) as i64)
}

/// The population seed derived from the world seed and block coordinates:
/// two forced-odd long draws from the freshly seeded generator serve as
/// multipliers for the coordinates, and the wrapped sum is xored with the
/// world seed.
pub open spec fn population_seed_spec<R: JavaRandom>(
    world_seed: i64,
    block_x: i32,
    block_z: i32,
) -> i64 {
    let s0 = R::seeded_state(world_seed);
    let l = next_i64_spec(s0) | 1;
    let m = next_i64_spec(state_after(s0, 2)) | 1;
    ((block_x as i64).wrapping_mul(l)).wrapping_add((block_z as i64).wrapping_mul(m)) ^ world_seed
}

/// The state reached after `k` raw draws from `s`.
pub open spec fn state_after<R: JavaRandom>(s: R, k: nat) -> R
    decreases k,
{
    if k == 0 {
        s
    } else {
        state_after(s, (k - 1) as nat).next_state()
    }
}

/// The top `count` bits of raw draw number `k` (counted from 0) out of `s`.
pub open spec fn bits_at<R: JavaRandom>(s: R, k: nat, count: i32) -> i32 {
    state_after(s, k).bits_spec(count)
}

/// Zero draws leave the state alone.
pub proof fn lemma_state_after_zero<R: JavaRandom>(s: R)
    ensures
        state_after(s, 0) == s,
{
}

/// Draw number `k + 1` advances the state reached after `k` draws once more.
pub proof fn lemma_state_after_succ<R: JavaRandom>(s: R, k: nat)
    ensures
        state_after(s, k + 1) == state_after(s, k).next_state(),
{
}

/// Peeling one draw off the front: `k` draws from the advanced state reach
/// the same state as `k + 1` draws from `s`.
pub proof fn lemma_state_after_shift<R: JavaRandom>(s: R, k: nat)
    ensures
        state_after(s.next_state(), k) == state_after(s, k + 1),
    decreases k,
{
    if k == 0 {
        lemma_state_after_zero(s.next_state());
        lemma_state_after_zero(s);
        lemma_state_after_succ(s, 0);
    } else {
        lemma_state_after_shift(s, (k - 1) as nat);
        lemma_state_after_succ(s.next_state(), (k - 1) as nat);
        lemma_state_after_succ(s, k);
    }
}

/// The xor/rotate/add core generator, seeded through the two-round expansion.
#[derive(Clone, Copy)]
pub struct Xoro {
    lo: u64,
    hi: u64,
}

impl Xoro {
    /// The 64-bit word that the next raw draw returns.
    pub closed spec fn raw_output(&self) -> u64 {
        xoro_output(self.lo, self.hi)
    }

    /// Expand `seed` into the two state words.
    pub fn new(seed: i64) -> (r: Xoro)
        ensures
            r == Xoro::seeded_state(seed),
    {
        let l: u64 = (seed as u64) ^ SEED_EXPAND_XOR;
        let m: u64 = l.wrapping_sub(SEED_EXPAND_SUB);
        Xoro { lo: split_mix(l), hi: split_mix(m) }
    }

    /// Draw the next raw 64-bit output and advance the state.
    pub fn next_xoro_i64(&mut self) -> (r: i64)
        ensures
            r == old(self).raw_output() as i64,
            *final(self) == old(self).next_state(),
    {
        self.next_raw() as i64
    }

    /// Advance the state `count` times, discarding the outputs.
    pub fn skip(&mut self, count: i32)
        requires
            0 <= count,
        ensures
            *final(self) == state_after(*old(self), count as nat),
    {
        for i in 0..count
            invariant
                *self == state_after(*old(self), i as nat),
        {
            self.next_xoro_i64();
        }
    }

    /// The mixing function on a signed word, as the seed expansion applies
    /// it.
    pub fn next_split_mix_i64(seed: i64) -> (r: i64)
        ensures
            r == split_mix64(seed as u64) as i64,
    {
        split_mix(seed as u64) as i64
    }

    /// One raw draw: the output word, with the state advanced.
    fn next_raw(&mut self) -> (r: u64)
        ensures
            r == old(self).raw_output(),
            *final(self) == old(self).next_state(),
    {
        let l: u64 = self.lo;
        let h: u64 = self.hi;
        let s: u64 = l.wrapping_add(h);
        let n: u64 = ((s << 17u32) | (s >> 47u32)).wrapping_add(l);
        let x: u64 = h ^ l;
        self.lo = ((l << 49u32) | (l >> 15u32)) ^ x ^ (x << 21u32);
        self.hi = (x << 28u32) | (x >> 36u32);
        n
    }
}

/// The two-round mixing function on a raw 64-bit word.
fn split_mix(s: u64) -> (r: u64)
    ensures
        r == split_mix64(s),
{
    let a: u64 = (s ^ (s >> 30u32)).wrapping_mul(MIX_MUL_A);
    let b: u64 = (a ^ (a >> 27u32)).wrapping_mul(MIX_MUL_B);
    b ^ (b >> 31u32)
}

impl JavaRandom for Xoro {
    closed spec fn next_state(&self) -> Xoro {
        Xoro { lo: xoro_next_lo(self.lo, self.hi), hi: xoro_next_hi(self.lo, self.hi) }
    }

    closed spec fn bits_spec(&self, count: i32) -> i32 {
        (self.raw_output() >> ((64 - count) as u32)) as i32
    }

    closed spec fn seeded_state(seed: i64) -> Xoro {
        Xoro { lo: expand_lo(seed), hi: expand_hi(seed) }
    }

    fn next(&mut self, count: i32) -> (r: i32) {
        let n: u64 = self.next_raw();
        (n >> ((64 - count) as u32)) as i32
    }

    fn set_seed(&mut self, seed: i64) {
        *self = Xoro::new(seed);
    }
}

impl Xoro {
    /// Draw a value in `[0, bound)`.  For a power-of-two bound the draw is one
    /// raw advance and never enters the rejection loop; otherwise draws are
    /// rejected while the bias check fails, up to `DRAW_ATTEMPT_CAP` draws.
    pub fn next_i32_bounded(&mut self, bound: u32) -> (r: i32)
        requires
            1 <= bound < 0x8000_0000,
        ensures
            0 <= r < bound,
            r == bounded_val(*old(self), bound),
            *final(self) == bounded_state(*old(self), bound),
            is_pow2_bound(bound) ==> *final(self) == old(self).next_state(),
    {
        let ghost start: Xoro = *self;
        let bound_i: i32 = bound as i32;
        let neg: u32 = 0u32.wrapping_sub(bound);
        if (bound & neg) == bound {
            proof {
                lemma_bits31_nonneg(*self);
            }
            let bits: i32 = self.next(31);
            proof {
                assert((bound_i as i64) * (bits as i64) == (bound * bits) as i64)
                    by (nonlinear_arith)
                    requires
                        0 <= bits < 0x8000_0000,
                        1 <= bound < 0x8000_0000,
                        bound_i == bound,
                ;
                lemma_pow2_mul_shift(bound, bits);
                lemma_state_after_zero(start);
                lemma_state_after_succ(start, 0);
            }
            let prod: i64 = (bound_i as i64) * (bits as i64);
            (prod >> 31u32) as i32
        } else {
            let mut k: u64 = 0;
            loop
                invariant
                    start == *old(self),
                    1 <= bound < 0x8000_0000,
                    !is_pow2_bound(bound),
                    bound_i == bound,
                    k < DRAW_ATTEMPT_CAP,
                    *self == state_after(start, k as nat),
                    reject_count(start, bound) == k as nat + accept_index(
                        *self,
                        bound as i32,
                        (DRAW_ATTEMPT_CAP - k) as nat,
                    ),
                decreases DRAW_ATTEMPT_CAP - k,
            {
                proof {
                    lemma_bits31_nonneg(*self);
                }
                let ghost cur: Xoro = *self;
                let bits: i32 = self.next(31);
                let val: i32 = bits % bound_i;
                let t: i64 = bits as i64 - val as i64 + (bound_i as i64 - 1i64);
                if t <= 0x7FFF_FFFFi64 || k == DRAW_ATTEMPT_CAP - 1 {
                    proof {
                        assert(val == bits % bound_i);
                        if t <= 0x7FFF_FFFFi64 {
                            assert(accept31(bits, bound_i));
                        }
                        assert(accept_index(cur, bound as i32, (DRAW_ATTEMPT_CAP - k) as nat)
                            == 0);
                        assert(reject_count(start, bound) == k as nat);
                        lemma_state_after_succ(start, k as nat);
                    }
                    return val;
                }
                proof {
                    assert(val == bits % bound_i);
                    assert(!accept31(cur.bits_spec(31), bound as i32));
                    assert(accept_index(cur, bound as i32, (DRAW_ATTEMPT_CAP - k) as nat)
                        == accept_index(
                        cur.next_state(),
                        bound as i32,
                        (DRAW_ATTEMPT_CAP - k - 1) as nat,
                    ) + 1);
                    lemma_state_after_succ(start, k as nat);
                }
                k = k + 1;
            }
        }
    }

    /// Draw a 64-bit value from two 32-bit draws, high word first.
    pub fn next_i64(&mut self) -> (r: i64)
        ensures
            r == next_i64_spec(*old(self)),
            *final(self) == state_after(*old(self), 2),
    {
        let ghost start: Xoro = *self;
        let hi: i32 = self.next(32);
        let lo: i32 = self.next(32);
        proof {
            lemma_state_after_zero(start);
            lemma_state_after_succ(start, 0);
            lemma_state_after_succ(start, 1);
        }
        ((hi as i64) << 32u32).wrapping_add(lo as i64)
    }
}

impl ChunkRandom for Xoro {
    fn set_population_seed(&mut self, world_seed: i64, block_x: i32, block_z: i32) -> (r: i64) {
        self.set_seed(world_seed);
        let l: i64 = self.next_i64() | 1;
        let m: i64 = self.next_i64() | 1;
        let n: i64 = ((block_x as i64).wrapping_mul(l)).wrapping_add(
            (block_z as i64).wrapping_mul(m),
        ) ^ world_seed;
        self.set_seed(n);
        n
    }
}

/// For a power-of-two bound the scaled product lies in `[0, bound)`.
proof fn lemma_pow2_mul_shift(bound: u32, bits: i32)
    by (bit_vector)
    requires
        bound & (0u32.wrapping_sub(bound)) == bound,
        1 <= bound < 0x8000_0000,
        0 <= bits < 0x8000_0000,
    ensures
        0 <= (((bound * bits) as i64) >> 31u32) < bound,
{
}

/// Mask keeping the low 48 bits of the legacy generator's state.
pub const LCG_MASK: u64 = 0xFFFF_FFFF_FFFF;
/// Multiplier of the legacy linear congruential step, also xored into the
/// seed on construction.
pub const LCG_MUL: u64 = 0x5DEECE66D;
/// Increment of the legacy linear congruential step.
pub const LCG_ADD: u64 = 0xB;

/// The legacy state established by seeding with `seed`.
pub open spec fn lcg_seeded(seed: i64) -> u64 {
    ((seed as u64) ^ LCG_MUL) & LCG_MASK
}

/// One step of the legacy 48-bit linear congruential recurrence.
pub open spec fn lcg_step(s: u64) -> u64 {
    s.wrapping_mul(LCG_MUL).wrapping_add(LCG_ADD) & LCG_MASK
}

/// The value a legacy draw of `bits` bits returns from state `s`: the top
/// `bits` bits of the advanced state.
pub open spec fn lcg_out(s: u64, bits: i32) -> i32 {
    (lcg_step(s) >> ((48 - bits) as u32)) as i32
}

/// The second, independent generator construction: the legacy platform's
/// 48-bit linear congruential generator, kept for interoperability.  The
/// search engine does not use it.
#[derive(Clone, Copy)]
pub struct LegacyRandom {
    state: u64,
}

impl LegacyRandom {
    /// The 48-bit state word.
    pub closed spec fn state_spec(&self) -> u64 {
        self.state
    }

    /// Seed the legacy generator: xor with the multiplier, masked to 48 bits.
    pub fn new(seed: i64) -> (r: LegacyRandom)
        ensures
            r.state_spec() == lcg_seeded(seed),
    {
        LegacyRandom { state: ((seed as u64) ^ LCG_MUL) & LCG_MASK }
    }

    /// Advance the state once and return its top `bits` bits.
    pub fn next(&mut self, bits: i32) -> (r: i32)
        requires
            1 <= bits <= 32,
        ensures
            r == lcg_out(old(self).state_spec(), bits),
            final(self).state_spec() == lcg_step(old(self).state_spec()),
    {
        self.state = self.state.wrapping_mul(LCG_MUL).wrapping_add(LCG_ADD) & LCG_MASK;
        (self.state >> ((48 - bits) as u32)) as i32
    }
}

/// Helper for the first-accept law, by induction over the index of the first
/// accepted draw.
proof fn lemma_accept_index_first<R: JavaRandom>(s: R, bound: i32, fuel: nat, k: nat)
    requires
        k < fuel,
        accept31(bits_at(s, k, 31), bound),
        forall|j: nat| j < k ==> !accept31(#[trigger] bits_at(s, j, 31), bound),
    ensures
        accept_index(s, bound, fuel) == k,
    decreases k,
{
    lemma_state_after_zero(s);
    if k == 0 {
        assert(bits_at(s, 0, 31) == s.bits_spec(31));
    } else {
        assert(!accept31(bits_at(s, 0nat, 31), bound));
        assert(bits_at(s, 0, 31) == s.bits_spec(31));
        let s1 = s.next_state();
        lemma_state_after_shift(s, (k - 1) as nat);
        assert(bits_at(s1, (k - 1) as nat, 31) == bits_at(s, k, 31));
        assert forall|j: nat| j < (k - 1) as nat implies !accept31(
            #[trigger] bits_at(s1, j, 31),
            bound,
        ) by {
            lemma_state_after_shift(s, j);
            assert(bits_at(s1, j, 31) == bits_at(s, j + 1, 31));
        }
        lemma_accept_index_first(s1, bound, (fuel - 1) as nat, (k - 1) as nat);
    }
}

/// The rejection loop keeps the first accepted draw: whenever some draw out
/// of `s` passes the acceptance test within the draw cap, and `k` is the
/// index of the first such draw, the loop discards exactly the `k` draws
/// before it.  The cap in the definition is therefore only a formal device;
/// it never distorts a draw that accepts at all.
pub proof fn lemma_reject_count_is_first_accept<R: JavaRandom>(s: R, bound: u32, k: nat)
    requires
        k < DRAW_ATTEMPT_CAP,
        accept31(bits_at(s, k, 31), bound as i32),
        forall|j: nat| j < k ==> !accept31(#[trigger] bits_at(s, j, 31), bound as i32),
    ensures
        reject_count(s, bound) == k,
{
    lemma_accept_index_first(s, bound as i32, DRAW_ATTEMPT_CAP as nat, k);
}

/// The raw stream is a function of the state value alone.  A speculative
/// copy of a generator therefore cannot interfere with the original: however
/// far the copy is advanced and whenever it is discarded, a state equal to
/// the original's still yields the same draws, in the same order.
pub proof fn lemma_draws_depend_on_state_alone<R: JavaRandom>(a: R, b: R, k: nat, count: i32)
    requires
        a == b,
    ensures
        state_after(a, k) == state_after(b, k),
        bits_at(a, k, count) == bits_at(b, k, count),
{
}

/// The top 31 bits of a raw draw are a non-negative 32-bit value.
proof fn lemma_bits31_nonneg(s: Xoro)
    ensures
        0 <= s.bits_spec(31) < 0x8000_0000,
{
    let w = s.raw_output();
    assert(((w >> 33u32) as i32) == w >> 33u32 && w >> 33u32 < 0x8000_0000) by (bit_vector);
}

} // verus!
