use seedcracker_leaves::ChunkRandom;
use seedcracker_leaves::JavaRandom;
use seedcracker_leaves::Xoro;

#[test]
fn next_xoro_i64_works() {
    let mut x = Xoro::new(111);
    assert_eq!(17056846968231911, x.next_xoro_i64());
    assert_eq!(3500609826288335747, x.next_xoro_i64());
    assert_eq!(7979107359202306130, x.next_xoro_i64());
}

#[test]
fn next_works() {
    let mut x = Xoro::new(1);
    assert_eq!(61863, x.next(16));
    assert_eq!(22920, x.next(16));
    assert_eq!(59063, x.next(16));
}

#[test]
fn next_i32_bounded_works() {
    let mut x = Xoro::new(1);
    assert_eq!(15, x.next_i32_bounded(16));
    assert_eq!(5, x.next_i32_bounded(16));
    assert_eq!(14, x.next_i32_bounded(16));
}

#[test]
fn next_i64_composes_two_draws() {
    let mut x = Xoro::new(5);
    assert_eq!(6940803083193134927, x.next_i64());
    assert_eq!(-3440957988067194712, x.next_i64());

    // The composition is the high 32-bit draw shifted up, plus the
    // sign-extended low draw, under wraparound.
    let mut a = Xoro::new(5);
    let mut b = Xoro::new(5);
    a.next_i64();
    let hi: i64 = b.next(32) as i64;
    let lo: i64 = b.next(32) as i64;
    assert_eq!((hi << 32).wrapping_add(lo), 6940803083193134927);
}

#[test]
fn bounded_power_of_two_stays_in_range() {
    for &bound in &[1u32, 2, 4, 8, 16, 1024, 1 << 30] {
        let mut x = Xoro::new(909);
        for _ in 0..200 {
            let v: i32 = x.next_i32_bounded(bound);
            assert!(0 <= v && (v as i64) < bound as i64);
        }
    }
}

#[test]
fn bounded_power_of_two_consumes_one_draw() {
    // A power-of-two draw advances the raw stream exactly once: the next raw
    // output agrees with a generator advanced once by hand.
    let mut a = Xoro::new(2024);
    let mut b = Xoro::new(2024);
    a.next_i32_bounded(16);
    b.next_xoro_i64();
    assert_eq!(a.next_xoro_i64(), b.next_xoro_i64());
}

#[test]
fn bounded_general_terminates_in_range() {
    for &bound in &[3u32, 5, 10, 100, 1000003] {
        let mut x = Xoro::new(31337);
        for _ in 0..200 {
            let v: i32 = x.next_i32_bounded(bound);
            assert!(0 <= v && (v as i64) < bound as i64);
        }
    }
}

#[test]
fn population_seed_is_deterministic() {
    let mut a = Xoro::new(0);
    let first: i64 = a.set_population_seed(1, 64, -96);
    assert_eq!(first, -1933732326565013663);
    // A second derivation with identical inputs, from whatever state the
    // first one left behind, yields the identical result.
    let second: i64 = a.set_population_seed(1, 64, -96);
    assert_eq!(first, second);
    // So does a derivation on a generator in an unrelated state.
    let mut b = Xoro::new(987654321);
    b.skip(7);
    assert_eq!(b.set_population_seed(1, 64, -96), first);
}

#[test]
fn clone_does_not_interfere() {
    let mut live = Xoro::new(4242);
    live.skip(3);
    let reference = live.clone();

    // Advance a speculative copy and discard it.
    let mut peek = live.clone();
    peek.skip(10);
    peek.next_i32_bounded(3);
    drop(peek);

    // The live generator's subsequent draws are unaffected.
    let mut expect = reference;
    for _ in 0..5 {
        assert_eq!(live.next_xoro_i64(), expect.next_xoro_i64());
    }
}

#[test]
fn set_seed_restarts_the_stream() {
    let mut x = Xoro::new(111);
    x.skip(40);
    x.set_seed(111);
    assert_eq!(17056846968231911, x.next_xoro_i64());
}

#[test]
fn split_mix_matches_expansion() {
    // The seed expansion applies the mixing function to the xored seed and to
    // the wrapped difference; reproduce the first raw draw by hand.
    let seed: i64 = 111;
    let l: i64 = seed ^ 0x6A09E667F3BCC909u64 as i64;
    let m: i64 = l.wrapping_sub(7046029254386353131);
    let lo: u64 = Xoro::next_split_mix_i64(l) as u64;
    let hi: u64 = Xoro::next_split_mix_i64(m) as u64;
    let out: i64 = (lo.wrapping_add(hi).rotate_left(17)).wrapping_add(lo) as i64;
    assert_eq!(out, 17056846968231911);
}
