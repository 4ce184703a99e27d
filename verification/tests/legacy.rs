use seedcracker_leaves::LegacyRandom;

#[test]
fn legacy_matches_platform_vectors() {
    // Published first outputs of the platform's built-in generator.
    let mut r = LegacyRandom::new(42);
    assert_eq!(-1170105035, r.next(32));
    assert_eq!(234785527, r.next(32));

    let mut z = LegacyRandom::new(0);
    assert_eq!(-1155484576, z.next(32));
}

#[test]
fn legacy_narrow_draws_take_top_bits() {
    // next(16) returns the top 16 bits of the same advanced state as
    // next(32), shifted down.
    let mut a = LegacyRandom::new(42);
    let mut b = LegacyRandom::new(42);
    let wide: i32 = a.next(32);
    let narrow: i32 = b.next(16);
    assert_eq!(narrow, ((wide as u32) >> 16) as i32);
}
