use seedcracker_leaves::ChunkRandom;
use seedcracker_leaves::JavaRandom;
use seedcracker_leaves::TreeSignature;
use seedcracker_leaves::Xoro;
use seedcracker_leaves::check_seed;

const BLOCK_X: i32 = 64;
const BLOCK_Z: i32 = -96;
const OFFSET: i64 = 90020;
const ATTEMPTS: u32 = 100;

/// Read signatures off the draw stream of `world_seed` exactly as the engine
/// consumes it, so that the seed is a planted match for the returned table.
/// `wildcards` lists, per signature, leaf slots to blank out as unknown.
fn derive_signatures(world_seed: i64, wildcards: &[&[usize]]) -> Vec<TreeSignature> {
    let mut g = Xoro::new(0);
    let pop: i64 = g.set_population_seed(world_seed, BLOCK_X, BLOCK_Z);
    g.set_seed(pop.wrapping_add(OFFSET));
    let mut x: i32 = g.next_i32_bounded(16);
    let mut sigs = Vec::new();
    for wild in wildcards {
        let z: i32 = g.next_i32_bounded(16);
        let mut peek = g.clone();
        peek.skip(2);
        let trunk: i32 = peek.next_i32_bounded(3);
        peek.skip(5);
        let mut leaf_bits = [0i32; 12];
        for slot in leaf_bits.iter_mut() {
            *slot = peek.next_i32_bounded(2);
        }
        for &w in *wild {
            leaf_bits[w] = -1;
        }
        sigs.push(TreeSignature { x, z, trunk_height: trunk, leaf_bits });
        g = peek;
        x = g.next_i32_bounded(16);
    }
    sigs
}

#[test]
fn check_seed_reports_planted_seed() {
    let sigs = derive_signatures(777, &[&[1, 5], &[0], &[11]]);
    assert!(check_seed(777, BLOCK_X, BLOCK_Z, OFFSET, &sigs, ATTEMPTS));
}

#[test]
fn check_seed_rejects_control_range() {
    let sigs = derive_signatures(777, &[&[1, 5], &[0], &[11]]);
    for seed in 778..798 {
        assert!(!check_seed(seed, BLOCK_X, BLOCK_Z, OFFSET, &sigs, ATTEMPTS));
    }
}

#[test]
fn check_seed_single_signature() {
    // One pending signature: the first full match empties the set below the
    // reporting threshold at once.
    let sigs = derive_signatures(1234, &[&[]]);
    assert!(check_seed(1234, BLOCK_X, BLOCK_Z, OFFSET, &sigs, ATTEMPTS));
    assert!(!check_seed(1235, BLOCK_X, BLOCK_Z, OFFSET, &sigs, ATTEMPTS));
}

#[test]
fn check_seed_empty_table_never_reports() {
    let sigs: Vec<TreeSignature> = Vec::new();
    assert!(!check_seed(777, BLOCK_X, BLOCK_Z, OFFSET, &sigs, ATTEMPTS));
}

#[test]
fn check_seed_no_attempts_never_reports() {
    let sigs = derive_signatures(777, &[&[1, 5], &[0], &[11]]);
    assert!(!check_seed(777, BLOCK_X, BLOCK_Z, OFFSET, &sigs, 0));
}

#[test]
fn check_seed_wildcards_match_anything() {
    // A signature whose twelve leaf slots are all unknown matches on position
    // and trunk height alone.
    let mut sigs = derive_signatures(555, &[&[], &[]]);
    for sig in sigs.iter_mut() {
        sig.leaf_bits = [-1; 12];
    }
    assert!(check_seed(555, BLOCK_X, BLOCK_Z, OFFSET, &sigs, ATTEMPTS));
}

#[test]
fn check_seed_concrete_leaf_mismatch_rejects() {
    // Flip one concrete leaf bit of each derived signature: the planted seed
    // must no longer be reported.
    let mut sigs = derive_signatures(777, &[&[], &[], &[]]);
    for sig in sigs.iter_mut() {
        sig.leaf_bits[3] = 1 - sig.leaf_bits[3];
    }
    assert!(!check_seed(777, BLOCK_X, BLOCK_Z, OFFSET, &sigs, ATTEMPTS));
}
