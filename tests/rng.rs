use ray_tracer::rng::{next_reseed, pixel_seed, FastRng};

fn first_draws(seed: u64, n: usize) -> Vec<u32> {
    let mut rng = FastRng::new(seed);
    let mut out = Vec::new();
    for _ in 0..n {
        out.push(rng.next_u32());
    }
    out
}

#[test]
fn draws_match_known_values() {
    assert_eq!(first_draws(42, 4), vec![3925992309, 3277757105, 4008122615, 2257255559]);
}

#[test]
fn identical_seeds_give_identical_draws() {
    assert_eq!(first_draws(987654321, 64), first_draws(987654321, 64));
}

#[test]
fn neighbouring_pixels_diverge_quickly() {
    let a = first_draws(pixel_seed(12345, 1, 0), 3);
    let b = first_draws(pixel_seed(12345, 1, 1), 3);
    assert_ne!(a, b);
    assert_ne!(a[0], b[0]);
}

#[test]
fn successive_frames_diverge_quickly() {
    let a = first_draws(pixel_seed(12345, 1, 7), 3);
    let b = first_draws(pixel_seed(12345, 2, 7), 3);
    assert_ne!(a, b);
}

#[test]
fn pixel_seed_known_values() {
    assert_eq!(pixel_seed(12345, 1, 0), 14201914506570958830);
    assert_eq!(pixel_seed(12345, 1, 1), 2119306656708200219);
    assert_eq!(pixel_seed(12345, 2, 0), 18242475843102522123);
    assert_eq!(pixel_seed(0, 0, 0), 0);
    assert_eq!(pixel_seed(0, 1, 0), 4040561336531563293);
}

#[test]
fn pixel_seeds_of_a_small_image_are_distinct() {
    let mut seeds = Vec::new();
    for frame in 1..4u32 {
        for pixel in 0..200u32 {
            seeds.push(pixel_seed(99, frame, pixel));
        }
    }
    let n = seeds.len();
    seeds.sort();
    seeds.dedup();
    assert_eq!(seeds.len(), n);
}

#[test]
fn reseed_advances() {
    assert_eq!(next_reseed(7), 9098160460397411210);
    assert_eq!(next_reseed(0), 1442695040888963407);
    assert_ne!(next_reseed(123), 123);
}
