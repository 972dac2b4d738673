use ray_tracer::accumulate::{Accumulator, ConfigError, DisplayMode, PixelTask};
use ray_tracer::image::black_frame;
use ray_tracer::rng::{next_reseed, pixel_seed};

fn render(acc: &mut Accumulator) {
    acc.begin_frame();
    acc.commit_frame();
}

fn all_pixels_hold(acc: &Accumulator, n: u32) -> bool {
    (0..acc.pixel_count()).all(|p| acc.pixel_sample_count(p) == n)
}

#[test]
fn new_accumulator_is_empty() {
    let acc = Accumulator::new(32, 5).unwrap();
    assert_eq!(acc.image_width(), 32);
    assert_eq!(acc.image_height(), 18);
    assert_eq!(acc.pixel_count(), 32 * 18);
    assert_eq!(acc.get_sample_count(), 0);
    assert_eq!(acc.current_frame(), 0);
    assert_eq!(acc.reseed(), 5);
    assert!(!acc.is_denoising_enabled());
    assert!(all_pixels_hold(&acc, 0));
    assert_eq!(acc.display_mode(), DisplayMode::Black);
}

#[test]
fn zero_width_is_refused() {
    assert_eq!(Accumulator::new(0, 1).err(), Some(ConfigError::ZeroWidth));
}

#[test]
fn oversized_image_is_refused() {
    assert_eq!(Accumulator::new(100_000, 1).err(), Some(ConfigError::TooLarge));
    assert!(Accumulator::new(43_000, 1).is_ok());
    assert_eq!(Accumulator::new(43_700, 1).err(), Some(ConfigError::TooLarge));
}

#[test]
fn reset_then_read_is_black() {
    let mut acc = Accumulator::new(16, 3).unwrap();
    render(&mut acc);
    render(&mut acc);
    acc.reset_accumulation();
    assert_eq!(acc.get_sample_count(), 0);
    assert_eq!(acc.current_frame(), 0);
    assert!(all_pixels_hold(&acc, 0));
    assert_eq!(acc.display_mode(), DisplayMode::Black);
    let frame = black_frame(acc.pixel_count());
    assert_eq!(frame.len(), 16 * 9 * 4);
    assert!(frame.chunks(4).all(|px| px == [0, 0, 0, 255]));
}

#[test]
fn one_frame_is_shown_unscaled() {
    let mut acc = Accumulator::new(16, 3).unwrap();
    render(&mut acc);
    assert_eq!(acc.get_sample_count(), 1);
    assert!(all_pixels_hold(&acc, 1));
    assert_eq!(acc.display_mode(), DisplayMode::Averaged { samples: 1 });
}

#[test]
fn k_frames_count_k_samples_everywhere() {
    let mut acc = Accumulator::new(16, 3).unwrap();
    for k in 1..=7u32 {
        render(&mut acc);
        assert_eq!(acc.get_sample_count(), k);
        assert_eq!(acc.current_frame(), k);
        assert!(all_pixels_hold(&acc, k));
    }
}

#[test]
fn pose_change_clears_and_reseeds() {
    let mut acc = Accumulator::new(16, 3).unwrap();
    for _ in 0..5 {
        render(&mut acc);
    }
    acc.pose_changed();
    assert_eq!(acc.get_sample_count(), 0);
    assert_eq!(acc.current_frame(), 0);
    assert!(all_pixels_hold(&acc, 0));
    assert_eq!(acc.reseed(), next_reseed(3));
    assert_eq!(acc.display_mode(), DisplayMode::Black);
}

#[test]
fn denoiser_waits_for_enough_samples() {
    let mut acc = Accumulator::new(16, 3).unwrap();
    acc.toggle_denoising();
    assert!(acc.is_denoising_enabled());
    for _ in 0..3 {
        render(&mut acc);
    }
    assert_eq!(acc.display_mode(), DisplayMode::Averaged { samples: 3 });
    render(&mut acc);
    assert_eq!(acc.display_mode(), DisplayMode::Denoised { samples: 4 });
    acc.toggle_denoising();
    assert_eq!(acc.display_mode(), DisplayMode::Averaged { samples: 4 });
}

#[test]
fn pixel_tasks_flip_rows_and_seed_per_pixel() {
    let mut acc = Accumulator::new(16, 77).unwrap();
    let frame = acc.begin_frame();
    assert_eq!(frame, 1);
    assert_eq!(
        acc.pixel_task(0),
        PixelTask { column: 0, row_from_bottom: 8, seed: pixel_seed(77, 1, 0) }
    );
    assert_eq!(
        acc.pixel_task(16 * 9 - 1),
        PixelTask { column: 15, row_from_bottom: 0, seed: pixel_seed(77, 1, 143) }
    );
    assert_eq!(acc.pixel_task(21).column, 5);
    assert_eq!(acc.pixel_task(21).row_from_bottom, 7);
}
