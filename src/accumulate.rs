//! Progressive accumulation: the per-pixel and shared sample counters, the
//! frame index, the reseed value that changes with the pose, and the choice
//! of how the accumulated image is shown.
//!
//! A frame is rendered in three steps: `begin_frame` advances the frame index,
//! every pixel's sample is computed independently from its `pixel_task`, and
//! `commit_frame` then counts the new sample in every pixel at once. Both
//! mutating steps take `&mut self`, so no reader can observe the state
//! between them, and the shared counter needs no atomic update.
use vstd::prelude::*;
use crate::image::{height_for_width, height_for_width_spec, pixel_coords, MAX_PIXELS};
use crate::rng::{
    initial_state, lemma_distinct_seeds_distinct_states, lemma_pixel_seeds_distinct,
    lemma_reseed_moves, next_reseed, next_reseed_spec, pixel_seed, pixel_seed_spec, state_after,
};

verus! {

/// Samples added to every pixel by one frame.
pub const SAMPLES_PER_FRAME: u32 = 1;

/// Fewest accumulated samples at which an enabled denoiser is applied.
pub const DENOISE_MIN_SAMPLES: u32 = 4;

/// Why an accumulator could not be built.
#[derive(Debug, Clone, Copy, PartialEq, Eq, Structural)]
pub enum ConfigError {
    /// The image would have no columns.
    ZeroWidth,
    /// The image would have more than `MAX_PIXELS` pixels.
    TooLarge,
}

/// How the accumulated image is turned into a displayed one.
#[derive(Debug, Clone, Copy, PartialEq, Eq, Structural)]
pub enum DisplayMode {
    /// Nothing has been accumulated: every pixel is black.
    Black,
    /// Every pixel's sum is divided by `samples`.
    Averaged { samples: u32 },
    /// Every pixel's sum is divided by `samples`, then the denoiser runs.
    Denoised { samples: u32 },
}

/// What one pixel's worker needs to draw its sample: the pixel's column,
/// its row counted from the bottom, and the seed of its private generator.
#[derive(Debug, Clone, Copy, PartialEq, Eq, Structural)]
pub struct PixelTask {
    pub column: u32,
    pub row_from_bottom: u32,
    pub seed: u64,
}

/// The abstract state of an accumulator.
pub struct AccumulatorView {
    pub width: u32,
    pub height: u32,
    pub pixel_samples: Seq<u32>,
    pub sample_count: u32,
    pub frame: u32,
    pub reseed: u64,
    pub denoise: bool,
}

impl AccumulatorView {
    /// Number of pixels of the image.
    pub open spec fn pixel_count(self) -> nat {
        (self.width * self.height) as nat
    }

    /// The image has a 16:9 shape that fits the limits, there is one counter
    /// per pixel, and every pixel has exactly as many samples as the shared
    /// counter says.
    pub open spec fn wf(self) -> bool {
        &&& self.width >= 1
        &&& self.height == height_for_width_spec(self.width)
        &&& self.width * self.height <= MAX_PIXELS
        &&& self.pixel_samples.len() == self.pixel_count()
        &&& forall|p: int|
            0 <= p < self.pixel_samples.len() ==> #[trigger] self.pixel_samples[p]
                == self.sample_count
    }
}

/// The state of a new accumulator for an image `width` pixels wide.
pub open spec fn fresh_spec(width: u32, reseed: u64) -> AccumulatorView {
    let height = height_for_width_spec(width);
    AccumulatorView {
        width,
        height,
        pixel_samples: Seq::new((width * height) as nat, |p: int| 0u32),
        sample_count: 0,
        frame: 0,
        reseed,
        denoise: false,
    }
}

/// `after` is `before` with every counter cleared.
pub open spec fn reset_spec(before: AccumulatorView, after: AccumulatorView) -> bool {
    after == AccumulatorView {
        pixel_samples: Seq::new(before.pixel_samples.len(), |p: int| 0u32),
        sample_count: 0,
        frame: 0,
        ..before
    }
}

/// `after` is `before` with the reseed value advanced and every counter cleared.
pub open spec fn pose_change_spec(before: AccumulatorView, after: AccumulatorView) -> bool {
    reset_spec(AccumulatorView { reseed: next_reseed_spec(before.reseed), ..before }, after)
}

/// `after` is `before` with the frame index advanced.
pub open spec fn begin_frame_spec(before: AccumulatorView, after: AccumulatorView) -> bool {
    after == AccumulatorView { frame: (before.frame + 1) as u32, ..before } && before.frame
        < u32::MAX
}

/// `after` is `before` with one more sample counted in every pixel and in
/// the shared counter.
pub open spec fn commit_spec(before: AccumulatorView, after: AccumulatorView) -> bool {
    &&& before.sample_count < u32::MAX
    &&& after == AccumulatorView {
        pixel_samples: Seq::new(
            before.pixel_samples.len(),
            |p: int| (before.pixel_samples[p] + SAMPLES_PER_FRAME) as u32,
        ),
        sample_count: (before.sample_count + SAMPLES_PER_FRAME) as u32,
        ..before
    }
}

/// How a state is displayed.
pub open spec fn display_mode_spec(v: AccumulatorView) -> DisplayMode {
    if v.sample_count == 0 {
        DisplayMode::Black
    } else if v.denoise && v.sample_count >= DENOISE_MIN_SAMPLES {
        DisplayMode::Denoised { samples: v.sample_count }
    } else {
        DisplayMode::Averaged { samples: v.sample_count }
    }
}

/// The counters of a progressively rendered image.
pub struct Accumulator {
    width: u32,
    height: u32,
    pixel_samples: Vec<u32>,
    sample_count: u32,
    current_frame: u32,
    reseed: u64,
    enable_denoising: bool,
}

impl View for Accumulator {
    type V = AccumulatorView;

    closed spec fn view(&self) -> AccumulatorView {
        AccumulatorView {
            width: self.width,
            height: self.height,
            pixel_samples: self.pixel_samples@,
            sample_count: self.sample_count,
            frame: self.current_frame,
            reseed: self.reseed,
            denoise: self.enable_denoising,
        }
    }
}

impl Accumulator {
    /// An accumulator for a 16:9 image `image_width` pixels wide, with no
    /// samples, denoising off, and `reseed` as its first reseed value.
    pub fn new(image_width: u32, reseed: u64) -> (r: Result<Accumulator, ConfigError>)
        ensures
            r is Ok <==> image_width >= 1 && image_width * height_for_width_spec(image_width)
                <= MAX_PIXELS,
            image_width == 0 <==> r == Err::<Accumulator, ConfigError>(ConfigError::ZeroWidth),
            (image_width >= 1 && image_width * height_for_width_spec(image_width) > MAX_PIXELS)
                <==> r == Err::<Accumulator, ConfigError>(ConfigError::TooLarge),
            r matches Ok(a) ==> a@ == fresh_spec(image_width, reseed) && a@.wf(),
    {
        if image_width == 0 {
            return Err(ConfigError::ZeroWidth);
        }
        let height = height_for_width(image_width);
        assert(image_width as u64 * height as u64 <= u32::MAX as u64 * u32::MAX as u64)
            by (nonlinear_arith);
        if image_width as u64 * height as u64 > MAX_PIXELS as u64 {
            return Err(ConfigError::TooLarge);
        }
        let n: usize = (image_width * height) as usize;
        let mut pixel_samples: Vec<u32> = Vec::with_capacity(n);
        let mut k: usize = 0;
        while k < n
            invariant
                k <= n,
                pixel_samples@.len() == k,
                forall|p: int| 0 <= p < k ==> pixel_samples@[p] == 0u32,
            decreases n - k,
        {
            pixel_samples.push(0);
            k = k + 1;
        }
        let a = Accumulator {
            width: image_width,
            height,
            pixel_samples,
            sample_count: 0,
            current_frame: 0,
            reseed,
            enable_denoising: false,
        };
        assert(a@.pixel_samples =~= fresh_spec(image_width, reseed).pixel_samples);
        Ok(a)
    }

    /// Width of the image in pixels.
    pub fn image_width(&self) -> (r: u32)
        ensures
            r == self@.width,
    {
        self.width
    }

    /// Height of the image in pixels.
    pub fn image_height(&self) -> (r: u32)
        ensures
            r == self@.height,
    {
        self.height
    }

    /// Number of pixels of the image.
    pub fn pixel_count(&self) -> (r: u32)
        requires
            self@.wf(),
        ensures
            r == self@.pixel_count(),
    {
        self.width * self.height
    }

    /// Samples accumulated in every pixel since the last reset.
    pub fn get_sample_count(&self) -> (r: u32)
        ensures
            r == self@.sample_count,
    {
        self.sample_count
    }

    /// Index of the frame being or last rendered since the last reset.
    pub fn current_frame(&self) -> (r: u32)
        ensures
            r == self@.frame,
    {
        self.current_frame
    }

    /// The current reseed value.
    pub fn reseed(&self) -> (r: u64)
        ensures
            r == self@.reseed,
    {
        self.reseed
    }

    /// Samples accumulated in pixel `index`.
    pub fn pixel_sample_count(&self, index: u32) -> (r: u32)
        requires
            self@.wf(),
            index < self@.pixel_count(),
        ensures
            r == self@.pixel_samples[index as int],
    {
        self.pixel_samples[index as usize]
    }

    /// Whether the denoiser is applied once enough samples are there.
    pub fn is_denoising_enabled(&self) -> (r: bool)
        ensures
            r == self@.denoise,
    {
        self.enable_denoising
    }

    /// Switches the denoiser on or off; nothing else changes.
    pub fn toggle_denoising(&mut self)
        ensures
            final(self)@ == (AccumulatorView { denoise: !old(self)@.denoise, ..old(self)@ }),
    {
        self.enable_denoising = !self.enable_denoising;
    }

    /// Clears every pixel's counter, the shared counter and the frame index.
    pub fn reset_accumulation(&mut self)
        requires
            old(self)@.wf(),
        ensures
            reset_spec(old(self)@, final(self)@),
            final(self)@.wf(),
    {
        let n: usize = self.pixel_samples.len();
        let mut k: usize = 0;
        while k < n
            invariant
                n == self.pixel_samples@.len(),
                n == old(self).pixel_samples@.len(),
                k <= n,
                forall|p: int| 0 <= p < k ==> self.pixel_samples@[p] == 0u32,
                self.width == old(self).width,
                self.height == old(self).height,
                self.sample_count == old(self).sample_count,
                self.current_frame == old(self).current_frame,
                self.reseed == old(self).reseed,
                self.enable_denoising == old(self).enable_denoising,
            decreases n - k,
        {
            self.pixel_samples.set(k, 0);
            k = k + 1;
        }
        self.sample_count = 0;
        self.current_frame = 0;
        assert(self.pixel_samples@ =~= Seq::new(n as nat, |p: int| 0u32));
    }

    /// Records a change of pose: the reseed value advances, so that the noise
    /// after the change is unrelated to the noise before it, and everything
    /// accumulated for the old pose is cleared.
    pub fn pose_changed(&mut self)
        requires
            old(self)@.wf(),
        ensures
            pose_change_spec(old(self)@, final(self)@),
            final(self)@.wf(),
    {
        self.reseed = next_reseed(self.reseed);
        self.reset_accumulation();
    }

    /// Starts a frame: advances the frame index that seeds the pixels'
    /// generators.
    pub fn begin_frame(&mut self) -> (r: u32)
        requires
            old(self)@.frame < u32::MAX,
        ensures
            begin_frame_spec(old(self)@, final(self)@),
            r == final(self)@.frame,
    {
        self.current_frame = self.current_frame + 1;
        self.current_frame
    }

    /// What the worker of pixel `index` needs for the current frame.
    pub fn pixel_task(&self, index: u32) -> (r: PixelTask)
        requires
            self@.wf(),
            index < self@.pixel_count(),
        ensures
            r.column == index % self@.width,
            r.row_from_bottom == self@.height - 1 - index / self@.width,
            r.seed == pixel_seed_spec(self@.reseed, self@.frame, index),
    {
        let (column, row) = pixel_coords(self.width, index);
        proof {
            let w = self.width as int;
            let h = self.height as int;
            assert(row < h) by (nonlinear_arith)
                requires
                    row * w + column == index,
                    index < w * h,
                    w >= 1,
                    column >= 0,
            ;
        }
        PixelTask {
            column,
            row_from_bottom: self.height - 1 - row,
            seed: pixel_seed(self.reseed, self.current_frame, index),
        }
    }

    /// Counts the frame's sample in every pixel and in the shared counter.
    /// Called once every pixel's sample of the frame has been computed.
    pub fn commit_frame(&mut self)
        requires
            old(self)@.wf(),
            old(self)@.sample_count < u32::MAX,
        ensures
            commit_spec(old(self)@, final(self)@),
            final(self)@.wf(),
    {
        let n: usize = self.pixel_samples.len();
        let mut k: usize = 0;
        while k < n
            invariant
                n == self.pixel_samples@.len(),
                n == old(self).pixel_samples@.len(),
                k <= n,
                forall|p: int|
                    0 <= p < k ==> self.pixel_samples@[p] == old(self).pixel_samples@[p]
                        + SAMPLES_PER_FRAME,
                forall|p: int| k <= p < n ==> self.pixel_samples@[p] == old(self).pixel_samples@[p],
                forall|p: int| 0 <= p < n ==> old(self).pixel_samples@[p] == old(self).sample_count,
                old(self).sample_count < u32::MAX,
                self.width == old(self).width,
                self.height == old(self).height,
                self.sample_count == old(self).sample_count,
                self.current_frame == old(self).current_frame,
                self.reseed == old(self).reseed,
                self.enable_denoising == old(self).enable_denoising,
            decreases n - k,
        {
            let c = self.pixel_samples[k];
            self.pixel_samples.set(k, c + SAMPLES_PER_FRAME);
            k = k + 1;
        }
        self.sample_count = self.sample_count + SAMPLES_PER_FRAME;
        assert(self.pixel_samples@ =~= Seq::new(
            n as nat,
            |p: int| (old(self).pixel_samples@[p] + SAMPLES_PER_FRAME) as u32,
        ));
    }

    /// How the accumulated image is to be displayed now.
    pub fn display_mode(&self) -> (r: DisplayMode)
        ensures
            r == display_mode_spec(self@),
    {
        if self.sample_count == 0 {
            DisplayMode::Black
        } else if self.enable_denoising && self.sample_count >= DENOISE_MIN_SAMPLES {
            DisplayMode::Denoised { samples: self.sample_count }
        } else {
            DisplayMode::Averaged { samples: self.sample_count }
        }
    }
}

/// Right after a reset the shared counter is zero and the image shows black.
pub proof fn lemma_reset_reads_black(before: AccumulatorView, after: AccumulatorView)
    requires
        before.wf(),
        reset_spec(before, after),
    ensures
        after.wf(),
        after.sample_count == 0,
        display_mode_spec(after) == DisplayMode::Black,
{
}

/// One frame rendered from an empty state leaves one sample in every pixel
/// and in the shared counter, and the image is shown with a divisor of one,
/// that is, as the raw samples.
pub proof fn lemma_one_frame_unscaled(v0: AccumulatorView, v1: AccumulatorView, v2: AccumulatorView)
    requires
        v0.wf(),
        v0.sample_count == 0,
        begin_frame_spec(v0, v1),
        commit_spec(v1, v2),
    ensures
        v2.wf(),
        v2.sample_count == 1,
        forall|p: int| 0 <= p < v2.pixel_samples.len() ==> v2.pixel_samples[p] == 1,
        display_mode_spec(v2) == (DisplayMode::Averaged { samples: 1 }),
{
}

/// After `k` frames with no change of pose, started from an empty state,
/// every pixel and the shared counter hold exactly `k` samples: each frame
/// is counted once, in every pixel.
pub proof fn lemma_frames_counted_once(states: Seq<AccumulatorView>, k: nat)
    requires
        states.len() == 2 * k + 1,
        states[0].wf(),
        states[0].sample_count == 0,
        forall|i: int|
            0 <= i < k ==> begin_frame_spec(#[trigger] states[2 * i], states[2 * i + 1])
                && commit_spec(states[2 * i + 1], states[2 * i + 2]),
    ensures
        states[2 * k as int].wf(),
        states[2 * k as int].sample_count == k,
        forall|p: int|
            0 <= p < states[2 * k as int].pixel_samples.len() ==> #[trigger] states[2 * k as int].pixel_samples[p]
                == k,
    decreases k,
{
    if k > 0 {
        let prefix = states.subrange(0, 2 * k as int - 1);
        let j = (k - 1) as nat;
        assert forall|i: int| 0 <= i < j implies begin_frame_spec(#[trigger] prefix[2 * i], prefix[2 * i + 1])
            && commit_spec(prefix[2 * i + 1], prefix[2 * i + 2]) by {
            assert(prefix[2 * i] == states[2 * i]);
            assert(begin_frame_spec(states[2 * i], states[2 * i + 1]));
        }
        lemma_frames_counted_once(prefix, j);
        let a = states[2 * j as int];
        assert(a == prefix[2 * j as int]);
        assert(begin_frame_spec(states[2 * j as int], states[2 * j as int + 1]));
    }
}

/// A change of pose after samples were accumulated clears every counter, so
/// the image shows black until the next frame, and the reseed value moves on.
pub proof fn lemma_pose_change_clears(before: AccumulatorView, after: AccumulatorView)
    requires
        before.wf(),
        before.sample_count > 0,
        pose_change_spec(before, after),
    ensures
        after.wf(),
        after.sample_count == 0,
        after.frame == 0,
        forall|p: int| 0 <= p < after.pixel_samples.len() ==> after.pixel_samples[p] == 0,
        display_mode_spec(after) == DisplayMode::Black,
        after.reseed != before.reseed,
{
    lemma_reseed_moves(before.reseed);
}

/// Under one reseed value, the generators of two different pixels of a frame,
/// or of one pixel in two different frames, never pass through the same
/// state, however many values they draw.
pub proof fn lemma_pixel_generators_never_meet(
    v: AccumulatorView,
    frame1: u32,
    pixel1: u32,
    frame2: u32,
    pixel2: u32,
    draws: nat,
)
    requires
        v.wf(),
        pixel1 < v.pixel_count(),
        pixel2 < v.pixel_count(),
        frame1 != frame2 || pixel1 != pixel2,
    ensures
        state_after(initial_state(pixel_seed_spec(v.reseed, frame1, pixel1)), draws) != state_after(
            initial_state(pixel_seed_spec(v.reseed, frame2, pixel2)),
            draws,
        ),
{
    lemma_pixel_seeds_distinct(v.reseed, frame1, pixel1, frame2, pixel2);
    lemma_distinct_seeds_distinct_states(
        pixel_seed_spec(v.reseed, frame1, pixel1),
        pixel_seed_spec(v.reseed, frame2, pixel2),
        draws,
    );
}

} // verus!
