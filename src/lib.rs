//! Integer core of a progressive Monte Carlo path tracer: the per-pixel
//! generator and its seeding, image geometry, the accumulation and reset
//! protocol, the denoiser's neighbourhood geometry and the packing of the
//! display buffer.
pub mod accumulate;
pub mod denoise;
pub mod image;
pub mod rng;
