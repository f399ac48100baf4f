//! Platform-independent rendering core of an animated "analyzing" status
//! display: pixel buffers, a clipping framebuffer view, a masked sprite,
//! scanline glitches, noise bursts, duration text and the frame director.

pub mod color;
pub mod geometry;
pub mod buffer;
pub mod error;
pub mod frame;
pub mod rng;
pub mod glitch;
pub mod noise;
pub mod text;
pub mod duration;
pub mod image;
pub mod director;
