//! Beat-synchronised slideshow engine.
//!
//! Given an ordered list of images, an optional music track and a tempo in
//! beats per minute, the engine shows one slide per beat and animates the
//! hand-over between consecutive slides with one of three transition styles
//! (zoom, fade, cut).  Everything time- and compositing-related is computed
//! here over fixed-point integers: local time in ticks of 1/1000 of a slide
//! duration, and sizes, opacities, blur radii and volumes in millionths of
//! one.  The rendering front end only decodes images, forwards wall-clock
//! time and key presses, and replays the draw operations that
//! [`show::frame_step`] hands back.

pub mod audio;
pub mod bytes;
pub mod compositor;
pub mod config;
pub mod easing;
pub mod manifest;
pub mod playback;
pub mod show;
pub mod timeline;
pub mod units;
