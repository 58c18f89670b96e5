//! A skeletal-animation engine on an integer timeline, with the colours,
//! diagnostics, cameras and plugins of its host.
//!
//! The engine decides, tick by tick, which keyframes of which curve are
//! blended into which scene node, and by which factor. Time, weights and
//! speeds are fixed-point integers, so every decision has an exact contract.
//! The blending itself is arithmetic on the values that the host hands in.

pub mod units;

pub mod clip;
pub mod scene;

pub mod resolve;
pub mod sample;

pub mod playing;
pub mod apply;
pub mod player;

pub mod app_builder;
pub mod camera;
pub mod color;
pub mod debug_name;
pub mod diagnostics;
