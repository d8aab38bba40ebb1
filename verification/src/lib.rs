//! Verified logic for small 2D games.
//!
//! The centre is a pixel-accurate collision test: two sprites collide when
//! their visible, opaque regions overlap, not merely their bounding
//! rectangles. World coordinates are whole units; every sprite may carry a
//! bit-packed opacity mask at its native texture resolution.
//!
//! Beside it stand the decisions of a message box, a catalogue of loaded
//! textures and the rules of blackjack. Nothing here draws, loads or reads
//! input: callers hand in plain values and get plain values back.

pub mod bet;
pub mod cards;
pub mod collision;
pub mod game;
pub mod geometry;
pub mod laws;
pub mod mask;
pub mod messagebox;
pub mod preload_image;
pub mod round;
pub mod scan;
pub mod sprite;
