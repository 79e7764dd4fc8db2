//! A verified timeline runtime for Flash (SWF) animations.
//!
//! The library decodes the tag stream of a SWF movie, keeps the display list
//! of every movie clip, steps clips frame by frame, jumps to frames, and
//! drives the playback state of an animation player.

pub mod queued_tags;
pub mod tags;
pub mod swf_io;
pub mod tag_utils;
pub mod place_object;
pub mod display_object;
pub mod key_order;
pub mod container;
pub mod movie_clip;
pub mod runtime;
pub mod blend;
pub mod render_graph;
pub mod filter_offsets;
pub mod animations;
pub mod player;
pub mod masks;
pub mod filters;
pub mod draw_commands;
pub mod gradients;
