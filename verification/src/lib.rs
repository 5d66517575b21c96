//! The pointer cursor of a compositor.
//!
//! A themed cursor animation is resolved and decoded once, laid out on a
//! timeline of cumulative frame delays, and turned into the list of render
//! elements for each redraw:
//!
//! - `config`: the theme name and icon size to use, with their defaults;
//! - `theme`: which themes to search for the icon, in which order;
//! - `frame`: the frames of an icon file, and the choice among their sizes;
//! - `timeline`: the frames keyed by cumulative delay, and the lookup of the
//!   frame that is active at an offset;
//! - `element`: the pointer's state and the render elements of one redraw;
//! - `error`: what can go wrong.
//!
//! Reading the environment, the theme directories and the icon file, handing
//! pixels to the renderer, reading the clock and flattening a client's
//! surface are the caller's work.

pub mod config;
pub mod element;
pub mod error;
pub mod frame;
pub mod theme;
pub mod timeline;
