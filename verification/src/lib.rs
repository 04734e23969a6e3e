//! A verified terminal-cell rendering pipeline for small pixel displays.
//!
//! The crate bridges a raw pixel-addressable display device to a
//! terminal-style cell renderer: a backend adapter keeps a grid of character
//! cells, tracks which cells changed since the last flush, and pushes the
//! dirty region to the display as pixel-rectangle writes; a render loop
//! computes the per-cycle diff; a typed bootstrap sequence makes the
//! orientation-before-clear ordering of display initialization a
//! compile-time guarantee.

pub mod geometry;

pub mod cell;

pub mod frame;

pub mod controller;

pub mod sink;

pub mod hook;

pub mod backend;

pub mod terminal;

pub mod widgets;

pub mod laws;
