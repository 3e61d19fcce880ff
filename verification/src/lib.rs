//! Platform pieces of a windowing library for the Web (a canvas in a browser page) and for
//! Redox OS (windows served by the orbital display server).
//!
//! The library holds the decisions of both backends as verified Rust: the Web window
//! attributes and their builders, the scheduling strategies and the error messages of the
//! Web backend, and the orbital window paths, which are parsed from and written back to the
//! `flags/x/y/w/h/title` form that the display server uses.
pub mod web;
pub mod decimal;
pub mod orbital;
