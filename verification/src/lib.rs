//! The decision core of the Blair Wayland compositor.
//!
//! Everything here works on plain values: window bookkeeping, workspaces,
//! layout, decorations, shortcuts, configuration rules and the pixel work of
//! the software-drawn parts. The program around it owns the Wayland objects,
//! the renderer and the files, hands plain values in and performs the actions
//! it gets back.

pub mod bindings;
pub mod blur;
pub mod capture;
pub mod changes;
pub mod clip;
pub mod config;
pub mod cursor;
pub mod decoration;
pub mod desktop;
pub mod documents;
pub mod frame;
pub mod geometry;
pub mod glyphs;
pub mod grabs;
pub mod hit_test;
pub mod icons;
pub mod input;
pub mod invariants;
pub mod laws;
pub mod layers;
pub mod layout;
pub mod model;
pub mod outputs;
pub mod pacing;
pub mod paths;
pub mod pixels;
pub mod protocol;
pub mod reals;
pub mod regexes;
pub mod requests;
pub mod rules;
pub mod scene;
pub mod seqs;
pub mod session;
pub mod shortcuts;
pub mod startup;
pub mod state;
pub mod stats;
pub mod text;
pub mod theme;
pub mod wire;
