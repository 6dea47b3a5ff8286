//! What decorations look like once every setting is resolved.

use vstd::prelude::*;

verus! {

/// A titlebar button.
#[derive(Debug, Clone, Copy, PartialEq, Eq, Structural)]
pub enum DecorationButton {
    Minimize,
    Maximize,
    Close,
}

/// The end of the titlebar that holds the buttons.
#[derive(Debug, Clone, Copy, PartialEq, Eq, Structural)]
pub enum DecorationButtonSide {
    Left,
    Right,
}

/// Where the titlebar color comes from.
#[derive(Debug, Clone, Copy, PartialEq, Eq, Structural)]
pub enum TitlebarColorMode {
    Theme,
    Blend,
}

/// Resolved decoration settings. Colors are red, green, blue and alpha.
#[derive(Debug, Clone)]
pub struct DecorationTheme {
    pub titlebar_height: i32,
    pub border_width: i32,
    pub corner_radius: i32,
    pub titlebar_mode: TitlebarColorMode,
    pub active_titlebar: [u8; 4],
    pub inactive_titlebar: [u8; 4],
    pub active_border: [u8; 4],
    pub inactive_border: [u8; 4],
    pub close_button: [u8; 4],
    pub maximize_button: [u8; 4],
    pub minimize_button: [u8; 4],
    pub button_layout: Vec<DecorationButton>,
    pub button_side: DecorationButtonSide,
    pub title_centered: bool,
    pub show_icon: bool,
    pub drag_margin: i32,
}

} // verus!
