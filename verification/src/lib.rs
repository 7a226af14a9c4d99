//! Verified core of a tool that turns terminal output into a PNG picture of a
//! terminal window: the ANSI screen model, the colour theme, the layout of
//! panels and window chrome, and the pixel-level drawing of the chrome.

pub mod text;
pub mod executor;
pub mod parser;
pub mod terminal;
pub mod theme;
pub mod layout;
pub mod canvas;
pub mod renderer;
