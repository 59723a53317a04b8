//! PaperOS: geometry, Gray8 rendering, layout, refresh planning and the
//! IT8951 controller protocol for reflective displays, with contracts.

pub mod display;
pub mod graphics;
pub mod assets;
pub mod text;
pub mod ui;
pub mod layout;
pub mod runtime;
pub mod it8951;
pub mod linux;
pub mod rendering;
pub mod bringup;
pub mod simulator;
pub mod daily;
