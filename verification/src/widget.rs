//! The widgets and the helpers they share.

pub mod button;
pub mod checkbox;
pub mod focus;
pub mod input;
pub mod key;
pub mod label;
pub mod laws;
pub mod model;
pub mod session;
pub mod slider;
pub mod text;
pub mod ui;
pub mod view;
