//! Launching 3D-printing slicer applications on model files.
pub mod command;
pub mod slicer;
pub mod dispatch;
pub mod model;
