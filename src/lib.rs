//! An infinite, pannable, zoomable grid of dots: camera state driven by
//! pointer and wheel input, viewport culling, and per-frame dot geometry.
pub mod camera;
pub mod grid;
pub mod frame;
