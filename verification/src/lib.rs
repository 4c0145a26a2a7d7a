pub mod api;
pub mod board;
pub mod compose;
pub mod frame;
pub mod gif;
pub mod raster;
pub mod render;
pub mod scan;
pub mod theme;
