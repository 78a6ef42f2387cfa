pub mod camera;
pub mod input;
pub mod loaders;
pub mod multi_viewer;
pub mod renderer;
pub mod scale;
pub mod sync_features;
pub mod tiling;
pub mod util;
pub mod viewer;
