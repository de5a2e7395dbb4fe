//! A tile-grid ray-casting renderer core on exact fixed-point arithmetic:
//! grid lookups, grid-line ray casting, wall columns with a depth buffer,
//! floor and ceiling projection, sprite occlusion, and camera motion.
pub mod camera;
pub mod fixed;
pub mod grid;
pub mod ray;
pub mod sprite;
pub mod surface;
pub mod walls;
