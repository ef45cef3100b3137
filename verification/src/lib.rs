//! Deterministic procedural terrain synthesis.
//!
//! The crate generates a 2D heightmap from layered coherent noise,
//! normalizes it onto the unit interval, classifies it into named terrain
//! regions or a continuous gradient, and triangulates it into a surface
//! mesh. All real-valued quantities are carried as 64-bit fixed-point
//! numbers with six decimal fractional digits, so every step of the
//! pipeline is exact, total and verified.

pub mod fixed;
pub mod utils;
pub mod rng;
pub mod coherent;
pub mod gen;

pub use fixed::FP;
pub use utils::{lerp, inv_lerp, color_lerp, Rgba};
pub use gen::{MapPlugin, NoiseConfig, NoiseView, Noise, TerrainType, DrawMode, GenError, Undefined, Generated, MeshData, Vec3, Vec2};
