//! Pixel-grid geometry for rendering a spotlight on a flat plane.
//!
//! The library resolves a scene's canvas and tint, and maps every pixel of the
//! canvas to an exact point of the lit plane under an object-fit policy. The
//! floating-point shading of each point is left to the caller.
pub mod canvas;
pub mod falloff;
pub mod plane;
pub mod scene;
pub mod tint;

pub use canvas::{Canvas, ConfigError};
pub use falloff::Falloff;
pub use plane::{ObjectFit, PlanePoint};
pub use scene::Scene;
pub use tint::Tint;
