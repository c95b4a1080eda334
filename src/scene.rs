use vstd::prelude::*;

use crate::canvas::{Canvas, ConfigError};
use crate::plane::ObjectFit;
use crate::tint::{black_body, Tint};

verus! {

/// The integer part of a resolved scene, shared read-only by every pixel.
#[derive(Clone, Copy, Debug, PartialEq, Eq, Structural)]
pub struct Scene {
    pub canvas: Canvas,
    pub fit: ObjectFit,
    pub tint: Tint,
}

impl Scene {
    /// A resolved scene has a non-empty canvas.
    pub open spec fn wf(&self) -> bool {
        self.canvas.wf()
    }

    /// Resolves the canvas and the light's tint, rejecting an empty canvas
    /// before any pixel is computed. A temperature outside `[1000, 40000]`
    /// gets the tint of the nearer end of that range.
    pub fn resolve(width: u32, height: u32, temperature: u32, fit: ObjectFit) -> (r: Result<
        Scene,
        ConfigError,
    >)
        ensures
            width == 0 ==> r == Err::<Scene, ConfigError>(ConfigError::ZeroWidth),
            width > 0 && height == 0 ==> r == Err::<Scene, ConfigError>(ConfigError::ZeroHeight),
            width > 0 && height > 0 ==> r is Ok,
            r matches Ok(s) ==> {
                &&& s.wf()
                &&& s.canvas == Canvas { width, height }
                &&& s.fit == fit
                &&& s.tint.components() == black_body(temperature)
                &&& temperature < 1000 ==> s.tint.components() == black_body(1000)
                &&& temperature > 40000 ==> s.tint.components() == black_body(40000)
            },
    {
        match Canvas::new(width, height) {
            Ok(canvas) => Ok(Scene { canvas, fit, tint: Tint::from_temperature(temperature) }),
            Err(e) => Err(e),
        }
    }
}

} // verus!
