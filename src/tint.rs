use vstd::prelude::*;

verus! {

/// The 8-bit sRGB color of a black body at `kelvin` degrees, as tempergb computes it.
pub uninterp spec fn black_body(kelvin: u32) -> (u8, u8, u8);

/// Relies on tempergb::rgb_from_temperature: its result depends on the temperature
/// alone; the temperature is first clamped to `[1000, 40000]`; red is full up to
/// 6600 K and blue is full from 6600 K on.
#[verifier::external_body]
fn rgb_from_temperature(kelvin: u32) -> (r: (u8, u8, u8))
    ensures
        r == black_body(kelvin),
        kelvin < 1000 ==> r == black_body(1000),
        kelvin > 40000 ==> r == black_body(40000),
        kelvin <= 6600 ==> r.0 == 255,
        kelvin >= 6600 ==> r.2 == 255,
{
    tempergb::rgb_from_temperature(kelvin).into_components()
}

/// The light's color, in 8-bit display-encoded channels.
#[derive(Clone, Copy, Debug, PartialEq, Eq, Structural)]
pub struct Tint {
    pub r: u8,
    pub g: u8,
    pub b: u8,
}

impl Tint {
    /// The channels as `(red, green, blue)`.
    pub open spec fn components(&self) -> (u8, u8, u8) {
        (self.r, self.g, self.b)
    }

    /// The tint of channels `(red, green, blue)`.
    pub fn from_components(rgb: (u8, u8, u8)) -> (t: Tint)
        ensures
            t.components() == rgb,
    {
        Tint { r: rgb.0, g: rgb.1, b: rgb.2 }
    }

    /// The tint of a black body at `kelvin` degrees. Temperatures outside
    /// `[1000, 40000]` get the tint of the nearer end of that range.
    pub fn from_temperature(kelvin: u32) -> (t: Tint)
        ensures
            t.components() == black_body(kelvin),
            kelvin < 1000 ==> t.components() == black_body(1000),
            kelvin > 40000 ==> t.components() == black_body(40000),
            kelvin <= 6600 ==> t.r == 255,
            kelvin >= 6600 ==> t.b == 255,
    {
        Tint::from_components(rgb_from_temperature(kelvin))
    }
}

} // verus!
