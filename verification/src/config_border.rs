//! Numeric form of the border policy, as shaders read it.

use crate::config::BorderMode;
use vstd::prelude::*;

verus! {

/// Border policy as a shader constant: `BORDER_TORUS` is 0, `BORDER_WALL` is 1.
#[derive(Clone, Copy, Debug, PartialEq, Eq, Structural)]
pub enum BorderCode {
    Torus,
    Wall,
}

impl BorderCode {
    /// The number that shaders compare with.
    pub open spec fn as_u32(self) -> u32 {
        match self {
            BorderCode::Torus => 0,
            BorderCode::Wall => 1,
        }
    }

    /// The number that shaders compare with.
    pub fn code(self) -> (code: u32)
        ensures
            code == self.as_u32(),
    {
        match self {
            BorderCode::Torus => 0,
            BorderCode::Wall => 1,
        }
    }
}

/// The code of a border policy.
pub open spec fn border_code(m: BorderMode) -> BorderCode {
    match m {
        BorderMode::Torus => BorderCode::Torus,
        BorderMode::Wall => BorderCode::Wall,
    }
}

impl vstd::std_specs::convert::FromSpecImpl<BorderMode> for BorderCode {
    open spec fn obeys_from_spec() -> bool {
        true
    }

    open spec fn from_spec(m: BorderMode) -> BorderCode {
        border_code(m)
    }
}

impl From<BorderMode> for BorderCode {
    fn from(m: BorderMode) -> (code: BorderCode) {
        match m {
            BorderMode::Torus => BorderCode::Torus,
            BorderMode::Wall => BorderCode::Wall,
        }
    }
}

/// Shaders read 0 for a torus and 1 for walls.
pub proof fn law_border_codes(m: BorderMode)
    ensures
        border_code(m).as_u32() == 0 <==> m == BorderMode::Torus,
        border_code(m).as_u32() == 1 <==> m == BorderMode::Wall,
{
}

} // verus!
