use vstd::prelude::*;

verus! {

/// Display resolution of the render target. The screen dimensions of every
/// frame buffer come from one of these fixed settings.
#[derive(Clone, Copy, Debug, PartialEq, Eq, Structural)]
pub enum Resolution {
    Low,
    Medium,
    High,
}

impl Resolution {
    /// Screen width in pixels.
    pub open spec fn width_spec(self) -> int {
        match self {
            Resolution::Low => 320,
            Resolution::Medium => 640,
            Resolution::High => 1280,
        }
    }

    /// Screen height in pixels.
    pub open spec fn height_spec(self) -> int {
        match self {
            Resolution::Low => 180,
            Resolution::Medium => 320,
            Resolution::High => 720,
        }
    }

    pub fn width(&self) -> (w: i32)
        ensures
            w == self.width_spec(),
    {
        match self {
            Resolution::Low => 320,
            Resolution::Medium => 640,
            Resolution::High => 1280,
        }
    }

    pub fn height(&self) -> (h: i32)
        ensures
            h == self.height_spec(),
    {
        match self {
            Resolution::Low => 180,
            Resolution::Medium => 320,
            Resolution::High => 720,
        }
    }

    pub fn total_pixels(&self) -> (n: i32)
        ensures
            n == self.width_spec() * self.height_spec(),
    {
        self.width() * self.height()
    }
}

} // verus!
