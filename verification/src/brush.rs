//! The brush: the active color and the thickness of freehand strokes.

use crate::canvas::{clamp, clamped, Color};
use vstd::prelude::*;

verus! {

/// The thinnest brush.
pub const MIN_THICKNESS: usize = 1;

/// The thickest brush.
pub const MAX_THICKNESS: usize = 10;

/// The color of a new brush: black.
pub const BLACK: Color = [0, 0, 0];

/// The mathematical model of a brush.
pub struct BrushView {
    pub color: Color,
    pub thickness: nat,
}

impl BrushView {
    /// The thickness lies in the accepted range.
    pub open spec fn wf(self) -> bool {
        MIN_THICKNESS <= self.thickness <= MAX_THICKNESS
    }
}

/// The thickness that a request for `requested` gives: the nearest one in the
/// accepted range.
pub open spec fn accepted_thickness(requested: int) -> int {
    clamped(requested, MIN_THICKNESS as int, MAX_THICKNESS as int)
}

/// Whatever is requested, the accepted thickness lies between 1 and 10, and
/// a request within that range is accepted as it is.
pub proof fn lemma_accepted_thickness(requested: int)
    ensures
        1 <= accepted_thickness(requested) <= 10,
        1 <= requested <= 10 ==> accepted_thickness(requested) == requested,
        requested < 1 ==> accepted_thickness(requested) == 1,
        requested > 10 ==> accepted_thickness(requested) == 10,
{
}

/// The active color and brush thickness. The thickness always lies between
/// `MIN_THICKNESS` and `MAX_THICKNESS`.
#[derive(Clone, Copy, Debug)]
pub struct Brush {
    color: Color,
    thickness: usize,
}

impl View for Brush {
    type V = BrushView;

    closed spec fn view(&self) -> BrushView {
        BrushView { color: self.color, thickness: self.thickness as nat }
    }
}

impl Brush {
    /// The thickness of every brush lies in the accepted range.
    #[verifier::type_invariant]
    pub open spec fn well_formed(self) -> bool {
        self@.wf()
    }

    /// A black brush of thickness 1.
    pub fn new() -> (brush: Brush)
        ensures
            brush@ == (BrushView { color: BLACK, thickness: 1 }),
            brush@.wf(),
    {
        Brush { color: BLACK, thickness: MIN_THICKNESS }
    }

    /// The active color.
    pub fn color(&self) -> (color: Color)
        ensures
            color == self@.color,
    {
        self.color
    }

    /// The thickness of freehand strokes.
    pub fn thickness(&self) -> (thickness: usize)
        ensures
            thickness == self@.thickness,
            MIN_THICKNESS <= thickness <= MAX_THICKNESS,
    {
        proof {
            use_type_invariant(self);
        }
        self.thickness
    }

    /// Changes the active color.
    pub fn set_color(&mut self, color: Color)
        ensures
            final(self)@ == (BrushView { color, ..old(self)@ }),
    {
        proof {
            use_type_invariant(&*self);
        }
        self.color = color;
    }

    /// Changes the thickness. A request below the range gives the thinnest
    /// brush and one above it the thickest.
    pub fn set_thickness(&mut self, requested: usize)
        ensures
            final(self)@ == (BrushView {
                thickness: accepted_thickness(requested as int) as nat,
                ..old(self)@
            }),
            final(self)@.wf(),
    {
        proof {
            use_type_invariant(&*self);
        }
        self.thickness = clamp(requested, MIN_THICKNESS, MAX_THICKNESS);
    }
}

} // verus!
