//! Membership-function shapes and the segment of a shape that a value falls on.

use crate::scalar::{one_rank, Scalar};
use vstd::prelude::*;

verus! {

/// The shape of a membership function.
#[derive(Debug, Clone, Copy)]
pub enum MembershipKind {
    /// Rises from `a` to the peak at `b`, falls to `c`.
    Triangle { a: Scalar, b: Scalar, c: Scalar },
    /// Rises from `a` to `b`, stays at one up to `c`, falls to `d`.
    Trapezoid { a: Scalar, b: Scalar, c: Scalar, d: Scalar },
    /// A bell centred at `mu` whose width is `sigma`.
    Gauss { sigma: Scalar, mu: Scalar },
}

/// The part of a shape that a value falls on.
#[derive(Debug, Clone, Copy, PartialEq, Eq, Structural)]
pub enum Segment {
    /// At or beyond a foot of the shape: the degree is zero.
    Outside,
    /// On the peak or the plateau: the degree is one.
    Plateau,
    /// Strictly between the left foot and the left shoulder.
    Rising,
    /// Strictly between the right shoulder and the right foot.
    Falling,
    /// Anywhere on a bell curve.
    Bell,
}

impl Segment {
    /// The rank of the degree that the segment fixes, if it fixes one: zero
    /// outside the shape, one on its plateau.
    pub open spec fn fixed_degree(self) -> Option<int> {
        match self {
            Segment::Outside => Some(0),
            Segment::Plateau => Some(one_rank()),
            _ => None,
        }
    }
}

impl MembershipKind {
    /// The parameters are in order: `a <= b <= c` for a triangle,
    /// `a <= b <= c <= d` for a trapezoid, `sigma > 0` for a bell.
    pub open spec fn well_formed(&self) -> bool {
        match *self {
            MembershipKind::Triangle { a, b, c } => a@ <= b@ <= c@,
            MembershipKind::Trapezoid { a, b, c, d } => a@ <= b@ <= c@ <= d@,
            MembershipKind::Gauss { sigma, mu } => sigma@ > 0,
        }
    }

    /// The segment of the shape that the value of rank `x` falls on.
    pub open spec fn segment_at(&self, x: int) -> Segment {
        match *self {
            MembershipKind::Triangle { a, b, c } => {
                if x <= a@ || x >= c@ {
                    Segment::Outside
                } else if x == b@ {
                    Segment::Plateau
                } else if x < b@ {
                    Segment::Rising
                } else {
                    Segment::Falling
                }
            },
            MembershipKind::Trapezoid { a, b, c, d } => {
                if x <= a@ || x >= d@ {
                    Segment::Outside
                } else if b@ <= x <= c@ {
                    Segment::Plateau
                } else if x < b@ {
                    Segment::Rising
                } else {
                    Segment::Falling
                }
            },
            MembershipKind::Gauss { sigma, mu } => Segment::Bell,
        }
    }

    /// The rank of the degree at the value of rank `x`, where the shape fixes
    /// it without arithmetic: zero outside the feet, one on the peak or
    /// plateau. On the ramps and on a bell it is left to arithmetic.
    pub open spec fn fixed_degree_at(&self, x: int) -> Option<int> {
        self.segment_at(x).fixed_degree()
    }

    /// The rank of the degree at the value of rank `x`: zero outside the
    /// feet, one on the peak or plateau, and `slope` on the ramps and on a
    /// bell, where `slope` is what arithmetic gives there.
    pub open spec fn degree_at(&self, x: int, slope: int) -> int {
        match self.fixed_degree_at(x) {
            Some(fixed) => fixed,
            None => slope,
        }
    }

    /// Checks that the parameters are in order.
    pub fn is_well_formed(&self) -> (r: bool)
        ensures
            r == self.well_formed(),
    {
        match *self {
            MembershipKind::Triangle { a, b, c } => a.le(b) && b.le(c),
            MembershipKind::Trapezoid { a, b, c, d } => a.le(b) && b.le(c) && c.le(d),
            MembershipKind::Gauss { sigma, mu } => Scalar::zero().lt(sigma),
        }
    }

    /// Finds the segment of the shape that `x` falls on.
    pub fn segment(&self, x: Scalar) -> (r: Segment)
        ensures
            r == self.segment_at(x@),
    {
        match *self {
            MembershipKind::Triangle { a, b, c } => {
                if x.le(a) || c.le(x) {
                    Segment::Outside
                } else if x.le(b) && b.le(x) {
                    Segment::Plateau
                } else if x.lt(b) {
                    Segment::Rising
                } else {
                    Segment::Falling
                }
            },
            MembershipKind::Trapezoid { a, b, c, d } => {
                if x.le(a) || d.le(x) {
                    Segment::Outside
                } else if b.le(x) && x.le(c) {
                    Segment::Plateau
                } else if x.lt(b) {
                    Segment::Rising
                } else {
                    Segment::Falling
                }
            },
            MembershipKind::Gauss { sigma, mu } => Segment::Bell,
        }
    }

    /// The degree of membership of `x`. `slope` is the value that the ramp
    /// or the bell takes at `x`; it is returned where `x` falls on one of
    /// them and ignored elsewhere.
    pub fn degree(&self, x: Scalar, slope: Scalar) -> (r: Scalar)
        ensures
            r@ == self.degree_at(x@, slope@),
    {
        match self.segment(x) {
            Segment::Outside => Scalar::zero(),
            Segment::Plateau => Scalar::one(),
            _ => slope,
        }
    }

    /// A triangle has degree zero at both feet and beyond them, and degree
    /// one at its peak where the peak lies strictly between the feet,
    /// whatever the slopes are. Left of the peak it rises, right of it it
    /// falls, and there the degree is the slope.
    pub proof fn lemma_triangle_shape(a: Scalar, b: Scalar, c: Scalar, x: int, slope: int)
        ensures
            (MembershipKind::Triangle { a, b, c }).degree_at(a@, slope) == 0,
            (MembershipKind::Triangle { a, b, c }).degree_at(c@, slope) == 0,
            x <= a@ || x >= c@ ==> (MembershipKind::Triangle { a, b, c }).degree_at(x, slope) == 0,
            a@ < b@ < c@ ==> (MembershipKind::Triangle { a, b, c }).degree_at(b@, slope)
                == one_rank(),
            a@ < x < c@ && x < b@ ==> (MembershipKind::Triangle { a, b, c }).segment_at(x)
                == Segment::Rising && (MembershipKind::Triangle { a, b, c }).degree_at(x, slope)
                == slope,
            a@ < x < c@ && x > b@ ==> (MembershipKind::Triangle { a, b, c }).segment_at(x)
                == Segment::Falling && (MembershipKind::Triangle { a, b, c }).degree_at(x, slope)
                == slope,
    {
    }

    /// The degree of a triangle never decreases up to its peak and never
    /// increases from its peak on, provided that the slopes handed in do
    /// the same and lie between zero and one. The peak itself is left out
    /// where it stands on the other foot, as the degree is zero there.
    pub proof fn lemma_triangle_rises_then_falls(
        a: Scalar,
        b: Scalar,
        c: Scalar,
        x: int,
        slope_x: int,
        y: int,
        slope_y: int,
    )
        requires
            (MembershipKind::Triangle { a, b, c }).well_formed(),
            0 <= slope_x <= one_rank(),
            0 <= slope_y <= one_rank(),
            x <= y,
        ensures
            y <= b@ && slope_x <= slope_y && (y < b@ || b@ < c@) ==> (MembershipKind::Triangle {
                a,
                b,
                c,
            }).degree_at(x, slope_x) <= (MembershipKind::Triangle { a, b, c }).degree_at(
                y,
                slope_y,
            ),
            b@ <= x && slope_x >= slope_y && (b@ < x || a@ < b@) ==> (MembershipKind::Triangle {
                a,
                b,
                c,
            }).degree_at(x, slope_x) >= (MembershipKind::Triangle { a, b, c }).degree_at(
                y,
                slope_y,
            ),
    {
    }

    /// A trapezoid has degree zero at both feet and beyond them, and degree
    /// one on its plateau between the feet, whatever the slopes are. Between
    /// the left foot and the plateau it rises, between the plateau and the
    /// right foot it falls, and there the degree is the slope.
    pub proof fn lemma_trapezoid_shape(
        a: Scalar,
        b: Scalar,
        c: Scalar,
        d: Scalar,
        x: int,
        slope: int,
    )
        ensures
            x <= a@ || x >= d@ ==> (MembershipKind::Trapezoid { a, b, c, d }).degree_at(x, slope)
                == 0,
            a@ < x < d@ && b@ <= x <= c@ ==> (MembershipKind::Trapezoid { a, b, c, d }).degree_at(
                x,
                slope,
            ) == one_rank(),
            a@ < x < d@ && x < b@ ==> (MembershipKind::Trapezoid { a, b, c, d }).segment_at(x)
                == Segment::Rising && (MembershipKind::Trapezoid { a, b, c, d }).degree_at(
                x,
                slope,
            ) == slope,
            a@ < x < d@ && x > c@ && b@ <= c@ ==> (MembershipKind::Trapezoid { a, b, c, d }).segment_at(
                x,
            ) == Segment::Falling && (MembershipKind::Trapezoid { a, b, c, d }).degree_at(
                x,
                slope,
            ) == slope,
    {
    }

    /// Every value falls on the bell of a bell curve: its degree is always
    /// the slope.
    pub proof fn lemma_gauss_shape(sigma: Scalar, mu: Scalar, x: int, slope: int)
        ensures
            (MembershipKind::Gauss { sigma, mu }).segment_at(x) == Segment::Bell,
            (MembershipKind::Gauss { sigma, mu }).degree_at(x, slope) == slope,
    {
    }
}

} // verus!
