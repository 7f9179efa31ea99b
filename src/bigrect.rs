use crate::rational::{rat_clone, rat_div, rat_from_int, rat_gt, rat_is_valid, rat_mul, rat_ok, rat_reduced, rat_value};
use num::BigRational;
use vstd::prelude::*;

verus! {

/// A rectangle of the complex plane in exact values: `[left, left + width]`
/// times `[top - height, top]`.
pub ghost struct RectModel {
    pub left: real,
    pub top: real,
    pub width: real,
    pub height: real,
}

/// A viewport over the complex plane, held in exact rationals.
#[derive(PartialEq, Debug)]
pub struct FloatRect {
    pub left: BigRational,
    pub top: BigRational,
    pub width: BigRational,
    pub height: BigRational,
}

impl View for FloatRect {
    type V = RectModel;

    open spec fn view(&self) -> RectModel {
        RectModel {
            left: rat_value(self.left),
            top: rat_value(self.top),
            width: rat_value(self.width),
            height: rat_value(self.height),
        }
    }
}

impl RectModel {
    /// Both extents are positive.
    pub open spec fn wf(self) -> bool {
        self.width > 0 as real && self.height > 0 as real
    }
}

/// The opening view for a surface of `w` by `h` pixels: the real axis from
/// -11/4 over a width of 9/2, the height scaled to the surface's aspect, and
/// the real axis halfway down.
pub open spec fn default_model(w: real, h: real) -> RectModel {
    RectModel {
        left: -11 as real / 4 as real,
        top: (h / w * (9 as real / 2 as real)) / 2 as real,
        width: 9 as real / 2 as real,
        height: h / w * (9 as real / 2 as real),
    }
}

impl FloatRect {
    /// Every field is a ratio with a nonzero denominator.
    pub open spec fn fields_ok(&self) -> bool {
        rat_ok(self.left) && rat_ok(self.top) && rat_ok(self.width) && rat_ok(self.height)
    }

    /// A viewport proper: valid fields and positive extents.
    pub open spec fn wf(&self) -> bool {
        self.fields_ok() && self@.wf()
    }

    pub fn new(left: BigRational, top: BigRational, width: BigRational, height: BigRational) -> (r:
        FloatRect)
        ensures
            r.left == left,
            r.top == top,
            r.width == width,
            r.height == height,
    {
        FloatRect { left, top, width, height }
    }

    /// The opening view for a surface of `w` by `h` pixels (see `default_model`).
    pub fn default_view(w: u32, h: u32) -> (r: FloatRect)
        requires
            w > 0,
        ensures
            r.fields_ok(),
            r@ == default_model(w as real, h as real),
            h > 0 ==> r.wf(),
    {
        let four = rat_from_int(4);
        let two = rat_from_int(2);
        let left = rat_div(&rat_from_int(-11), &four);
        let width = rat_div(&rat_from_int(9), &two);
        let aspect = rat_div(&rat_from_int(h as i64), &rat_from_int(w as i64));
        let height = rat_mul(&aspect, &width);
        let top = rat_div(&height, &two);
        proof {
            let a = h as real / w as real;
            if h > 0 {
                assert(a > 0 as real) by (nonlinear_arith)
                    requires
                        w > 0,
                        h > 0,
                        a == h as real / w as real,
                ;
                assert(a * (9 as real / 2 as real) > 0 as real) by (nonlinear_arith)
                    requires
                        a > 0 as real,
                ;
            }
        }
        FloatRect { left, top, width, height }
    }

    /// Whether the fields are valid ratios and both extents are positive.
    pub fn is_well_formed(&self) -> (r: bool)
        ensures
            r == self.wf(),
    {
        if !(rat_is_valid(&self.left) && rat_is_valid(&self.top) && rat_is_valid(&self.width)
            && rat_is_valid(&self.height)) {
            return false;
        }
        let zero = rat_from_int(0);
        rat_gt(&rat_reduced(&self.width), &zero) && rat_gt(&rat_reduced(&self.height), &zero)
    }
}

impl Clone for FloatRect {
    /// A copy with the same values.
    fn clone(&self) -> (r: FloatRect)
        ensures
            r@ == self@,
            r.fields_ok() == self.fields_ok(),
    {
        FloatRect {
            left: rat_clone(&self.left),
            top: rat_clone(&self.top),
            width: rat_clone(&self.width),
            height: rat_clone(&self.height),
        }
    }
}

} // verus!
