//! The viewport transform: an exact affine map between data space (bar index,
//! price in cents) and screen space (pixels), both held as rationals.
//!
//! `to_screen` maps a data point by `scale * coordinate + origin` per axis;
//! `to_data` is its exact inverse. `pan` translates the origin, `zoom_to`
//! rescales while pinning one anchor data point to its screen position, and
//! `fit` chooses the initial transform so the whole data range fills the
//! screen with price increasing upward. The proof functions at the end state
//! the laws these operations obey.

use vstd::prelude::*;
use crate::rat::{Rat, rat_of_int, rat_add, rat_sub, rat_mul, rat_div, rat_reduced};
use crate::rat::{qadd, qsub, qmul, qdiv, qeq, qint, qfits, qreduce, qwf};
use crate::rat::{lemma_pos_prod, lemma_qeq_trans};

verus! {

/// A point in data space: `x` is a (fractional) bar index, `y` a price.
#[derive(Clone, Copy, Debug, PartialEq, Eq, Structural)]
pub struct DataPoint {
    pub x: Rat,
    pub y: Rat,
}

impl DataPoint {
    pub open spec fn wf(self) -> bool {
        self.x.wf() && self.y.wf()
    }
}

/// A point in screen space, in pixels, origin at the top left.
#[derive(Clone, Copy, Debug, PartialEq, Eq, Structural)]
pub struct ScreenPoint {
    pub x: Rat,
    pub y: Rat,
}

impl ScreenPoint {
    pub open spec fn wf(self) -> bool {
        self.x.wf() && self.y.wf()
    }
}

/// A degenerate configuration, rejected before any transform is built.
#[derive(Clone, Copy, Debug, PartialEq, Eq, Structural)]
pub enum ConfigError {
    /// No bars were requested.
    NoBars,
    /// The price range is empty: the high does not exceed the low.
    EmptyPriceRange,
    /// The screen rectangle has no area.
    EmptyScreen,
}

/// The affine map `screen = scale * data + origin`, per axis. `scale_y` is
/// conventionally negative, so a rising price maps to a smaller pixel row.
#[derive(Clone, Copy, Debug, PartialEq, Eq, Structural)]
pub struct ViewportTransform {
    pub scale_x: Rat,
    pub scale_y: Rat,
    pub origin_x: Rat,
    pub origin_y: Rat,
}

impl ViewportTransform {
    /// Scales never collapse to zero, and every field is a valid rational.
    pub open spec fn wf(self) -> bool {
        &&& self.scale_x.wf()
        &&& self.scale_y.wf()
        &&& self.origin_x.wf()
        &&& self.origin_y.wf()
        &&& self.scale_x.num != 0
        &&& self.scale_y.num != 0
    }

    /// The screen column of data column `x`: `scale_x * x + origin_x`.
    pub open spec fn spec_to_screen_x(self, x: (int, int)) -> (int, int) {
        qadd(qmul(self.scale_x@, x), self.origin_x@)
    }

    /// The screen row of data row `y`: `scale_y * y + origin_y`.
    pub open spec fn spec_to_screen_y(self, y: (int, int)) -> (int, int) {
        qadd(qmul(self.scale_y@, y), self.origin_y@)
    }

    /// The data column of screen column `q`: `(q - origin_x) / scale_x`.
    pub open spec fn spec_to_data_x(self, q: (int, int)) -> (int, int) {
        qdiv(qsub(q, self.origin_x@), self.scale_x@)
    }

    /// The data row of screen row `q`: `(q - origin_y) / scale_y`.
    pub open spec fn spec_to_data_y(self, q: (int, int)) -> (int, int) {
        qdiv(qsub(q, self.origin_y@), self.scale_y@)
    }

    /// The machine can carry `to_screen(p)`: every intermediate rational fits.
    pub open spec fn to_screen_fits(self, p: DataPoint) -> bool {
        &&& qfits(qmul(self.scale_x@, p.x@))
        &&& qfits(self.spec_to_screen_x(p.x@))
        &&& qfits(qmul(self.scale_y@, p.y@))
        &&& qfits(self.spec_to_screen_y(p.y@))
    }

    /// The machine can carry `to_data(q)`: every intermediate rational fits.
    pub open spec fn to_data_fits(self, q: ScreenPoint) -> bool {
        &&& qfits(qsub(q.x@, self.origin_x@))
        &&& qfits(self.spec_to_data_x(q.x@))
        &&& qfits(qsub(q.y@, self.origin_y@))
        &&& qfits(self.spec_to_data_y(q.y@))
    }

    /// Projects a data point onto the screen.
    pub fn to_screen(&self, p: &DataPoint) -> (q: ScreenPoint)
        requires
            self.wf(),
            p.wf(),
            self.to_screen_fits(*p),
        ensures
            q.wf(),
            q.x@ == self.spec_to_screen_x(p.x@),
            q.y@ == self.spec_to_screen_y(p.y@),
    {
        let qx = rat_add(rat_mul(self.scale_x, p.x), self.origin_x);
        let qy = rat_add(rat_mul(self.scale_y, p.y), self.origin_y);
        ScreenPoint { x: qx, y: qy }
    }

    /// Maps a screen point back to the data point it shows, in lowest terms.
    pub fn to_data(&self, q: &ScreenPoint) -> (p: DataPoint)
        requires
            self.wf(),
            q.wf(),
            self.to_data_fits(*q),
        ensures
            p.wf(),
            p.x@ == qreduce(self.spec_to_data_x(q.x@)),
            p.y@ == qreduce(self.spec_to_data_y(q.y@)),
            qeq(p.x@, self.spec_to_data_x(q.x@)),
            qeq(p.y@, self.spec_to_data_y(q.y@)),
    {
        let px = rat_reduced(rat_div(rat_sub(q.x, self.origin_x), self.scale_x));
        let py = rat_reduced(rat_div(rat_sub(q.y, self.origin_y), self.scale_y));
        DataPoint { x: px, y: py }
    }

    /// Translates the view by a screen-space delta. The scales never change.
    pub fn pan(&mut self, dx: Rat, dy: Rat)
        requires
            old(self).wf(),
            dx.wf(),
            dy.wf(),
            qfits(qadd(old(self).origin_x@, dx@)),
            qfits(qadd(old(self).origin_y@, dy@)),
        ensures
            final(self).wf(),
            final(self).scale_x == old(self).scale_x,
            final(self).scale_y == old(self).scale_y,
            final(self).origin_x@ == qadd(old(self).origin_x@, dx@),
            final(self).origin_y@ == qadd(old(self).origin_y@, dy@),
    {
        self.origin_x = rat_add(self.origin_x, dx);
        self.origin_y = rat_add(self.origin_y, dy);
    }

    /// The machine can carry `zoom_to(anchor, nsx, nsy)` for new scales with
    /// the given values.
    pub open spec fn zoom_fits(self, anchor: DataPoint, nsx: (int, int), nsy: (int, int)) -> bool {
        &&& self.to_screen_fits(anchor)
        &&& qfits(qmul(nsx, anchor.x@))
        &&& qfits(qsub(self.spec_to_screen_x(anchor.x@), qmul(nsx, anchor.x@)))
        &&& qfits(qmul(nsy, anchor.y@))
        &&& qfits(qsub(self.spec_to_screen_y(anchor.y@), qmul(nsy, anchor.y@)))
    }

    /// Rescales around an anchor data point: the anchor's screen position,
    /// computed with the old transform, is solved back into the new origin,
    /// so the point under the cursor stays pinned while everything else
    /// stretches around it.
    pub fn zoom_to(&mut self, anchor: &DataPoint, new_scale_x: Rat, new_scale_y: Rat)
        requires
            old(self).wf(),
            anchor.wf(),
            new_scale_x.wf(),
            new_scale_y.wf(),
            new_scale_x.num != 0,
            new_scale_y.num != 0,
            old(self).zoom_fits(*anchor, new_scale_x@, new_scale_y@),
        ensures
            final(self).wf(),
            final(self).scale_x == new_scale_x,
            final(self).scale_y == new_scale_y,
            final(self).origin_x@ == qsub(
                old(self).spec_to_screen_x(anchor.x@),
                qmul(new_scale_x@, anchor.x@),
            ),
            final(self).origin_y@ == qsub(
                old(self).spec_to_screen_y(anchor.y@),
                qmul(new_scale_y@, anchor.y@),
            ),
            qeq(final(self).spec_to_screen_x(anchor.x@), old(self).spec_to_screen_x(anchor.x@)),
            qeq(final(self).spec_to_screen_y(anchor.y@), old(self).spec_to_screen_y(anchor.y@)),
    {
        let sx = rat_add(rat_mul(self.scale_x, anchor.x), self.origin_x);
        let sy = rat_add(rat_mul(self.scale_y, anchor.y), self.origin_y);
        self.origin_x = rat_sub(sx, rat_mul(new_scale_x, anchor.x));
        self.origin_y = rat_sub(sy, rat_mul(new_scale_y, anchor.y));
        self.scale_x = new_scale_x;
        self.scale_y = new_scale_y;
        proof {
            lemma_pos_prod(new_scale_x@.1, anchor.x@.1);
            lemma_pos_prod(new_scale_y@.1, anchor.y@.1);
            lemma_q_add_sub_cancel(
                old(self).spec_to_screen_x(anchor.x@),
                qmul(new_scale_x@, anchor.x@),
            );
            lemma_q_add_sub_cancel(
                old(self).spec_to_screen_y(anchor.y@),
                qmul(new_scale_y@, anchor.y@),
            );
        }
    }
}

impl ViewportTransform {
    /// The machine can carry `rezoom_at(pin, anchor, nsx, nsy)` for new
    /// scales with the given values.
    pub open spec fn rezoom_fits(
        self,
        pin_x: int,
        pin_y: int,
        anchor: DataPoint,
        nsx: (int, int),
        nsy: (int, int),
    ) -> bool {
        &&& qfits(qmul(nsx, anchor.x@))
        &&& qfits(qsub(qint(pin_x), qmul(nsx, anchor.x@)))
        &&& qfits(qmul(nsy, anchor.y@))
        &&& qfits(qsub(qint(pin_y), qmul(nsy, anchor.y@)))
    }

    /// Rescales while gluing the anchor data point to the screen pixel
    /// `(pin_x, pin_y)`: the origin is solved from the pin rather than from
    /// the anchor's current screen position, so repeated rescales within one
    /// gesture stay drift-free and their rationals do not compound.
    pub fn rezoom_at(
        &mut self,
        pin_x: i64,
        pin_y: i64,
        anchor: &DataPoint,
        new_scale_x: Rat,
        new_scale_y: Rat,
    )
        requires
            old(self).wf(),
            anchor.wf(),
            new_scale_x.wf(),
            new_scale_y.wf(),
            new_scale_x.num != 0,
            new_scale_y.num != 0,
            old(self).rezoom_fits(
                pin_x as int,
                pin_y as int,
                *anchor,
                new_scale_x@,
                new_scale_y@,
            ),
        ensures
            final(self).wf(),
            final(self).scale_x == new_scale_x,
            final(self).scale_y == new_scale_y,
            final(self).origin_x@ == qreduce(
                qsub(qint(pin_x as int), qmul(new_scale_x@, anchor.x@)),
            ),
            final(self).origin_y@ == qreduce(
                qsub(qint(pin_y as int), qmul(new_scale_y@, anchor.y@)),
            ),
            qeq(final(self).spec_to_screen_x(anchor.x@), qint(pin_x as int)),
            qeq(final(self).spec_to_screen_y(anchor.y@), qint(pin_y as int)),
    {
        self.origin_x = rat_reduced(rat_sub(rat_of_int(pin_x), rat_mul(new_scale_x, anchor.x)));
        self.origin_y = rat_reduced(rat_sub(rat_of_int(pin_y), rat_mul(new_scale_y, anchor.y)));
        self.scale_x = new_scale_x;
        self.scale_y = new_scale_y;
        proof {
            let mx = qmul(new_scale_x@, anchor.x@);
            let my = qmul(new_scale_y@, anchor.y@);
            lemma_pos_prod(new_scale_x@.1, anchor.x@.1);
            lemma_pos_prod(new_scale_y@.1, anchor.y@.1);
            lemma_q_add_sub_cancel(qint(pin_x as int), mx);
            lemma_q_add_sub_cancel(qint(pin_y as int), my);
            lemma_q_add_congruence_right(mx, self.origin_x@, qsub(qint(pin_x as int), mx));
            lemma_q_add_congruence_right(my, self.origin_y@, qsub(qint(pin_y as int), my));
            lemma_pos_prod(mx.1, 1 * mx.1);
            lemma_pos_prod(my.1, 1 * my.1);
            lemma_qeq_trans(
                qadd(mx, self.origin_x@),
                qadd(mx, qsub(qint(pin_x as int), mx)),
                qint(pin_x as int),
            );
            lemma_qeq_trans(
                qadd(my, self.origin_y@),
                qadd(my, qsub(qint(pin_y as int), my)),
                qint(pin_y as int),
            );
        }
    }
}

/// Adding the same rational to both of two pairs denoting the same number
/// yields pairs denoting the same number.
proof fn lemma_q_add_congruence_right(m: (int, int), o1: (int, int), o2: (int, int))
    requires
        qeq(o1, o2),
    ensures
        qeq(qadd(m, o1), qadd(m, o2)),
{
    broadcast use
        vstd::arithmetic::mul::lemma_mul_is_associative,
        vstd::arithmetic::mul::lemma_mul_is_commutative,
        vstd::arithmetic::mul::lemma_mul_is_distributive_add,
        vstd::arithmetic::mul::lemma_mul_is_distributive_add_other_way;

    assert((m.0 * o1.1 + o1.0 * m.1) * (m.1 * o2.1) == (m.0 * o1.1) * (m.1 * o2.1) + (o1.0 * m.1)
        * (m.1 * o2.1));
    assert((m.0 * o2.1 + o2.0 * m.1) * (m.1 * o1.1) == (m.0 * o2.1) * (m.1 * o1.1) + (o2.0 * m.1)
        * (m.1 * o1.1));
    assert((m.0 * o1.1) * (m.1 * o2.1) == (m.0 * o2.1) * (m.1 * o1.1));
    assert((o1.0 * m.1) * (m.1 * o2.1) == (o1.0 * o2.1) * (m.1 * m.1));
    assert((o2.0 * m.1) * (m.1 * o1.1) == (o2.0 * o1.1) * (m.1 * m.1));
}

/// Scaling two pairs denoting the same number by the same rational yields
/// pairs denoting the same number.
proof fn lemma_q_mul_congruence(s: (int, int), a: (int, int), b: (int, int))
    requires
        qeq(a, b),
    ensures
        qeq(qmul(s, a), qmul(s, b)),
{
    assert((s.0 * a.0) * (s.1 * b.1) == (s.0 * b.0) * (s.1 * a.1)) by (nonlinear_arith)
        requires
            a.0 * b.1 == b.0 * a.1,
    ;
}

/// Projection to the screen respects rational equality of the data
/// coordinate, per axis.
pub proof fn lemma_to_screen_x_congruent(t: ViewportTransform, a: (int, int), b: (int, int))
    requires
        qeq(a, b),
    ensures
        qeq(t.spec_to_screen_x(a), t.spec_to_screen_x(b)),
{
    lemma_q_mul_congruence(t.scale_x@, a, b);
    lemma_q_add_congruence(qmul(t.scale_x@, a), qmul(t.scale_x@, b), t.origin_x@);
}

/// Projection to the screen respects rational equality of the data
/// coordinate, per axis.
pub proof fn lemma_to_screen_y_congruent(t: ViewportTransform, a: (int, int), b: (int, int))
    requires
        qeq(a, b),
    ensures
        qeq(t.spec_to_screen_y(a), t.spec_to_screen_y(b)),
{
    lemma_q_mul_congruence(t.scale_y@, a, b);
    lemma_q_add_congruence(qmul(t.scale_y@, a), qmul(t.scale_y@, b), t.origin_y@);
}

/// A well-formed divisor with nonzero numerator gives a well-formed quotient.
pub proof fn lemma_q_div_wf(a: (int, int), b: (int, int))
    requires
        qwf(a),
        qwf(b),
        b.0 != 0,
    ensures
        qwf(qdiv(a, b)),
{
    if b.0 >= 0 {
        assert(a.1 * b.0 > 0) by (nonlinear_arith)
            requires
                a.1 > 0,
                b.0 > 0,
        ;
    } else {
        assert(-(a.1 * b.0) > 0) by (nonlinear_arith)
            requires
                a.1 > 0,
                b.0 < 0,
        ;
    }
}

/// Chooses the startup transform: data columns `1..=bars_wanted` span the
/// screen's width and the price range `[low, high]` spans its height, price
/// increasing upward. Degenerate inputs are rejected, each by its own error.
pub fn fit(bars_wanted: usize, low: i64, high: i64, width: i64, height: i64) -> (r: Result<
    ViewportTransform,
    ConfigError,
>)
    requires
        bars_wanted <= 0xffff_ffff,
        -0x2000_0000_0000 <= low <= 0x2000_0000_0000,
        -0x2000_0000_0000 <= high <= 0x2000_0000_0000,
        width <= 0x1_0000,
        height <= 0x1_0000,
    ensures
        match r {
            Ok(t) => {
                &&& bars_wanted > 0
                &&& low < high
                &&& width > 0
                &&& height > 0
                &&& t.wf()
                &&& t.scale_x@ == (width as int, bars_wanted as int)
                &&& t.origin_x@ == qint(0)
                &&& t.scale_y@ == (-(height as int), high - low)
                &&& t.origin_y@ == (height as int * high as int, high - low)
            },
            Err(ConfigError::NoBars) => bars_wanted == 0,
            Err(ConfigError::EmptyPriceRange) => bars_wanted > 0 && high <= low,
            Err(ConfigError::EmptyScreen) => {
                &&& bars_wanted > 0
                &&& low < high
                &&& (width <= 0 || height <= 0)
            },
        },
{
    if bars_wanted == 0 {
        return Err(ConfigError::NoBars);
    }
    if high <= low {
        return Err(ConfigError::EmptyPriceRange);
    }
    if width <= 0 || height <= 0 {
        return Err(ConfigError::EmptyScreen);
    }
    proof {
        assert(height as int * high as int <= 0x2000_0000_0000_0000
            && height as int * high as int >= -0x2000_0000_0000_0000) by (nonlinear_arith)
            requires
                0 < height <= 0x1_0000,
                -0x2000_0000_0000 <= high <= 0x2000_0000_0000,
        ;
    }
    let range: i64 = high - low;
    Ok(
        ViewportTransform {
            scale_x: Rat { num: width, den: bars_wanted as i64 },
            origin_x: rat_of_int(0),
            scale_y: Rat { num: -height, den: range },
            origin_y: Rat { num: height * high, den: range },
        },
    )
}

/// Adding a rational and then subtracting it leads back to the same number.
proof fn lemma_q_add_sub_cancel(q: (int, int), m: (int, int))
    by (nonlinear_arith)
    requires
        qwf(q),
        qwf(m),
    ensures
        qeq(qadd(m, qsub(q, m)), q),
{
}

/// Dividing a scaled-and-offset value back out returns the value: the
/// composition behind the round-trip law, at the level of rational pairs.
proof fn lemma_q_round_trip(s: (int, int), o: (int, int), x: (int, int))
    requires
        qwf(s),
        qwf(o),
        qwf(x),
        s.0 != 0,
    ensures
        qeq(qdiv(qsub(qadd(qmul(s, x), o), o), s), x),
{
    let m = qmul(s, x);
    let a = qadd(m, o);
    let z = qsub(a, o);
    assert(z.0 == (s.0 * x.0) * (o.1 * o.1) && z.1 == (s.1 * x.1) * (o.1 * o.1))
        by (nonlinear_arith)
        requires
            m.0 == s.0 * x.0,
            m.1 == s.1 * x.1,
            a.0 == m.0 * o.1 + o.0 * m.1,
            a.1 == m.1 * o.1,
            z.0 == a.0 * o.1 - o.0 * a.1,
            z.1 == a.1 * o.1,
    ;
    if s.0 >= 0 {
        assert((z.0 * s.1) * x.1 == x.0 * (z.1 * s.0)) by (nonlinear_arith)
            requires
                z.0 == (s.0 * x.0) * (o.1 * o.1),
                z.1 == (s.1 * x.1) * (o.1 * o.1),
        ;
    } else {
        assert((-(z.0 * s.1)) * x.1 == x.0 * (-(z.1 * s.0))) by (nonlinear_arith)
            requires
                z.0 == (s.0 * x.0) * (o.1 * o.1),
                z.1 == (s.1 * x.1) * (o.1 * o.1),
        ;
    }
}

/// Scaling a divided-back-out value up again returns the value: the
/// composition behind the dual round-trip law, at the level of rational
/// pairs.
proof fn lemma_q_round_trip_dual(s: (int, int), o: (int, int), q: (int, int))
    requires
        qwf(s),
        qwf(o),
        qwf(q),
        s.0 != 0,
    ensures
        qeq(qadd(qmul(s, qdiv(qsub(q, o), s)), o), q),
{
    let z = qsub(q, o);
    lemma_pos_prod(q.1, o.1);
    lemma_q_mul_div_cancel(s, z);
    lemma_q_add_congruence(qmul(s, qdiv(z, s)), z, o);
    lemma_q_sub_add_cancel(q, o);
    lemma_pos_prod(z.1, o.1);
    crate::rat::lemma_qeq_trans(qadd(qmul(s, qdiv(z, s)), o), qadd(z, o), q);
}

/// Multiplying a quotient back by its divisor returns the dividend.
proof fn lemma_q_mul_div_cancel(s: (int, int), z: (int, int))
    requires
        qwf(s),
        qwf(z),
        s.0 != 0,
    ensures
        qwf(qmul(s, qdiv(z, s))),
        qeq(qmul(s, qdiv(z, s)), z),
{
    if s.0 >= 0 {
        assert((s.0 * (z.0 * s.1)) * z.1 == z.0 * (s.1 * (z.1 * s.0)) && s.1 * (z.1 * s.0)
            > 0) by (nonlinear_arith)
            requires
                z.1 > 0,
                s.1 > 0,
                s.0 > 0,
        ;
    } else {
        assert((s.0 * (-(z.0 * s.1))) * z.1 == z.0 * (s.1 * (-(z.1 * s.0))) && s.1 * (-(z.1
            * s.0)) > 0) by (nonlinear_arith)
            requires
                z.1 > 0,
                s.1 > 0,
                s.0 < 0,
        ;
    }
}

/// Adding the same rational to two pairs denoting the same number yields
/// pairs denoting the same number.
proof fn lemma_q_add_congruence(a: (int, int), b: (int, int), o: (int, int))
    requires
        qeq(a, b),
    ensures
        qeq(qadd(a, o), qadd(b, o)),
{
    broadcast use
        vstd::arithmetic::mul::lemma_mul_is_associative,
        vstd::arithmetic::mul::lemma_mul_is_commutative,
        vstd::arithmetic::mul::lemma_mul_is_distributive_add,
        vstd::arithmetic::mul::lemma_mul_is_distributive_add_other_way;

    assert((a.0 * o.1 + o.0 * a.1) * (b.1 * o.1) == (a.0 * b.1) * (o.1 * o.1) + ((o.0 * a.1)
        * b.1) * o.1);
    assert((b.0 * o.1 + o.0 * b.1) * (a.1 * o.1) == (b.0 * a.1) * (o.1 * o.1) + ((o.0 * b.1)
        * a.1) * o.1);
    assert(((o.0 * a.1) * b.1) * o.1 == ((o.0 * b.1) * a.1) * o.1);
}

/// Subtracting a rational and then adding it leads back to the same number.
proof fn lemma_q_sub_add_cancel(q: (int, int), o: (int, int))
    ensures
        qeq(qadd(qsub(q, o), o), q),
{
    assert(((q.0 * o.1 - o.0 * q.1) * o.1 + o.0 * (q.1 * o.1)) * q.1 == q.0 * ((q.1 * o.1)
        * o.1)) by (nonlinear_arith);
}

/// Round-trip law: for every data point and every transform whose scales are
/// nonzero, mapping to the screen and back yields the same point, exactly.
pub proof fn lemma_round_trip(t: ViewportTransform, p: DataPoint)
    requires
        t.wf(),
        p.wf(),
    ensures
        qeq(t.spec_to_data_x(t.spec_to_screen_x(p.x@)), p.x@),
        qeq(t.spec_to_data_y(t.spec_to_screen_y(p.y@)), p.y@),
{
    lemma_q_round_trip(t.scale_x@, t.origin_x@, p.x@);
    lemma_q_round_trip(t.scale_y@, t.origin_y@, p.y@);
}

/// Dual round-trip law: mapping a screen point into data space and back
/// projects it onto exactly the same pixel position.
pub proof fn lemma_screen_round_trip(t: ViewportTransform, q: ScreenPoint)
    requires
        t.wf(),
        q.wf(),
    ensures
        qeq(t.spec_to_screen_x(t.spec_to_data_x(q.x@)), q.x@),
        qeq(t.spec_to_screen_y(t.spec_to_data_y(q.y@)), q.y@),
{
    lemma_q_round_trip_dual(t.scale_x@, t.origin_x@, q.x@);
    lemma_q_round_trip_dual(t.scale_y@, t.origin_y@, q.y@);
}

/// Pan law: after a pan by `(dx, dy)`, every data point's screen image is the
/// old image translated by exactly `(dx, dy)`. `before` and `after` are
/// related as `pan`'s contract states.
pub proof fn lemma_pan_translates(
    before: ViewportTransform,
    after: ViewportTransform,
    dx: (int, int),
    dy: (int, int),
    px: (int, int),
    py: (int, int),
)
    requires
        before.wf(),
        qwf(dx),
        qwf(dy),
        qwf(px),
        qwf(py),
        after.scale_x == before.scale_x,
        after.scale_y == before.scale_y,
        after.origin_x@ == qadd(before.origin_x@, dx),
        after.origin_y@ == qadd(before.origin_y@, dy),
    ensures
        qeq(after.spec_to_screen_x(px), qadd(before.spec_to_screen_x(px), dx)),
        qeq(after.spec_to_screen_y(py), qadd(before.spec_to_screen_y(py), dy)),
{
    lemma_q_add_assoc(qmul(before.scale_x@, px), before.origin_x@, dx);
    lemma_q_add_assoc(qmul(before.scale_y@, py), before.origin_y@, dy);
}

/// Rational addition is associative on the nose.
proof fn lemma_q_add_assoc(a: (int, int), b: (int, int), c: (int, int))
    ensures
        qadd(a, qadd(b, c)) == qadd(qadd(a, b), c),
{
    broadcast use
        vstd::arithmetic::mul::lemma_mul_is_associative,
        vstd::arithmetic::mul::lemma_mul_is_commutative,
        vstd::arithmetic::mul::lemma_mul_is_distributive_add,
        vstd::arithmetic::mul::lemma_mul_is_distributive_add_other_way;

    assert((b.0 * c.1 + c.0 * b.1) * a.1 == (b.0 * c.1) * a.1 + (c.0 * b.1) * a.1);
    assert((a.0 * b.1 + b.0 * a.1) * c.1 == (a.0 * b.1) * c.1 + (b.0 * a.1) * c.1);
    assert(a.0 * (b.1 * c.1) == (a.0 * b.1) * c.1);
    assert((b.0 * c.1) * a.1 == (b.0 * a.1) * c.1);
    assert((c.0 * b.1) * a.1 == c.0 * (a.1 * b.1));
    assert(a.1 * (b.1 * c.1) == (a.1 * b.1) * c.1);
}

/// Zoom law: whatever nonzero scales are chosen, a transform whose origin was
/// solved from the anchor's old screen position (as `zoom_to` does) maps the
/// anchor to exactly the screen point it occupied before.
pub proof fn lemma_zoom_preserves_anchor(
    before: ViewportTransform,
    after: ViewportTransform,
    anchor: DataPoint,
)
    requires
        before.wf(),
        after.scale_x.wf(),
        after.scale_y.wf(),
        anchor.wf(),
        after.origin_x@ == qsub(
            before.spec_to_screen_x(anchor.x@),
            qmul(after.scale_x@, anchor.x@),
        ),
        after.origin_y@ == qsub(
            before.spec_to_screen_y(anchor.y@),
            qmul(after.scale_y@, anchor.y@),
        ),
    ensures
        qeq(after.spec_to_screen_x(anchor.x@), before.spec_to_screen_x(anchor.x@)),
        qeq(after.spec_to_screen_y(anchor.y@), before.spec_to_screen_y(anchor.y@)),
{
    lemma_pos_prod(after.scale_x@.1, anchor.x@.1);
    lemma_pos_prod(after.scale_y@.1, anchor.y@.1);
    lemma_pos_prod(before.scale_x@.1, anchor.x@.1);
    lemma_pos_prod(before.scale_y@.1, anchor.y@.1);
    lemma_pos_prod(before.scale_x@.1 * anchor.x@.1, before.origin_x@.1);
    lemma_pos_prod(before.scale_y@.1 * anchor.y@.1, before.origin_y@.1);
    lemma_q_add_sub_cancel(
        before.spec_to_screen_x(anchor.x@),
        qmul(after.scale_x@, anchor.x@),
    );
    lemma_q_add_sub_cancel(
        before.spec_to_screen_y(anchor.y@),
        qmul(after.scale_y@, anchor.y@),
    );
}

} // verus!
