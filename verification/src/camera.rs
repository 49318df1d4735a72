//! 2D camera system for pan, zoom, and coordinate transformations.
//!
//! Provides [`Camera2D`] for managing the visible region of a 2D world,
//! [`CameraController`] for handling input-driven pan and zoom, and the
//! [`Projection`] trait for custom coordinate transformations.
//!
//! The mapping is `world_to_screen(p) = (p - center) * scale + screen/2` and
//! `screen_to_world` is its exact algebraic inverse; both directions of the
//! round trip, and the zoom-at-cursor invariant, are proved as laws below.
//! Because the arithmetic is exact, an operation whose reduced result would
//! not fit the component bound reports failure instead of storing an
//! approximation; the transform methods return `None` in that case, and the
//! mutating methods return `false` and leave the camera unchanged.

use crate::rat::{
    lemma_q_add_congr, lemma_q_add_congr_right, lemma_q_add_sub_cancel,
    lemma_q_add_sub_restore, lemma_q_div_congr, lemma_q_div_congr_right, lemma_q_div_mul_cancel,
    lemma_q_eq_pos, lemma_q_eq_trans, lemma_q_mul_congr, lemma_q_mul_congr_right,
    lemma_q_mul_div_cancel, lemma_q_norm, lemma_q_norm_small, lemma_q_op_bounds,
    lemma_q_sub_add_cancel, lemma_q_sub_congr, lemma_q_sub_congr_right, q_add, q_div, q_eq,
    q_int, q_le, q_lt, q_mul, q_sub, rat_small, rat_wf, stored, Q, Rat, COMPONENT_MAX,
};
use vstd::prelude::*;

verus! {

/// Half of the given length: `w / 2`.
pub open spec fn q_half(w: Q) -> Q {
    q_mul(w, Q { n: 1, d: 2 })
}

/// One axis of the world-to-screen mapping:
/// `(p - center) * scale + screen/2`.
pub open spec fn w2s_axis(c: Q, s: Q, w: Q, p: Q) -> Q {
    q_add(q_mul(q_sub(p, c), s), q_half(w))
}

/// One axis of the screen-to-world mapping:
/// `(p - screen/2) / scale + center`.
pub open spec fn s2w_axis(c: Q, s: Q, w: Q, p: Q) -> Q {
    q_add(q_div(q_sub(p, q_half(w)), s), c)
}

/// The camera center after zooming by `f` while holding the screen point
/// `p` fixed: the world point under `p` minus the new screen offset.
pub open spec fn zoom_center_axis(c: Q, s: Q, w: Q, p: Q, f: Q) -> Q {
    q_sub(s2w_axis(c, s, w, p), q_div(q_sub(p, q_half(w)), q_mul(s, f)))
}

/// The outcome of the checked `world_to_screen` chain on one axis: each
/// step is [`stored`] of its exact result, fed the stored value of the
/// step before. `Some` exactly when the executable transform succeeds.
pub open spec fn w2s_axis_stored(c: Q, s: Q, w: Q, p: Q) -> Option<Q> {
    match stored(q_half(w)) {
        Some(h) => match stored(q_sub(p, c)) {
            Some(d) => match stored(q_mul(d, s)) {
                Some(m) => stored(q_add(m, h)),
                None => None,
            },
            None => None,
        },
        None => None,
    }
}

/// The outcome of the checked `screen_to_world` chain on one axis.
pub open spec fn s2w_axis_stored(c: Q, s: Q, w: Q, p: Q) -> Option<Q> {
    match stored(q_half(w)) {
        Some(h) => match stored(q_sub(p, h)) {
            Some(d) => match stored(q_div(d, s)) {
                Some(q) => stored(q_add(q, c)),
                None => None,
            },
            None => None,
        },
        None => None,
    }
}

/// The outcome of the checked zoom-at-point chain for one axis of the
/// new camera center.
pub open spec fn zoom_axis_stored(c: Q, s: Q, w: Q, p: Q, f: Q) -> Option<Q> {
    match s2w_axis_stored(c, s, w, p) {
        Some(wb) => match stored(q_mul(s, f)) {
            Some(sp) => match stored(q_half(w)) {
                Some(h) => match stored(q_sub(p, h)) {
                    Some(d) => match stored(q_div(d, sp)) {
                        Some(t) => stored(q_sub(wb, t)),
                        None => None,
                    },
                    None => None,
                },
                None => None,
            },
            None => None,
        },
        None => None,
    }
}

/// The outcome of the checked half-extent chain: `(w/2) / s`.
pub open spec fn half_extent_stored(w: Q, s: Q) -> Option<Q> {
    match stored(q_half(w)) {
        Some(h) => stored(q_div(h, s)),
        None => None,
    }
}

/// The outcome of the checked world-bounds chain for one axis:
/// `(c - (w/2)/s, c + (w/2)/s)`.
pub open spec fn bounds_axis_stored(c: Q, s: Q, w: Q) -> Option<(Q, Q)> {
    match half_extent_stored(w, s) {
        Some(h) => match stored(q_sub(c, h)) {
            Some(mn) => match stored(q_add(c, h)) {
                Some(mx) => Some((mn, mx)),
                None => None,
            },
            None => None,
        },
        None => None,
    }
}

/// The outcome of the checked smoothing chain:
/// `current + (target - current) * t`.
pub open spec fn blend_axis_stored(current: Q, target: Q, t: Q) -> Option<Q> {
    match stored(q_sub(target, current)) {
        Some(d) => match stored(q_mul(d, t)) {
            Some(m) => stored(q_add(current, m)),
            None => None,
        },
        None => None,
    }
}

/// The outcome of the checked screen-pan chain for one axis of the
/// center: `c - d / s`.
pub open spec fn pan_screen_axis_stored(c: Q, s: Q, d: Q) -> Option<Q> {
    match stored(q_div(d, s)) {
        Some(q) => stored(q_sub(c, q)),
        None => None,
    }
}

/// The outcome of the checked drag-pan chain for one axis of the target
/// center: `tc - (v - last) / ts`.
pub open spec fn cursor_axis_stored(tc: Q, last: Q, ts: Q, v: Q) -> Option<Q> {
    match stored(q_sub(v, last)) {
        Some(d) => match stored(q_div(d, ts)) {
            Some(q) => stored(q_sub(tc, q)),
            None => None,
        },
        None => None,
    }
}

/// The outcome of the checked scroll factor: the sensitivity for an
/// upward scroll, its stored reciprocal for a downward one.
pub open spec fn scroll_factor_stored(sens: Q, y_offset: Q) -> Option<Q> {
    if q_lt(q_int(0), y_offset) {
        Some(sens)
    } else {
        stored(q_div(q_int(1), sens))
    }
}

/// Law: mapping a screen point into the world and back yields the same
/// screen point, exactly, for every camera with a nonzero scale.
pub proof fn lemma_world_screen_round_trip(c: Q, s: Q, w: Q, p: Q)
    requires
        c.d != 0,
        s.d != 0,
        w.d != 0,
        p.d != 0,
        s.n != 0,
    ensures
        q_eq(w2s_axis(c, s, w, s2w_axis(c, s, w, p)), p),
{
    let h = q_half(w);
    let a = q_sub(p, h);
    let b = q_div(a, s);
    let wld = q_add(b, c);
    assert(h.d != 0 && a.d != 0 && b.d != 0 && wld.d != 0) by (nonlinear_arith)
        requires
            c.d != 0,
            s.d != 0,
            w.d != 0,
            p.d != 0,
            s.n != 0,
            h == q_half(w),
            a == q_sub(p, h),
            b == q_div(a, s),
            wld == q_add(b, c),
    ;
    lemma_q_add_sub_cancel(b, c);
    lemma_q_mul_congr(q_sub(wld, c), b, s);
    lemma_q_div_mul_cancel(a, s);
    assert(q_mul(b, s).d != 0) by (nonlinear_arith)
        requires
            b.d != 0,
            s.d != 0,
    ;
    lemma_q_eq_trans(q_mul(q_sub(wld, c), s), q_mul(b, s), a);
    lemma_q_add_congr(q_mul(q_sub(wld, c), s), a, h);
    lemma_q_sub_add_cancel(p, h);
    assert(q_add(a, h).d != 0) by (nonlinear_arith)
        requires
            a.d != 0,
            h.d != 0,
    ;
    lemma_q_eq_trans(
        q_add(q_mul(q_sub(wld, c), s), h),
        q_add(a, h),
        p,
    );
}

/// Law: mapping a world point onto the screen and back yields the same
/// world point, exactly, for every camera with a nonzero scale.
pub proof fn lemma_screen_world_round_trip(c: Q, s: Q, w: Q, p: Q)
    requires
        c.d != 0,
        s.d != 0,
        w.d != 0,
        p.d != 0,
        s.n != 0,
    ensures
        q_eq(s2w_axis(c, s, w, w2s_axis(c, s, w, p)), p),
{
    let h = q_half(w);
    let a = q_sub(p, c);
    let b = q_mul(a, s);
    let scr = q_add(b, h);
    assert(h.d != 0 && a.d != 0 && b.d != 0 && scr.d != 0) by (nonlinear_arith)
        requires
            c.d != 0,
            s.d != 0,
            w.d != 0,
            p.d != 0,
            h == q_half(w),
            a == q_sub(p, c),
            b == q_mul(a, s),
            scr == q_add(b, h),
    ;
    lemma_q_add_sub_cancel(b, h);
    lemma_q_div_congr(q_sub(scr, h), b, s);
    lemma_q_mul_div_cancel(a, s);
    assert(q_div(b, s).d != 0) by (nonlinear_arith)
        requires
            b.d != 0,
            s.n != 0,
    ;
    lemma_q_eq_trans(q_div(q_sub(scr, h), s), q_div(b, s), a);
    lemma_q_add_congr(q_div(q_sub(scr, h), s), a, c);
    lemma_q_sub_add_cancel(p, c);
    assert(q_add(a, c).d != 0) by (nonlinear_arith)
        requires
            a.d != 0,
            c.d != 0,
    ;
    lemma_q_eq_trans(
        q_add(q_div(q_sub(scr, h), s), c),
        q_add(a, c),
        p,
    );
}

/// Law: zooming at a screen point leaves the world point under it
/// unchanged. With the new scale `s * f` and the new center given by
/// [`zoom_center_axis`], `screen_to_world` of the same screen point is
/// exactly what it was before the zoom.
pub proof fn lemma_zoom_preserves_cursor(c: Q, s: Q, w: Q, p: Q, f: Q)
    ensures
        q_eq(
            s2w_axis(zoom_center_axis(c, s, w, p, f), q_mul(s, f), w, p),
            s2w_axis(c, s, w, p),
        ),
{
    let bp = q_div(q_sub(p, q_half(w)), q_mul(s, f));
    lemma_q_add_sub_restore(bp, s2w_axis(c, s, w, p));
}

/// Law: replacing the center and scale of a camera by equal fractions does
/// not change where `screen_to_world` sends any screen point.
pub proof fn lemma_s2w_respects_eq(c: Q, c2: Q, s: Q, s2: Q, w: Q, p: Q)
    requires
        q_eq(c, c2),
        q_eq(s, s2),
        c.d != 0,
        s.d != 0,
        s2.d != 0,
        w.d != 0,
        p.d != 0,
        s.n != 0,
    ensures
        q_eq(s2w_axis(c, s, w, p), s2w_axis(c2, s2, w, p)),
{
    let a = q_sub(p, q_half(w));
    assert(a.d != 0) by (nonlinear_arith)
        requires
            p.d != 0,
            w.d != 0,
            a == q_sub(p, q_half(w)),
    ;
    lemma_q_div_congr_right(a, s, s2);
    lemma_q_add_congr(q_div(a, s), q_div(a, s2), c);
    lemma_q_add_congr_right(q_div(a, s2), c, c2);
    assert(q_add(q_div(a, s2), c).d != 0) by (nonlinear_arith)
        requires
            a.d != 0,
            s2.n != 0 || s.n != 0,
            c.d != 0,
            q_eq(s, s2),
            s.n != 0,
            s.d != 0,
            s2.d != 0,
    ;
    lemma_q_eq_trans(
        q_add(q_div(a, s), c),
        q_add(q_div(a, s2), c),
        q_add(q_div(a, s2), c2),
    );
}

/// A 2D vector of exact rationals.
#[derive(Clone, Copy, Debug, PartialEq, Eq, Structural)]
pub struct Vec2 {
    pub x: Rat,
    pub y: Rat,
}

impl Vec2 {
    pub fn new(x: Rat, y: Rat) -> (v: Vec2)
        ensures
            v.x == x,
            v.y == y,
    {
        Vec2 { x, y }
    }
}

/// Both components fit the stored-component bound.
pub open spec fn vec2_small(v: Vec2) -> bool {
    rat_small(v.x) && rat_small(v.y)
}

/// Largest component magnitude for which a whole transform pipeline is
/// guaranteed not to overflow the stored-component bound.
pub const SAFE_MAX: i128 = 0x4000;

/// A fraction within [`SAFE_MAX`]. When every input of a camera transform
/// is safe, the transform is guaranteed to succeed.
pub open spec fn q_safe(x: Q) -> bool {
    &&& -SAFE_MAX <= x.n <= SAFE_MAX
    &&& 0 < x.d <= SAFE_MAX
}

pub open spec fn rat_safe(r: Rat) -> bool {
    q_safe(r@)
}

pub open spec fn vec2_safe(v: Vec2) -> bool {
    rat_safe(v.x) && rat_safe(v.y)
}

/// One axis of `world_to_screen`, on stored rationals.
fn w2s_axis_exec(c: Rat, s: Rat, w: Rat, p: Rat) -> (r: Option<Rat>)
    requires
        rat_small(c),
        rat_small(s),
        rat_small(w),
        rat_small(p),
    ensures
        r matches Some(v) ==> q_eq(v@, w2s_axis(c@, s@, w@, p@)) && rat_small(v)
            && w2s_axis_stored(c@, s@, w@, p@) == Some(v@),
        r is None ==> w2s_axis_stored(c@, s@, w@, p@) is None,
        rat_safe(c) && rat_safe(s) && rat_safe(w) && rat_safe(p) ==> r is Some,
{
    let ghost safe = rat_safe(c) && rat_safe(s) && rat_safe(w) && rat_safe(p);
    let one_half = Rat::new(1, 2);
    let h = match w.checked_mul(one_half) {
        Some(h) => h,
        None => {
            proof {
                if safe {
                    lemma_q_norm_small(q_half(w@));
                    assert(false);
                }
            }
            return None;
        },
    };
    proof {
        assert(stored(q_half(w@)) == Some(h@));
    }
    let dv = match p.checked_sub(c) {
        Some(dv) => dv,
        None => {
            proof {
                if safe {
                    lemma_q_op_bounds(p@, c@, SAFE_MAX as int, SAFE_MAX as int,
                        SAFE_MAX as int, SAFE_MAX as int);
                    lemma_q_norm_small(q_sub(p@, c@));
                    assert(false);
                }
            }
            return None;
        },
    };
    proof {
        if safe {
            lemma_q_op_bounds(p@, c@, SAFE_MAX as int, SAFE_MAX as int, SAFE_MAX as int,
                SAFE_MAX as int);
            lemma_q_norm(q_sub(p@, c@));
        }
    }
    let sv = match dv.checked_mul(s) {
        Some(sv) => sv,
        None => {
            proof {
                if safe {
                    lemma_q_op_bounds(dv@, s@, 2 * SAFE_MAX * SAFE_MAX, SAFE_MAX * SAFE_MAX,
                        SAFE_MAX as int, SAFE_MAX as int);
                    lemma_q_norm_small(q_mul(dv@, s@));
                    assert(false);
                }
            }
            return None;
        },
    };
    proof {
        if safe {
            lemma_q_op_bounds(dv@, s@, 2 * SAFE_MAX * SAFE_MAX, SAFE_MAX * SAFE_MAX,
                SAFE_MAX as int, SAFE_MAX as int);
            lemma_q_norm(q_mul(dv@, s@));
            lemma_q_norm_small(q_half(w@));
            lemma_q_norm(q_half(w@));
        }
    }
    let res = match sv.checked_add(h) {
        Some(v) => v,
        None => {
            proof {
                if safe {
                    lemma_q_op_bounds(sv@, h@, 2 * SAFE_MAX * SAFE_MAX * SAFE_MAX,
                        SAFE_MAX * SAFE_MAX * SAFE_MAX, SAFE_MAX as int, 2 * SAFE_MAX);
                    lemma_q_norm_small(q_add(sv@, h@));
                    assert(false);
                }
            }
            return None;
        },
    };
    proof {
        // res ~ sv + h ~ (p - c) * s + w/2, by congruence in each operand.
        lemma_q_mul_congr(dv@, q_sub(p@, c@), s@);
        assert(q_mul(dv@, s@).d != 0) by (nonlinear_arith)
            requires
                dv@.d > 0,
                s@.d > 0,
        ;
        lemma_q_eq_trans(sv@, q_mul(dv@, s@), q_mul(q_sub(p@, c@), s@));
        lemma_q_add_congr(sv@, q_mul(q_sub(p@, c@), s@), h@);
        assert(q_add(sv@, h@).d != 0) by (nonlinear_arith)
            requires
                sv@.d > 0,
                h@.d > 0,
        ;
        lemma_q_eq_trans(res@, q_add(sv@, h@), q_add(q_mul(q_sub(p@, c@), s@), h@));
        lemma_q_add_congr_right(q_mul(q_sub(p@, c@), s@), h@, q_half(w@));
        assert(q_add(q_mul(q_sub(p@, c@), s@), h@).d != 0) by (nonlinear_arith)
            requires
                p@.d > 0,
                c@.d > 0,
                s@.d > 0,
                h@.d > 0,
        ;
        lemma_q_eq_trans(
            res@,
            q_add(q_mul(q_sub(p@, c@), s@), h@),
            w2s_axis(c@, s@, w@, p@),
        );
    }
    Some(res)
}

/// One axis of `screen_to_world`, on stored rationals.
fn s2w_axis_exec(c: Rat, s: Rat, w: Rat, p: Rat) -> (r: Option<Rat>)
    requires
        rat_small(c),
        rat_small(s),
        rat_small(w),
        rat_small(p),
        s.num > 0,
    ensures
        r matches Some(v) ==> q_eq(v@, s2w_axis(c@, s@, w@, p@)) && rat_small(v)
            && s2w_axis_stored(c@, s@, w@, p@) == Some(v@),
        r is None ==> s2w_axis_stored(c@, s@, w@, p@) is None,
        rat_safe(c) && rat_safe(s) && rat_safe(w) && rat_safe(p) ==> r is Some,
{
    let ghost safe = rat_safe(c) && rat_safe(s) && rat_safe(w) && rat_safe(p);
    let one_half = Rat::new(1, 2);
    let h = match w.checked_mul(one_half) {
        Some(h) => h,
        None => {
            proof {
                if safe {
                    lemma_q_norm_small(q_half(w@));
                    assert(false);
                }
            }
            return None;
        },
    };
    proof {
        assert(stored(q_half(w@)) == Some(h@));
        if safe {
            lemma_q_norm_small(q_half(w@));
            lemma_q_norm(q_half(w@));
        }
    }
    let dv = match p.checked_sub(h) {
        Some(dv) => dv,
        None => {
            proof {
                if safe {
                    lemma_q_op_bounds(p@, h@, SAFE_MAX as int, SAFE_MAX as int,
                        SAFE_MAX as int, 2 * SAFE_MAX);
                    lemma_q_norm_small(q_sub(p@, h@));
                    assert(false);
                }
            }
            return None;
        },
    };
    proof {
        if safe {
            lemma_q_op_bounds(p@, h@, SAFE_MAX as int, SAFE_MAX as int, SAFE_MAX as int,
                2 * SAFE_MAX);
            lemma_q_norm(q_sub(p@, h@));
        }
    }
    let qv = match dv.checked_div(s) {
        Some(qv) => qv,
        None => {
            proof {
                if safe {
                    lemma_q_op_bounds(dv@, s@, 3 * SAFE_MAX * SAFE_MAX,
                        2 * SAFE_MAX * SAFE_MAX, SAFE_MAX as int, SAFE_MAX as int);
                    lemma_q_norm_small(q_div(dv@, s@));
                    assert(false);
                }
            }
            return None;
        },
    };
    proof {
        if safe {
            lemma_q_op_bounds(dv@, s@, 3 * SAFE_MAX * SAFE_MAX, 2 * SAFE_MAX * SAFE_MAX,
                SAFE_MAX as int, SAFE_MAX as int);
            lemma_q_norm(q_div(dv@, s@));
        }
    }
    let res = match qv.checked_add(c) {
        Some(v) => v,
        None => {
            proof {
                if safe {
                    lemma_q_op_bounds(qv@, c@, 3 * SAFE_MAX * SAFE_MAX * SAFE_MAX,
                        2 * SAFE_MAX * SAFE_MAX * SAFE_MAX, SAFE_MAX as int, SAFE_MAX as int);
                    lemma_q_norm_small(q_add(qv@, c@));
                    assert(false);
                }
            }
            return None;
        },
    };
    proof {
        // res ~ qv + c ~ (p - w/2) / s + c, by congruence in each operand.
        lemma_q_sub_congr_right(p@, h@, q_half(w@));
        assert(q_sub(p@, h@).d != 0) by (nonlinear_arith)
            requires
                p@.d > 0,
                h@.d > 0,
        ;
        lemma_q_eq_trans(dv@, q_sub(p@, h@), q_sub(p@, q_half(w@)));
        lemma_q_div_congr(dv@, q_sub(p@, q_half(w@)), s@);
        assert(q_div(dv@, s@).d != 0) by (nonlinear_arith)
            requires
                dv@.d > 0,
                s@.n > 0,
        ;
        lemma_q_eq_trans(qv@, q_div(dv@, s@), q_div(q_sub(p@, q_half(w@)), s@));
        lemma_q_add_congr(qv@, q_div(q_sub(p@, q_half(w@)), s@), c@);
        assert(q_add(qv@, c@).d != 0) by (nonlinear_arith)
            requires
                qv@.d > 0,
                c@.d > 0,
        ;
        lemma_q_eq_trans(
            res@,
            q_add(qv@, c@),
            s2w_axis(c@, s@, w@, p@),
        );
    }
    Some(res)
}

/// One axis of the new camera center after a zoom-at-point step.
fn zoom_axis_exec(c: Rat, s: Rat, w: Rat, p: Rat, f: Rat) -> (r: Option<Rat>)
    requires
        rat_small(c),
        rat_small(s),
        rat_small(w),
        rat_small(p),
        rat_small(f),
        s.num > 0,
        f.num > 0,
    ensures
        r matches Some(v) ==> q_eq(v@, zoom_center_axis(c@, s@, w@, p@, f@)) && rat_small(v)
            && zoom_axis_stored(c@, s@, w@, p@, f@) == Some(v@),
        r is None ==> zoom_axis_stored(c@, s@, w@, p@, f@) is None,
{
    let wb = match s2w_axis_exec(c, s, w, p) {
        Some(wb) => wb,
        None => return None,
    };
    let sp = match s.checked_mul(f) {
        Some(sp) => sp,
        None => return None,
    };
    proof {
        assert(stored(q_mul(s@, f@)) == Some(sp@));
    }
    proof {
        assert(q_mul(s@, f@).n > 0 && q_mul(s@, f@).d > 0) by (nonlinear_arith)
            requires
                s@.n > 0,
                f@.n > 0,
                s@.d > 0,
                f@.d > 0,
        ;
        lemma_q_eq_pos(sp@, q_mul(s@, f@));
    }
    let one_half = Rat::new(1, 2);
    let h = match w.checked_mul(one_half) {
        Some(h) => h,
        None => return None,
    };
    let dv = match p.checked_sub(h) {
        Some(dv) => dv,
        None => return None,
    };
    let t = match dv.checked_div(sp) {
        Some(t) => t,
        None => return None,
    };
    let res = match wb.checked_sub(t) {
        Some(res) => res,
        None => return None,
    };
    proof {
        // dv ~ p - w/2
        lemma_q_sub_congr_right(p@, h@, q_half(w@));
        assert(q_sub(p@, h@).d != 0) by (nonlinear_arith)
            requires
                p@.d > 0,
                h@.d > 0,
        ;
        lemma_q_eq_trans(dv@, q_sub(p@, h@), q_sub(p@, q_half(w@)));
        // t ~ (p - w/2) / (s * f)
        lemma_q_div_congr(dv@, q_sub(p@, q_half(w@)), sp@);
        assert(q_div(dv@, sp@).d != 0) by (nonlinear_arith)
            requires
                dv@.d > 0,
                sp@.n > 0,
        ;
        lemma_q_eq_trans(t@, q_div(dv@, sp@), q_div(q_sub(p@, q_half(w@)), sp@));
        lemma_q_div_congr_right(q_sub(p@, q_half(w@)), sp@, q_mul(s@, f@));
        assert(q_div(q_sub(p@, q_half(w@)), sp@).d != 0) by (nonlinear_arith)
            requires
                p@.d > 0,
                w@.d > 0,
                sp@.n > 0,
        ;
        lemma_q_eq_trans(
            t@,
            q_div(q_sub(p@, q_half(w@)), sp@),
            q_div(q_sub(p@, q_half(w@)), q_mul(s@, f@)),
        );
        // res ~ s2w(p) - t
        lemma_q_sub_congr(wb@, s2w_axis(c@, s@, w@, p@), t@);
        assert(q_sub(wb@, t@).d != 0) by (nonlinear_arith)
            requires
                wb@.d > 0,
                t@.d > 0,
        ;
        lemma_q_eq_trans(res@, q_sub(wb@, t@), q_sub(s2w_axis(c@, s@, w@, p@), t@));
        lemma_q_sub_congr_right(
            s2w_axis(c@, s@, w@, p@),
            t@,
            q_div(q_sub(p@, q_half(w@)), q_mul(s@, f@)),
        );
        assert(q_sub(s2w_axis(c@, s@, w@, p@), t@).d != 0) by (nonlinear_arith)
            requires
                c@.d > 0,
                s@.d > 0,
                w@.d > 0,
                p@.d > 0,
                s@.n > 0,
                t@.d > 0,
        ;
        lemma_q_eq_trans(
            res@,
            q_sub(s2w_axis(c@, s@, w@, p@), t@),
            zoom_center_axis(c@, s@, w@, p@, f@),
        );
    }
    Some(res)
}

/// A 2D camera that defines the visible region of the world.
///
/// The camera manages pan and zoom state, converting between world
/// coordinates and screen coordinates. Screen origin is at top-left, with Y
/// increasing downward. Its invariant: the scale (pixels per world unit) is
/// strictly positive and every component is within the stored bound.
#[derive(Clone, Copy, Debug, PartialEq, Eq, Structural)]
pub struct Camera2D {
    /// World coordinates at the center of the screen.
    pub center: Vec2,
    /// Scale factor: pixels per world unit.
    pub scale: Rat,
    /// Screen dimensions in pixels.
    pub screen_size: Vec2,
}

/// The camera invariant: positive scale, all components within bounds.
pub open spec fn camera_wf(cam: Camera2D) -> bool {
    &&& vec2_small(cam.center)
    &&& rat_small(cam.scale)
    &&& vec2_small(cam.screen_size)
    &&& cam.scale.num > 0
}

/// All camera components within the guaranteed-success bound.
pub open spec fn camera_safe(cam: Camera2D) -> bool {
    &&& vec2_safe(cam.center)
    &&& rat_safe(cam.scale)
    &&& vec2_safe(cam.screen_size)
}

impl Camera2D {
    /// Create a new camera looking at `center` with the given scale and
    /// screen size.
    pub fn new(center: Vec2, scale: Rat, screen_size: Vec2) -> (cam: Camera2D)
        requires
            vec2_small(center),
            rat_small(scale),
            vec2_small(screen_size),
            scale.num > 0,
        ensures
            cam.center == center,
            cam.scale == scale,
            cam.screen_size == screen_size,
            camera_wf(cam),
    {
        Camera2D { center, scale, screen_size }
    }

    /// Get the camera center in world coordinates.
    pub fn center(&self) -> (r: Vec2)
        ensures
            r == self.center,
    {
        self.center
    }

    /// Set the camera center in world coordinates (pan).
    pub fn set_center(&mut self, center: Vec2)
        requires
            vec2_small(center),
        ensures
            final(self).center == center,
            final(self).scale == old(self).scale,
            final(self).screen_size == old(self).screen_size,
    {
        self.center = center;
    }

    /// Get the current scale (pixels per world unit).
    pub fn scale(&self) -> (r: Rat)
        ensures
            r == self.scale,
    {
        self.scale
    }

    /// Set the scale (zoom level).
    pub fn set_scale(&mut self, scale: Rat)
        requires
            rat_small(scale),
            scale.num > 0,
        ensures
            final(self).scale == scale,
            final(self).center == old(self).center,
            final(self).screen_size == old(self).screen_size,
    {
        self.scale = scale;
    }

    /// Get the screen size.
    pub fn screen_size(&self) -> (r: Vec2)
        ensures
            r == self.screen_size,
    {
        self.screen_size
    }

    /// Update screen size (e.g., on window resize).
    pub fn set_screen_size(&mut self, screen_size: Vec2)
        requires
            vec2_small(screen_size),
        ensures
            final(self).screen_size == screen_size,
            final(self).center == old(self).center,
            final(self).scale == old(self).scale,
    {
        self.screen_size = screen_size;
    }

    /// Pan the camera by a delta in world coordinates. Returns `false`, and
    /// leaves the camera unchanged, when the exact result is not
    /// representable.
    pub fn pan(&mut self, delta: Vec2) -> (r: bool)
        requires
            camera_wf(*old(self)),
            vec2_small(delta),
        ensures
            r <==> stored(q_add(old(self).center.x@, delta.x@)) is Some && stored(
                q_add(old(self).center.y@, delta.y@),
            ) is Some,
            r ==> {
                &&& q_eq(final(self).center.x@, q_add(old(self).center.x@, delta.x@))
                &&& q_eq(final(self).center.y@, q_add(old(self).center.y@, delta.y@))
                &&& final(self).scale == old(self).scale
                &&& final(self).screen_size == old(self).screen_size
                &&& camera_wf(*final(self))
            },
            !r ==> *final(self) == *old(self),
    {
        let nx = match self.center.x.checked_add(delta.x) {
            Some(nx) => nx,
            None => return false,
        };
        let ny = match self.center.y.checked_add(delta.y) {
            Some(ny) => ny,
            None => return false,
        };
        self.center = Vec2 { x: nx, y: ny };
        true
    }

    /// Pan the camera by a delta in screen coordinates: the center moves by
    /// `-delta / scale`. Returns `false`, and leaves the camera unchanged,
    /// when the exact result is not representable.
    pub fn pan_screen(&mut self, delta_pixels: Vec2) -> (r: bool)
        requires
            camera_wf(*old(self)),
            vec2_small(delta_pixels),
        ensures
            r <==> pan_screen_axis_stored(
                old(self).center.x@,
                old(self).scale@,
                delta_pixels.x@,
            ) is Some && pan_screen_axis_stored(
                old(self).center.y@,
                old(self).scale@,
                delta_pixels.y@,
            ) is Some,
            r ==> {
                &&& q_eq(
                    final(self).center.x@,
                    q_sub(old(self).center.x@, q_div(delta_pixels.x@, old(self).scale@)),
                )
                &&& q_eq(
                    final(self).center.y@,
                    q_sub(old(self).center.y@, q_div(delta_pixels.y@, old(self).scale@)),
                )
                &&& final(self).scale == old(self).scale
                &&& final(self).screen_size == old(self).screen_size
                &&& camera_wf(*final(self))
            },
            !r ==> *final(self) == *old(self),
    {
        let qx = match delta_pixels.x.checked_div(self.scale) {
            Some(qx) => qx,
            None => return false,
        };
        let qy = match delta_pixels.y.checked_div(self.scale) {
            Some(qy) => qy,
            None => return false,
        };
        let nx = match self.center.x.checked_sub(qx) {
            Some(nx) => nx,
            None => return false,
        };
        let ny = match self.center.y.checked_sub(qy) {
            Some(ny) => ny,
            None => return false,
        };
        proof {
            let ocx = old(self).center.x@;
            let ocy = old(self).center.y@;
            assert(q_sub(ocx, qx@).d != 0 && q_sub(ocy, qy@).d != 0) by (nonlinear_arith)
                requires
                    ocx.d > 0,
                    ocy.d > 0,
                    qx@.d > 0,
                    qy@.d > 0,
            ;
            lemma_q_sub_congr_right(
                old(self).center.x@,
                qx@,
                q_div(delta_pixels.x@, old(self).scale@),
            );
            lemma_q_eq_trans(
                nx@,
                q_sub(old(self).center.x@, qx@),
                q_sub(old(self).center.x@, q_div(delta_pixels.x@, old(self).scale@)),
            );
            lemma_q_sub_congr_right(
                old(self).center.y@,
                qy@,
                q_div(delta_pixels.y@, old(self).scale@),
            );
            lemma_q_eq_trans(
                ny@,
                q_sub(old(self).center.y@, qy@),
                q_sub(old(self).center.y@, q_div(delta_pixels.y@, old(self).scale@)),
            );
        }
        self.center = Vec2 { x: nx, y: ny };
        true
    }

    /// Zoom by a factor, keeping the screen center fixed. Factor > 1 zooms
    /// in, factor < 1 zooms out. Returns `false`, and leaves the camera
    /// unchanged, when the exact result is not representable.
    pub fn zoom(&mut self, factor: Rat) -> (r: bool)
        requires
            camera_wf(*old(self)),
            rat_small(factor),
            factor.num > 0,
        ensures
            r <==> stored(q_mul(old(self).scale@, factor@)) is Some,
            r ==> {
                &&& q_eq(final(self).scale@, q_mul(old(self).scale@, factor@))
                &&& final(self).center == old(self).center
                &&& final(self).screen_size == old(self).screen_size
                &&& camera_wf(*final(self))
            },
            !r ==> *final(self) == *old(self),
    {
        let sp = match self.scale.checked_mul(factor) {
            Some(sp) => sp,
            None => return false,
        };
        proof {
            let os = old(self).scale@;
            assert(q_mul(os, factor@).n > 0 && q_mul(os, factor@).d > 0) by (nonlinear_arith)
                requires
                    os.n > 0,
                    factor@.n > 0,
                    os.d > 0,
                    factor@.d > 0,
            ;
            lemma_q_eq_pos(sp@, q_mul(os, factor@));
        }
        self.scale = sp;
        true
    }

    /// Zoom by a factor, keeping a specific screen point fixed (zoom to
    /// cursor). The world point under `screen_point` maps to the same
    /// screen position before and after the zoom; see
    /// [`lemma_zoom_preserves_cursor`]. Returns `false`, and leaves the
    /// camera unchanged, when the exact result is not representable.
    pub fn zoom_at(&mut self, factor: Rat, screen_point: Vec2) -> (r: bool)
        requires
            camera_wf(*old(self)),
            rat_small(factor),
            factor.num > 0,
            vec2_small(screen_point),
        ensures
            r <==> stored(q_mul(old(self).scale@, factor@)) is Some && zoom_axis_stored(
                old(self).center.x@,
                old(self).scale@,
                old(self).screen_size.x@,
                screen_point.x@,
                factor@,
            ) is Some && zoom_axis_stored(
                old(self).center.y@,
                old(self).scale@,
                old(self).screen_size.y@,
                screen_point.y@,
                factor@,
            ) is Some,
            r ==> {
                &&& q_eq(final(self).scale@, q_mul(old(self).scale@, factor@))
                &&& q_eq(
                    final(self).center.x@,
                    zoom_center_axis(
                        old(self).center.x@,
                        old(self).scale@,
                        old(self).screen_size.x@,
                        screen_point.x@,
                        factor@,
                    ),
                )
                &&& q_eq(
                    final(self).center.y@,
                    zoom_center_axis(
                        old(self).center.y@,
                        old(self).scale@,
                        old(self).screen_size.y@,
                        screen_point.y@,
                        factor@,
                    ),
                )
                &&& final(self).screen_size == old(self).screen_size
                &&& camera_wf(*final(self))
            },
            !r ==> *final(self) == *old(self),
    {
        let sp = match self.scale.checked_mul(factor) {
            Some(sp) => sp,
            None => return false,
        };
        let nx = match zoom_axis_exec(
            self.center.x,
            self.scale,
            self.screen_size.x,
            screen_point.x,
            factor,
        ) {
            Some(nx) => nx,
            None => return false,
        };
        let ny = match zoom_axis_exec(
            self.center.y,
            self.scale,
            self.screen_size.y,
            screen_point.y,
            factor,
        ) {
            Some(ny) => ny,
            None => return false,
        };
        proof {
            let os = old(self).scale@;
            assert(q_mul(os, factor@).n > 0 && q_mul(os, factor@).d > 0) by (nonlinear_arith)
                requires
                    os.n > 0,
                    factor@.n > 0,
                    os.d > 0,
                    factor@.d > 0,
            ;
            lemma_q_eq_pos(sp@, q_mul(os, factor@));
        }
        self.scale = sp;
        self.center = Vec2 { x: nx, y: ny };
        true
    }

    /// Convert world coordinates to screen coordinates (pixels):
    /// `(p - center) * scale + screen/2` on each axis. Guaranteed to
    /// succeed when every component is within [`SAFE_MAX`].
    pub fn world_to_screen(&self, world: Vec2) -> (r: Option<Vec2>)
        requires
            camera_wf(*self),
            vec2_small(world),
        ensures
            r matches Some(v) ==> {
                &&& q_eq(
                    v.x@,
                    w2s_axis(self.center.x@, self.scale@, self.screen_size.x@, world.x@),
                )
                &&& q_eq(
                    v.y@,
                    w2s_axis(self.center.y@, self.scale@, self.screen_size.y@, world.y@),
                )
                &&& vec2_small(v)
            },
            r is Some <==> w2s_axis_stored(
                self.center.x@,
                self.scale@,
                self.screen_size.x@,
                world.x@,
            ) is Some && w2s_axis_stored(
                self.center.y@,
                self.scale@,
                self.screen_size.y@,
                world.y@,
            ) is Some,
            camera_safe(*self) && vec2_safe(world) ==> r is Some,
    {
        let x = match w2s_axis_exec(self.center.x, self.scale, self.screen_size.x, world.x) {
            Some(x) => x,
            None => return None,
        };
        let y = match w2s_axis_exec(self.center.y, self.scale, self.screen_size.y, world.y) {
            Some(y) => y,
            None => return None,
        };
        Some(Vec2 { x, y })
    }

    /// Convert screen coordinates (pixels) to world coordinates:
    /// `(p - screen/2) / scale + center` on each axis. Guaranteed to
    /// succeed when every component is within [`SAFE_MAX`].
    pub fn screen_to_world(&self, screen: Vec2) -> (r: Option<Vec2>)
        requires
            camera_wf(*self),
            vec2_small(screen),
        ensures
            r matches Some(v) ==> {
                &&& q_eq(
                    v.x@,
                    s2w_axis(self.center.x@, self.scale@, self.screen_size.x@, screen.x@),
                )
                &&& q_eq(
                    v.y@,
                    s2w_axis(self.center.y@, self.scale@, self.screen_size.y@, screen.y@),
                )
                &&& vec2_small(v)
            },
            r is Some <==> s2w_axis_stored(
                self.center.x@,
                self.scale@,
                self.screen_size.x@,
                screen.x@,
            ) is Some && s2w_axis_stored(
                self.center.y@,
                self.scale@,
                self.screen_size.y@,
                screen.y@,
            ) is Some,
            camera_safe(*self) && vec2_safe(screen) ==> r is Some,
    {
        let x = match s2w_axis_exec(self.center.x, self.scale, self.screen_size.x, screen.x) {
            Some(x) => x,
            None => return None,
        };
        let y = match s2w_axis_exec(self.center.y, self.scale, self.screen_size.y, screen.y) {
            Some(y) => y,
            None => return None,
        };
        Some(Vec2 { x, y })
    }

    /// Get the visible world bounds as `(min_x, min_y, max_x, max_y)`:
    /// each axis spans `center ± screen/(2 * scale)`.
    pub fn world_bounds(&self) -> (r: Option<(Rat, Rat, Rat, Rat)>)
        requires
            camera_wf(*self),
        ensures
            r is Some <==> bounds_axis_stored(
                self.center.x@,
                self.scale@,
                self.screen_size.x@,
            ) is Some && bounds_axis_stored(
                self.center.y@,
                self.scale@,
                self.screen_size.y@,
            ) is Some,
            r matches Some(b) ==> {
                &&& q_eq(
                    b.0@,
                    q_sub(
                        self.center.x@,
                        q_div(q_half(self.screen_size.x@), self.scale@),
                    ),
                )
                &&& q_eq(
                    b.1@,
                    q_sub(
                        self.center.y@,
                        q_div(q_half(self.screen_size.y@), self.scale@),
                    ),
                )
                &&& q_eq(
                    b.2@,
                    q_add(
                        self.center.x@,
                        q_div(q_half(self.screen_size.x@), self.scale@),
                    ),
                )
                &&& q_eq(
                    b.3@,
                    q_add(
                        self.center.y@,
                        q_div(q_half(self.screen_size.y@), self.scale@),
                    ),
                )
            },
    {
        let hx = match half_extent_exec(self.screen_size.x, self.scale) {
            Some(hx) => hx,
            None => return None,
        };
        let hy = match half_extent_exec(self.screen_size.y, self.scale) {
            Some(hy) => hy,
            None => return None,
        };
        let min_x = match self.center.x.checked_sub(hx) {
            Some(v) => v,
            None => return None,
        };
        let min_y = match self.center.y.checked_sub(hy) {
            Some(v) => v,
            None => return None,
        };
        let max_x = match self.center.x.checked_add(hx) {
            Some(v) => v,
            None => return None,
        };
        let max_y = match self.center.y.checked_add(hy) {
            Some(v) => v,
            None => return None,
        };
        proof {
            let hxs = q_div(q_half(self.screen_size.x@), self.scale@);
            let hys = q_div(q_half(self.screen_size.y@), self.scale@);
            assert(q_sub(self.center.x@, hx@).d != 0 && q_add(self.center.x@, hx@).d != 0
                && q_sub(self.center.y@, hy@).d != 0 && q_add(self.center.y@, hy@).d
                != 0) by (nonlinear_arith)
                requires
                    self.center.x@.d > 0,
                    self.center.y@.d > 0,
                    hx@.d > 0,
                    hy@.d > 0,
            ;
            lemma_q_sub_congr_right(self.center.x@, hx@, hxs);
            lemma_q_eq_trans(min_x@, q_sub(self.center.x@, hx@), q_sub(self.center.x@, hxs));
            lemma_q_sub_congr_right(self.center.y@, hy@, hys);
            lemma_q_eq_trans(min_y@, q_sub(self.center.y@, hy@), q_sub(self.center.y@, hys));
            lemma_q_add_congr_right(self.center.x@, hx@, hxs);
            lemma_q_eq_trans(max_x@, q_add(self.center.x@, hx@), q_add(self.center.x@, hxs));
            lemma_q_add_congr_right(self.center.y@, hy@, hys);
            lemma_q_eq_trans(max_y@, q_add(self.center.y@, hy@), q_add(self.center.y@, hys));
        }
        Some((min_x, min_y, max_x, max_y))
    }
}

/// The half extent of one axis of the visible world: `(w/2) / s`.
fn half_extent_exec(w: Rat, s: Rat) -> (r: Option<Rat>)
    requires
        rat_small(w),
        rat_small(s),
        s.num > 0,
    ensures
        r matches Some(v) ==> q_eq(v@, q_div(q_half(w@), s@)) && rat_small(v)
            && half_extent_stored(w@, s@) == Some(v@),
        r is None ==> half_extent_stored(w@, s@) is None,
{
    let one_half = Rat::new(1, 2);
    let h = match w.checked_mul(one_half) {
        Some(h) => h,
        None => return None,
    };
    proof {
        assert(stored(q_half(w@)) == Some(h@));
    }
    let res = match h.checked_div(s) {
        Some(res) => res,
        None => return None,
    };
    proof {
        lemma_q_div_congr(h@, q_half(w@), s@);
        assert(q_div(h@, s@).d != 0) by (nonlinear_arith)
            requires
                h@.d > 0,
                s@.n > 0,
        ;
        lemma_q_eq_trans(res@, q_div(h@, s@), q_div(q_half(w@), s@));
    }
    Some(res)
}

/// Law: replacing the zoom factor by an equal fraction does not change the
/// zoomed camera center.
pub proof fn lemma_zoom_center_respects_f(c: Q, s: Q, w: Q, p: Q, f: Q, f2: Q)
    requires
        q_eq(f, f2),
        c.d != 0,
        s.d != 0,
        w.d != 0,
        p.d != 0,
        s.n != 0,
        f.n != 0,
    ensures
        q_eq(zoom_center_axis(c, s, w, p, f), zoom_center_axis(c, s, w, p, f2)),
        zoom_center_axis(c, s, w, p, f).d != 0,
{
    broadcast use vstd::arithmetic::mul::lemma_mul_nonzero;

    let a = q_sub(p, q_half(w));
    lemma_q_mul_congr_right(s, f, f2);
    lemma_q_div_congr_right(a, q_mul(s, f), q_mul(s, f2));
    lemma_q_sub_congr_right(s2w_axis(c, s, w, p), q_div(a, q_mul(s, f)), q_div(a, q_mul(s, f2)));
}

/// Trait for coordinate transformations between world and screen space.
///
/// Implementors define how world coordinates map to screen pixels and vice
/// versa; `None` reports a value outside the implementor's exact range.
pub trait Projection {
    /// Convert world coordinates to screen coordinates (pixels).
    fn world_to_screen(&self, world: Vec2) -> Option<Vec2>;

    /// Convert screen coordinates (pixels) to world coordinates.
    fn screen_to_world(&self, screen: Vec2) -> Option<Vec2>;
}

/// Identity projection where world coordinates equal screen coordinates.
#[derive(Debug, Clone, Copy)]
pub struct IdentityProjection;

impl IdentityProjection {
    /// The identity: the world point is its own screen point.
    pub fn world_to_screen(&self, world: Vec2) -> (r: Option<Vec2>)
        ensures
            r == Some(world),
    {
        Some(world)
    }

    /// The identity: the screen point is its own world point.
    pub fn screen_to_world(&self, screen: Vec2) -> (r: Option<Vec2>)
        ensures
            r == Some(screen),
    {
        Some(screen)
    }
}

impl Projection for IdentityProjection {
    fn world_to_screen(&self, world: Vec2) -> Option<Vec2> {
        Some(world)
    }

    fn screen_to_world(&self, screen: Vec2) -> Option<Vec2> {
        Some(screen)
    }
}

impl Camera2D {
    /// Whether the camera satisfies its invariant, checked at run time (for
    /// callers that reach the camera through the contract-free
    /// [`Projection`] trait).
    pub fn invariant_holds(&self) -> (r: bool)
        ensures
            r == camera_wf(*self),
    {
        self.scale.num > 0 && rat_small_check(self.scale) && rat_small_check(self.center.x)
            && rat_small_check(self.center.y) && rat_small_check(self.screen_size.x)
            && rat_small_check(self.screen_size.y)
    }
}

/// Run-time check of the stored-component bound.
fn rat_small_check(r: Rat) -> (b: bool)
    ensures
        b == rat_small(r),
{
    -COMPONENT_MAX <= r.num && r.num <= COMPONENT_MAX && 0 < r.den && r.den <= COMPONENT_MAX
}

impl Projection for Camera2D {
    fn world_to_screen(&self, world: Vec2) -> Option<Vec2> {
        if self.invariant_holds() && rat_small_check(world.x) && rat_small_check(world.y) {
            Camera2D::world_to_screen(self, world)
        } else {
            None
        }
    }

    fn screen_to_world(&self, screen: Vec2) -> Option<Vec2> {
        if self.invariant_holds() && rat_small_check(screen.x) && rat_small_check(screen.y) {
            Camera2D::screen_to_world(self, screen)
        } else {
            None
        }
    }
}

/// The left mouse button, as delivered by the window source.
pub const MOUSE_BUTTON_LEFT: i32 = 0;

/// The press action of a mouse button event.
pub const ACTION_PRESS: i32 = 1;

/// The zoom factor that one scroll tick applies: the sensitivity for an
/// upward scroll, its reciprocal for a downward one.
pub open spec fn scroll_factor(sens: Q, y_offset: Q) -> Q {
    if q_lt(q_int(0), y_offset) {
        sens
    } else {
        q_div(q_int(1), sens)
    }
}

/// The displayed value after one smoothing step: `current + (target -
/// current) * t`.
pub open spec fn blend_axis(current: Q, target: Q, t: Q) -> Q {
    q_add(current, q_mul(q_sub(target, current), t))
}

/// Input-driven controller for [`Camera2D`] with drag-to-pan and
/// scroll-to-zoom.
///
/// Keeps a *target* center and scale apart from the displayed camera;
/// input events move the target, and [`CameraController::update`] eases the
/// displayed camera toward it. The blend weight for one frame,
/// `1 - e^(-smoothness * dt)`, is transcendental, so the embedding computes
/// it and passes it in; a zero smoothness snaps to the target regardless.
pub struct CameraController {
    pub camera: Camera2D,
    pub target_scale: Rat,
    pub target_center: Vec2,
    pub is_dragging: bool,
    pub last_cursor_pos: Vec2,
    pub zoom_sensitivity: Rat,
    pub zoom_smoothness: Rat,
}

/// The controller invariant: a well-formed camera, bounded target state, a
/// positive target scale, a sensitivity above one and a nonnegative
/// smoothness.
pub open spec fn controller_wf(ctl: CameraController) -> bool {
    &&& camera_wf(ctl.camera)
    &&& rat_small(ctl.target_scale)
    &&& ctl.target_scale.num > 0
    &&& vec2_small(ctl.target_center)
    &&& vec2_small(ctl.last_cursor_pos)
    &&& rat_small(ctl.zoom_sensitivity)
    &&& q_lt(q_int(1), ctl.zoom_sensitivity@)
    &&& rat_small(ctl.zoom_smoothness)
    &&& q_le(q_int(0), ctl.zoom_smoothness@)
}

impl CameraController {
    /// Create a new controller wrapping the given camera. The default zoom
    /// sensitivity is 11/10 (ten percent per scroll tick) and the default
    /// smoothness is 6.
    pub fn new(camera: Camera2D) -> (ctl: CameraController)
        requires
            camera_wf(camera),
        ensures
            ctl.camera == camera,
            ctl.target_scale == camera.scale,
            ctl.target_center == camera.center,
            !ctl.is_dragging,
            ctl.last_cursor_pos.x@ == q_int(0) && ctl.last_cursor_pos.y@ == q_int(0),
            ctl.zoom_sensitivity@ == (Q { n: 11, d: 10 }),
            ctl.zoom_smoothness@ == (Q { n: 6, d: 1 }),
            controller_wf(ctl),
    {
        CameraController {
            camera,
            target_scale: camera.scale,
            target_center: camera.center,
            is_dragging: false,
            last_cursor_pos: Vec2 { x: Rat::zero(), y: Rat::zero() },
            zoom_sensitivity: Rat::new(11, 10),
            zoom_smoothness: Rat::new(6, 1),
        }
    }

    /// Set zoom sensitivity: how much each scroll tick zooms. Must be
    /// greater than one.
    pub fn set_zoom_sensitivity(&mut self, sensitivity: Rat)
        requires
            rat_small(sensitivity),
            q_lt(q_int(1), sensitivity@),
        ensures
            *final(self) == (CameraController { zoom_sensitivity: sensitivity, ..*old(self) }),
    {
        self.zoom_sensitivity = sensitivity;
    }

    /// Set zoom animation smoothness: higher is snappier, zero snaps
    /// instantly.
    pub fn set_zoom_smoothness(&mut self, smoothness: Rat)
        requires
            rat_small(smoothness),
            q_le(q_int(0), smoothness@),
        ensures
            *final(self) == (CameraController { zoom_smoothness: smoothness, ..*old(self) }),
    {
        self.zoom_smoothness = smoothness;
    }

    /// Handle mouse button events: the left button toggles dragging.
    pub fn on_mouse_button(&mut self, button: i32, action: i32)
        ensures
            final(self).is_dragging == if button == MOUSE_BUTTON_LEFT {
                action == ACTION_PRESS
            } else {
                old(self).is_dragging
            },
            *final(self) == (CameraController {
                is_dragging: final(self).is_dragging,
                ..*old(self)
            }),
    {
        if button == MOUSE_BUTTON_LEFT {
            self.is_dragging = action == ACTION_PRESS;
        }
    }

    /// Handle cursor movement. While dragging, the target center moves by
    /// the screen delta divided by the target scale (panning is computed
    /// against the target, so rapid pans compose even mid-animation).
    /// Returns `false`, and leaves the controller unchanged, when the exact
    /// result is not representable.
    pub fn on_cursor_move(&mut self, x: Rat, y: Rat) -> (r: bool)
        requires
            controller_wf(*old(self)),
            rat_small(x),
            rat_small(y),
        ensures
            old(self).is_dragging ==> (r <==> cursor_axis_stored(
                old(self).target_center.x@,
                old(self).last_cursor_pos.x@,
                old(self).target_scale@,
                x@,
            ) is Some && cursor_axis_stored(
                old(self).target_center.y@,
                old(self).last_cursor_pos.y@,
                old(self).target_scale@,
                y@,
            ) is Some),
            !old(self).is_dragging ==> r,
            r ==> {
                &&& final(self).last_cursor_pos == (Vec2 { x, y })
                &&& old(self).is_dragging ==> q_eq(
                    final(self).target_center.x@,
                    q_sub(
                        old(self).target_center.x@,
                        q_div(q_sub(x@, old(self).last_cursor_pos.x@), old(self).target_scale@),
                    ),
                ) && q_eq(
                    final(self).target_center.y@,
                    q_sub(
                        old(self).target_center.y@,
                        q_div(q_sub(y@, old(self).last_cursor_pos.y@), old(self).target_scale@),
                    ),
                )
                &&& !old(self).is_dragging ==> final(self).target_center == old(
                    self,
                ).target_center
                &&& final(self).camera == old(self).camera
                &&& final(self).target_scale == old(self).target_scale
                &&& final(self).is_dragging == old(self).is_dragging
                &&& final(self).zoom_sensitivity == old(self).zoom_sensitivity
                &&& final(self).zoom_smoothness == old(self).zoom_smoothness
                &&& controller_wf(*final(self))
            },
            !r ==> *final(self) == *old(self),
    {
        if self.is_dragging {
            let dx = match x.checked_sub(self.last_cursor_pos.x) {
                Some(v) => v,
                None => return false,
            };
            let dy = match y.checked_sub(self.last_cursor_pos.y) {
                Some(v) => v,
                None => return false,
            };
            let qx = match dx.checked_div(self.target_scale) {
                Some(v) => v,
                None => return false,
            };
            let qy = match dy.checked_div(self.target_scale) {
                Some(v) => v,
                None => return false,
            };
            let nx = match self.target_center.x.checked_sub(qx) {
                Some(v) => v,
                None => return false,
            };
            let ny = match self.target_center.y.checked_sub(qy) {
                Some(v) => v,
                None => return false,
            };
            proof {
                broadcast use vstd::arithmetic::mul::lemma_mul_nonzero;

                let ts = old(self).target_scale@;
                let lx = old(self).last_cursor_pos.x@;
                let ly = old(self).last_cursor_pos.y@;
                let tcx = old(self).target_center.x@;
                let tcy = old(self).target_center.y@;
                lemma_q_div_congr(dx@, q_sub(x@, lx), ts);
                lemma_q_eq_trans(qx@, q_div(dx@, ts), q_div(q_sub(x@, lx), ts));
                lemma_q_sub_congr_right(tcx, qx@, q_div(q_sub(x@, lx), ts));
                lemma_q_eq_trans(nx@, q_sub(tcx, qx@), q_sub(tcx, q_div(q_sub(x@, lx), ts)));
                lemma_q_div_congr(dy@, q_sub(y@, ly), ts);
                lemma_q_eq_trans(qy@, q_div(dy@, ts), q_div(q_sub(y@, ly), ts));
                lemma_q_sub_congr_right(tcy, qy@, q_div(q_sub(y@, ly), ts));
                lemma_q_eq_trans(ny@, q_sub(tcy, qy@), q_sub(tcy, q_div(q_sub(y@, ly), ts)));
            }
            self.target_center = Vec2 { x: nx, y: ny };
        }
        self.last_cursor_pos = Vec2 { x, y };
        true
    }

    /// Handle scroll events: one tick multiplies the target scale by the
    /// sensitivity (or its reciprocal) and recomputes the target center so
    /// the world point under the cursor at the target state stays fixed —
    /// the zoom-at-cursor invariant applied to the animation target.
    /// Returns `false`, and leaves the controller unchanged, when the exact
    /// result is not representable.
    pub fn on_scroll(&mut self, y_offset: Rat) -> (r: bool)
        requires
            controller_wf(*old(self)),
            rat_small(y_offset),
        ensures
            r <==> (match scroll_factor_stored(old(self).zoom_sensitivity@, y_offset@) {
                Some(f) => stored(q_mul(old(self).target_scale@, f)) is Some
                    && zoom_axis_stored(
                    old(self).target_center.x@,
                    old(self).target_scale@,
                    old(self).camera.screen_size.x@,
                    old(self).last_cursor_pos.x@,
                    f,
                ) is Some && zoom_axis_stored(
                    old(self).target_center.y@,
                    old(self).target_scale@,
                    old(self).camera.screen_size.y@,
                    old(self).last_cursor_pos.y@,
                    f,
                ) is Some,
                None => false,
            }),
            r ==> {
                &&& q_eq(
                    final(self).target_scale@,
                    q_mul(
                        old(self).target_scale@,
                        scroll_factor(old(self).zoom_sensitivity@, y_offset@),
                    ),
                )
                &&& q_eq(
                    final(self).target_center.x@,
                    zoom_center_axis(
                        old(self).target_center.x@,
                        old(self).target_scale@,
                        old(self).camera.screen_size.x@,
                        old(self).last_cursor_pos.x@,
                        scroll_factor(old(self).zoom_sensitivity@, y_offset@),
                    ),
                )
                &&& q_eq(
                    final(self).target_center.y@,
                    zoom_center_axis(
                        old(self).target_center.y@,
                        old(self).target_scale@,
                        old(self).camera.screen_size.y@,
                        old(self).last_cursor_pos.y@,
                        scroll_factor(old(self).zoom_sensitivity@, y_offset@),
                    ),
                )
                &&& final(self).camera == old(self).camera
                &&& final(self).is_dragging == old(self).is_dragging
                &&& final(self).last_cursor_pos == old(self).last_cursor_pos
                &&& final(self).zoom_sensitivity == old(self).zoom_sensitivity
                &&& final(self).zoom_smoothness == old(self).zoom_smoothness
                &&& controller_wf(*final(self))
            },
            !r ==> *final(self) == *old(self),
    {
        let factor = if y_offset.is_positive() {
            self.zoom_sensitivity
        } else {
            match Rat::one().checked_div(self.zoom_sensitivity) {
                Some(f) => f,
                None => return false,
            }
        };
        proof {
            let ghost fs = scroll_factor(old(self).zoom_sensitivity@, y_offset@);
            if !q_lt(q_int(0), y_offset@) {
                assert(q_div(q_int(1), old(self).zoom_sensitivity@).n > 0
                    && q_div(q_int(1), old(self).zoom_sensitivity@).d > 0);
                lemma_q_eq_pos(factor@, q_div(q_int(1), old(self).zoom_sensitivity@));
            }
        }
        let sp = match self.target_scale.checked_mul(factor) {
            Some(v) => v,
            None => return false,
        };
        let nx = match zoom_axis_exec(
            self.target_center.x,
            self.target_scale,
            self.camera.screen_size.x,
            self.last_cursor_pos.x,
            factor,
        ) {
            Some(v) => v,
            None => return false,
        };
        let ny = match zoom_axis_exec(
            self.target_center.y,
            self.target_scale,
            self.camera.screen_size.y,
            self.last_cursor_pos.y,
            factor,
        ) {
            Some(v) => v,
            None => return false,
        };
        proof {
            broadcast use vstd::arithmetic::mul::lemma_mul_nonzero;

            let ts = old(self).target_scale@;
            let fs = scroll_factor(old(self).zoom_sensitivity@, y_offset@);
            assert(q_eq(factor@, fs));
            assert(q_mul(ts, factor@).n > 0 && q_mul(ts, factor@).d > 0) by (nonlinear_arith)
                requires
                    ts.n > 0,
                    factor@.n > 0,
                    ts.d > 0,
                    factor@.d > 0,
            ;
            lemma_q_eq_pos(sp@, q_mul(ts, factor@));
            lemma_q_mul_congr_right(ts, factor@, fs);
            lemma_q_eq_trans(sp@, q_mul(ts, factor@), q_mul(ts, fs));
            lemma_zoom_center_respects_f(
                old(self).target_center.x@,
                ts,
                old(self).camera.screen_size.x@,
                old(self).last_cursor_pos.x@,
                factor@,
                fs,
            );
            lemma_q_eq_trans(
                nx@,
                zoom_center_axis(
                    old(self).target_center.x@,
                    ts,
                    old(self).camera.screen_size.x@,
                    old(self).last_cursor_pos.x@,
                    factor@,
                ),
                zoom_center_axis(
                    old(self).target_center.x@,
                    ts,
                    old(self).camera.screen_size.x@,
                    old(self).last_cursor_pos.x@,
                    fs,
                ),
            );
            lemma_zoom_center_respects_f(
                old(self).target_center.y@,
                ts,
                old(self).camera.screen_size.y@,
                old(self).last_cursor_pos.y@,
                factor@,
                fs,
            );
            lemma_q_eq_trans(
                ny@,
                zoom_center_axis(
                    old(self).target_center.y@,
                    ts,
                    old(self).camera.screen_size.y@,
                    old(self).last_cursor_pos.y@,
                    factor@,
                ),
                zoom_center_axis(
                    old(self).target_center.y@,
                    ts,
                    old(self).camera.screen_size.y@,
                    old(self).last_cursor_pos.y@,
                    fs,
                ),
            );
        }
        self.target_scale = sp;
        self.target_center = Vec2 { x: nx, y: ny };
        true
    }

    /// Advance the displayed camera toward the target by the blend weight
    /// `t` for this frame: `displayed += (target - displayed) * t`. The
    /// embedding derives `t` from the elapsed time as
    /// `1 - e^(-smoothness * dt)`; when the smoothness is zero the camera
    /// snaps to the target regardless of `t`. Returns `false`, and leaves
    /// the controller unchanged, when the exact result is not
    /// representable.
    pub fn update(&mut self, t: Rat) -> (r: bool)
        requires
            controller_wf(*old(self)),
            rat_small(t),
            q_le(q_int(0), t@),
            q_le(t@, q_int(1)),
        ensures
            r <==> (match blend_axis_stored(
                old(self).camera.scale@,
                old(self).target_scale@,
                if q_eq(old(self).zoom_smoothness@, q_int(0)) {
                    q_int(1)
                } else {
                    t@
                },
            ) {
                Some(ns) => ns.n > 0,
                None => false,
            }) && blend_axis_stored(
                old(self).camera.center.x@,
                old(self).target_center.x@,
                if q_eq(old(self).zoom_smoothness@, q_int(0)) {
                    q_int(1)
                } else {
                    t@
                },
            ) is Some && blend_axis_stored(
                old(self).camera.center.y@,
                old(self).target_center.y@,
                if q_eq(old(self).zoom_smoothness@, q_int(0)) {
                    q_int(1)
                } else {
                    t@
                },
            ) is Some,
            r ==> {
                &&& q_eq(
                    final(self).camera.scale@,
                    blend_axis(
                        old(self).camera.scale@,
                        old(self).target_scale@,
                        if q_eq(old(self).zoom_smoothness@, q_int(0)) {
                            q_int(1)
                        } else {
                            t@
                        },
                    ),
                )
                &&& q_eq(
                    final(self).camera.center.x@,
                    blend_axis(
                        old(self).camera.center.x@,
                        old(self).target_center.x@,
                        if q_eq(old(self).zoom_smoothness@, q_int(0)) {
                            q_int(1)
                        } else {
                            t@
                        },
                    ),
                )
                &&& q_eq(
                    final(self).camera.center.y@,
                    blend_axis(
                        old(self).camera.center.y@,
                        old(self).target_center.y@,
                        if q_eq(old(self).zoom_smoothness@, q_int(0)) {
                            q_int(1)
                        } else {
                            t@
                        },
                    ),
                )
                &&& final(self).camera.screen_size == old(self).camera.screen_size
                &&& final(self).target_scale == old(self).target_scale
                &&& final(self).target_center == old(self).target_center
                &&& final(self).is_dragging == old(self).is_dragging
                &&& final(self).last_cursor_pos == old(self).last_cursor_pos
                &&& final(self).zoom_sensitivity == old(self).zoom_sensitivity
                &&& final(self).zoom_smoothness == old(self).zoom_smoothness
                &&& controller_wf(*final(self))
            },
            !r ==> *final(self) == *old(self),
    {
        let te = if self.zoom_smoothness.is_zero() {
            Rat::one()
        } else {
            t
        };
        let ns = match blend_axis_exec(self.camera.scale, self.target_scale, te) {
            Some(v) => v,
            None => return false,
        };
        if !ns.is_positive() {
            return false;
        }
        let ncx = match blend_axis_exec(self.camera.center.x, self.target_center.x, te) {
            Some(v) => v,
            None => return false,
        };
        let ncy = match blend_axis_exec(self.camera.center.y, self.target_center.y, te) {
            Some(v) => v,
            None => return false,
        };
        self.camera.scale = ns;
        self.camera.center = Vec2 { x: ncx, y: ncy };
        true
    }

    /// Get a reference to the underlying camera.
    pub fn camera(&self) -> (r: &Camera2D)
        ensures
            *r == self.camera,
    {
        &self.camera
    }

    /// Get a mutable reference to the underlying camera.
    pub fn camera_mut(&mut self) -> (r: &mut Camera2D)
        ensures
            *r == old(self).camera,
            final(self).camera == *final(r),
            final(self).target_scale == old(self).target_scale,
            final(self).target_center == old(self).target_center,
            final(self).is_dragging == old(self).is_dragging,
            final(self).last_cursor_pos == old(self).last_cursor_pos,
            final(self).zoom_sensitivity == old(self).zoom_sensitivity,
            final(self).zoom_smoothness == old(self).zoom_smoothness,
    {
        &mut self.camera
    }
}

/// One axis of the smoothing step: `current + (target - current) * t`.
fn blend_axis_exec(current: Rat, target: Rat, t: Rat) -> (r: Option<Rat>)
    requires
        rat_small(current),
        rat_small(target),
        rat_small(t),
    ensures
        r matches Some(v) ==> q_eq(v@, blend_axis(current@, target@, t@)) && rat_small(v)
            && blend_axis_stored(current@, target@, t@) == Some(v@),
        r is None ==> blend_axis_stored(current@, target@, t@) is None,
{
    let d = match target.checked_sub(current) {
        Some(v) => v,
        None => return None,
    };
    let m = match d.checked_mul(t) {
        Some(v) => v,
        None => return None,
    };
    let res = match current.checked_add(m) {
        Some(v) => v,
        None => return None,
    };
    proof {
        broadcast use vstd::arithmetic::mul::lemma_mul_nonzero;

        lemma_q_mul_congr(d@, q_sub(target@, current@), t@);
        lemma_q_eq_trans(m@, q_mul(d@, t@), q_mul(q_sub(target@, current@), t@));
        lemma_q_add_congr_right(current@, m@, q_mul(q_sub(target@, current@), t@));
        lemma_q_eq_trans(
            res@,
            q_add(current@, m@),
            q_add(current@, q_mul(q_sub(target@, current@), t@)),
        );
    }
    Some(res)
}

} // verus!
