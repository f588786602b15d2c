//! Continuous-collision resolution for axis-aligned boxes.
//!
//! For every ordered (player, block) pair the resolver computes the
//! time of impact `t` of the pair's swept motion over one tick, as an
//! exact rational `num / den` clamped into `[0, 1]`:
//!
//! * `t > 0`: both velocities are truncated to the fraction `t`, so the
//!   pair stops exactly at first contact (division toward zero can only
//!   stop it short, never past the contact point);
//! * `t == 0` (already touching or overlapping): an axis-snapped contact
//!   normal is taken from the rounded direction between the two box
//!   centers at minimum separation, within a narrow contact tolerance;
//!   a velocity component opposing the normal is zeroed, and a vertical
//!   block additionally damps the horizontal component by a tenth
//!   (landing friction). With no normal within tolerance the candidate
//!   velocity is zero.
//!
//! Since one entity may collide with several partners in a tick, each
//! entity keeps only the minimum-magnitude candidate velocity over all
//! its pairs (squared length, first recorded wins ties).

use vstd::prelude::*;
use crate::components::Player;
use crate::math::{
    len2, len2_spec, lemma_mul_bounds, scale_v2, scaled_spec, scaled_v2_spec, V2, WORLD_LIMIT,
};

verus! {

/// Two boxes count as in contact while their distance is at most this
/// (three world units).
pub const CONTACT_TOL: i64 = 300;

/// `a/b <= c/d` for rationals with nonnegative denominators, compared by
/// cross multiplication.
pub open spec fn rat_le(an: int, ad: int, bn: int, bd: int) -> bool {
    an * bd <= bn * ad
}

/// Entry time of one axis sweep: the separating gap over the approach
/// speed, or zero when the intervals already overlap.
pub open spec fn axis_enter(gr: int, gl: int, w: int) -> (int, int) {
    if gr > 0 {
        (gr, w)
    } else if gl > 0 {
        (gl, -w)
    } else {
        (0int, 1int)
    }
}

/// Exit time of one axis sweep; a zero denominator stands for "never".
pub open spec fn axis_exit(gr: int, gl: int, ssum: int, w: int) -> (int, int) {
    if w > 0 {
        (gr + ssum, w)
    } else if w < 0 {
        (gl + ssum, -w)
    } else {
        (0int, 0int)
    }
}

/// Time of impact of the swept motion of box `(p1, s1)` under `v1`
/// against box `(p2, s2)` under `v2`, over one tick, as a rational
/// `(num, den)` with `0 <= num <= den`, `den >= 1`. The result is `(0, 1)`
/// exactly when the boxes already touch or overlap, `(1, 1)` when no
/// impact happens within the tick, and otherwise the first contact time:
/// the largest per-axis entry time, provided it does not exceed either
/// axis exit time.
pub open spec fn spec_toi(p1: V2, s1: V2, v1: V2, p2: V2, s2: V2, v2: V2) -> (int, int) {
    let wx = v1.x - v2.x;
    let wy = v1.y - v2.y;
    let grx = p2.x - p1.x - s1.x;
    let glx = p1.x - p2.x - s2.x;
    let gry = p2.y - p1.y - s1.y;
    let gly = p1.y - p2.y - s2.y;
    if grx <= 0 && glx <= 0 && gry <= 0 && gly <= 0 {
        (0int, 1int)
    } else if (grx > 0 && wx <= 0) || (glx > 0 && wx >= 0) || (gry > 0 && wy <= 0) || (gly > 0
        && wy >= 0) {
        (1int, 1int)
    } else {
        let ex = axis_enter(grx, glx, wx);
        let ey = axis_enter(gry, gly, wy);
        let xx = axis_exit(grx, glx, s1.x + s2.x, wx);
        let xy = axis_exit(gry, gly, s1.y + s2.y, wy);
        let en = if rat_le(ex.0, ex.1, ey.0, ey.1) {
            ey
        } else {
            ex
        };
        let ok_x = xx.1 == 0 || rat_le(en.0, en.1, xx.0, xx.1);
        let ok_y = xy.1 == 0 || rat_le(en.0, en.1, xy.0, xy.1);
        if !ok_x || !ok_y {
            (1int, 1int)
        } else if en.0 >= en.1 {
            (1int, 1int)
        } else {
            en
        }
    }
}

/// Axis-snapped contact normal from box 1 toward box 2, or `None` when
/// the boxes are farther apart than the contact tolerance. For touching
/// or overlapping boxes the normal lies on the axis of least
/// penetration, pointing toward box 2's center; for separated boxes each
/// component is the rounded component of the unit vector along the gap
/// (a component rounds to one exactly when it is at least half the
/// distance).
pub open spec fn spec_normal(p1: V2, s1: V2, p2: V2, s2: V2) -> Option<V2> {
    let grx = p2.x - p1.x - s1.x;
    let glx = p1.x - p2.x - s2.x;
    let gry = p2.y - p1.y - s1.y;
    let gly = p1.y - p2.y - s2.y;
    let sepx = if grx >= glx {
        grx
    } else {
        glx
    };
    let sepy = if gry >= gly {
        gry
    } else {
        gly
    };
    if sepx <= 0 && sepy <= 0 {
        if sepx >= sepy {
            Some(
                V2 {
                    x: if 2 * p2.x + s2.x >= 2 * p1.x + s1.x {
                        1i64
                    } else {
                        -1i64
                    },
                    y: 0,
                },
            )
        } else {
            Some(
                V2 {
                    x: 0,
                    y: if 2 * p2.y + s2.y >= 2 * p1.y + s1.y {
                        1i64
                    } else {
                        -1i64
                    },
                },
            )
        }
    } else {
        let gx = if sepx > 0 {
            sepx
        } else {
            0int
        };
        let gy = if sepy > 0 {
            sepy
        } else {
            0int
        };
        let gx2 = gx * gx;
        let gy2 = gy * gy;
        let d2 = gx2 + gy2;
        if d2 > CONTACT_TOL * CONTACT_TOL {
            None
        } else {
            let sx: i64 = if grx > 0 {
                1i64
            } else {
                -1i64
            };
            let sy: i64 = if gry > 0 {
                1i64
            } else {
                -1i64
            };
            Some(
                V2 {
                    x: if gx > 0 && 4 * gx2 >= d2 {
                        sx
                    } else {
                        0i64
                    },
                    y: if gy > 0 && 4 * gy2 >= d2 {
                        sy
                    } else {
                        0i64
                    },
                },
            )
        }
    }
}

/// Post-impact velocity of a body already in contact: the component
/// opposing the contact normal is zeroed; contact along the vertical
/// axis also damps the horizontal component by a tenth. With no normal
/// within tolerance the velocity collapses to zero.
pub open spec fn spec_cease(p1: V2, s1: V2, v1: V2, p2: V2, s2: V2) -> V2 {
    match spec_normal(p1, s1, p2, s2) {
        Some(n) => {
            let vx = if n.x * v1.x > 0 {
                0i64
            } else {
                v1.x
            };
            if n.y * v1.y > 0 {
                V2 { x: scaled_spec(vx as int, 9, 10) as i64, y: 0 }
            } else {
                V2 { x: vx, y: v1.y }
            }
        },
        None => V2 { x: 0, y: 0 },
    }
}

/// Candidate velocities of one (player, block) pair: truncated motion
/// when first contact lies strictly inside the tick, resting-contact
/// resolution when the pair already touches.
pub open spec fn spec_pair(p1: V2, s1: V2, v1: V2, p2: V2, s2: V2, v2: V2) -> (V2, V2) {
    let t = spec_toi(p1, s1, v1, p2, s2, v2);
    if t.0 == 0 {
        (spec_cease(p1, s1, v1, p2, s2), spec_cease(p2, s2, v2, p1, s1))
    } else {
        (scaled_v2_spec(v1, t.0, t.1), scaled_v2_spec(v2, t.0, t.1))
    }
}

/// The smaller of two candidate velocities by squared length; the first
/// argument (the earlier recorded candidate) wins ties.
pub open spec fn spec_vel_min(a: V2, b: V2) -> V2 {
    if len2_spec(b) < len2_spec(a) {
        b
    } else {
        a
    }
}

/// Compare `an/ad <= bn/bd` by cross multiplication.
fn rat_le_exec(an: i64, ad: i64, bn: i64, bd: i64) -> (r: bool)
    requires
        -8 * WORLD_LIMIT <= an <= 8 * WORLD_LIMIT,
        0 <= ad <= 8 * WORLD_LIMIT,
        -8 * WORLD_LIMIT <= bn <= 8 * WORLD_LIMIT,
        0 <= bd <= 8 * WORLD_LIMIT,
    ensures
        r == rat_le(an as int, ad as int, bn as int, bd as int),
{
    proof {
        assert(8 * WORLD_LIMIT == 8_000_000int);
        lemma_mul_bounds(an as int, bd as int, 8_000_000, 8_000_000);
        lemma_mul_bounds(bn as int, ad as int, 8_000_000, 8_000_000);
    }
    an * bd <= bn * ad
}

/// Time of impact of two swept boxes over one tick, as `(num, den)`.
pub fn toi(p1: V2, s1: V2, v1: V2, p2: V2, s2: V2, v2: V2) -> (r: (i64, i64))
    requires
        p1.wf(),
        s1.wf(),
        v1.wf(),
        p2.wf(),
        s2.wf(),
        v2.wf(),
    ensures
        (r.0 as int, r.1 as int) == spec_toi(p1, s1, v1, p2, s2, v2),
        0 <= r.0 <= r.1,
        1 <= r.1 <= 8 * WORLD_LIMIT,
{
    let wx = v1.x - v2.x;
    let wy = v1.y - v2.y;
    let grx = p2.x - p1.x - s1.x;
    let glx = p1.x - p2.x - s2.x;
    let gry = p2.y - p1.y - s1.y;
    let gly = p1.y - p2.y - s2.y;
    if grx <= 0 && glx <= 0 && gry <= 0 && gly <= 0 {
        (0, 1)
    } else if (grx > 0 && wx <= 0) || (glx > 0 && wx >= 0) || (gry > 0 && wy <= 0) || (gly > 0
        && wy >= 0) {
        (1, 1)
    } else {
        let (enx, edx) = if grx > 0 {
            (grx, wx)
        } else if glx > 0 {
            (glx, -wx)
        } else {
            (0i64, 1i64)
        };
        let (eny, edy) = if gry > 0 {
            (gry, wy)
        } else if gly > 0 {
            (gly, -wy)
        } else {
            (0i64, 1i64)
        };
        let sxs = s1.x + s2.x;
        let sys = s1.y + s2.y;
        let (xxn, xxd) = if wx > 0 {
            (grx + sxs, wx)
        } else if wx < 0 {
            (glx + sxs, -wx)
        } else {
            (0i64, 0i64)
        };
        let (xyn, xyd) = if wy > 0 {
            (gry + sys, wy)
        } else if wy < 0 {
            (gly + sys, -wy)
        } else {
            (0i64, 0i64)
        };
        let (en_n, en_d) = if rat_le_exec(enx, edx, eny, edy) {
            (eny, edy)
        } else {
            (enx, edx)
        };
        let ok_x = xxd == 0 || rat_le_exec(en_n, en_d, xxn, xxd);
        let ok_y = xyd == 0 || rat_le_exec(en_n, en_d, xyn, xyd);
        if !ok_x || !ok_y {
            (1, 1)
        } else if en_n >= en_d {
            (1, 1)
        } else {
            (en_n, en_d)
        }
    }
}

/// Axis-snapped contact normal from box 1 toward box 2 within the
/// contact tolerance.
pub fn normal(p1: V2, s1: V2, p2: V2, s2: V2) -> (r: Option<V2>)
    requires
        p1.wf(),
        s1.wf(),
        p2.wf(),
        s2.wf(),
    ensures
        r == spec_normal(p1, s1, p2, s2),
        r matches Some(n) ==> -1 <= n.x <= 1 && -1 <= n.y <= 1,
{
    let grx = p2.x - p1.x - s1.x;
    let glx = p1.x - p2.x - s2.x;
    let gry = p2.y - p1.y - s1.y;
    let gly = p1.y - p2.y - s2.y;
    let sepx = if grx >= glx {
        grx
    } else {
        glx
    };
    let sepy = if gry >= gly {
        gry
    } else {
        gly
    };
    if sepx <= 0 && sepy <= 0 {
        if sepx >= sepy {
            Some(
                V2 {
                    x: if 2 * p2.x + s2.x >= 2 * p1.x + s1.x {
                        1
                    } else {
                        -1
                    },
                    y: 0,
                },
            )
        } else {
            Some(
                V2 {
                    x: 0,
                    y: if 2 * p2.y + s2.y >= 2 * p1.y + s1.y {
                        1
                    } else {
                        -1
                    },
                },
            )
        }
    } else {
        let gx = if sepx > 0 {
            sepx
        } else {
            0
        };
        let gy = if sepy > 0 {
            sepy
        } else {
            0
        };
        proof {
            assert(4 * WORLD_LIMIT == 4_000_000int);
            lemma_mul_bounds(gx as int, gx as int, 4_000_000, 4_000_000);
            lemma_mul_bounds(gy as int, gy as int, 4_000_000, 4_000_000);
        }
        let gx2 = gx * gx;
        let gy2 = gy * gy;
        let d2 = gx2 + gy2;
        if d2 > CONTACT_TOL * CONTACT_TOL {
            None
        } else {
            let sx: i64 = if grx > 0 {
                1
            } else {
                -1
            };
            let sy: i64 = if gry > 0 {
                1
            } else {
                -1
            };
            let nx: i64 = if gx > 0 && 4 * gx2 >= d2 {
                sx
            } else {
                0
            };
            let ny: i64 = if gy > 0 && 4 * gy2 >= d2 {
                sy
            } else {
                0
            };
            Some(V2 { x: nx, y: ny })
        }
    }
}

/// Post-impact velocity of a body already in contact with a partner.
pub fn cease_vel(p1: V2, s1: V2, v1: V2, p2: V2, s2: V2) -> (r: V2)
    requires
        p1.wf(),
        s1.wf(),
        v1.wf(),
        p2.wf(),
        s2.wf(),
    ensures
        r == spec_cease(p1, s1, v1, p2, s2),
        r.wf(),
    {
    match normal(p1, s1, p2, s2) {
        Some(n) => {
            let mut v = v1;
            proof {
                lemma_mul_bounds(n.x as int, v1.x as int, 1, WORLD_LIMIT as int);
                lemma_mul_bounds(n.y as int, v1.y as int, 1, WORLD_LIMIT as int);
            }
            if n.x * v.x > 0 {
                v.x = 0;
            }
            if n.y * v.y > 0 {
                v.x = crate::math::scale1(v.x, 9, 10);
                v.y = 0;
            }
            v
        },
        None => V2 { x: 0, y: 0 },
    }
}

/// Candidate velocities of one ordered (player, block) pair.
pub fn pair_vel(p1: V2, s1: V2, v1: V2, p2: V2, s2: V2, v2: V2) -> (r: (V2, V2))
    requires
        p1.wf(),
        s1.wf(),
        v1.wf(),
        p2.wf(),
        s2.wf(),
        v2.wf(),
    ensures
        r == spec_pair(p1, s1, v1, p2, s2, v2),
        r.0.wf(),
        r.1.wf(),
{
    let t = toi(p1, s1, v1, p2, s2, v2);
    if t.0 == 0 {
        (cease_vel(p1, s1, v1, p2, s2), cease_vel(p2, s2, v2, p1, s1))
    } else {
        (scale_v2(v1, t.0, t.1), scale_v2(v2, t.0, t.1))
    }
}

/// The smaller candidate by squared length (the first wins ties).
pub fn vel_min(a: V2, b: V2) -> (r: V2)
    requires
        a.wf(),
        b.wf(),
    ensures
        r == spec_vel_min(a, b),
        r.wf(),
{
    if len2(b) < len2(a) {
        b
    } else {
        a
    }
}

/// The component data the resolver reads: the parallel component
/// columns of the world, frozen at the start of the collide step.
pub struct ColliderView {
    pub pos: Seq<Option<V2>>,
    pub size: Seq<Option<V2>>,
    pub vel: Seq<Option<V2>>,
    pub player: Seq<Option<Player>>,
    pub block: Seq<bool>,
}

/// Entity `i` takes part in collision as a player.
pub open spec fn player_at(c: ColliderView, i: int) -> bool {
    &&& 0 <= i < c.pos.len()
    &&& c.player[i] is Some
    &&& c.pos[i] is Some
    &&& c.size[i] is Some
    &&& c.vel[i] is Some
}

/// Entity `j` takes part in collision as a terrain block.
pub open spec fn block_at(c: ColliderView, j: int) -> bool {
    &&& 0 <= j < c.pos.len()
    &&& c.block[j]
    &&& c.pos[j] is Some
    &&& c.size[j] is Some
    &&& c.vel[j] is Some
}

/// Candidate velocities of the pair (player `i`, block `j`).
pub open spec fn cand_pair(c: ColliderView, i: int, j: int) -> (V2, V2) {
    spec_pair(
        c.pos[i].unwrap(),
        c.size[i].unwrap(),
        c.vel[i].unwrap(),
        c.pos[j].unwrap(),
        c.size[j].unwrap(),
        c.vel[j].unwrap(),
    )
}

/// Minimum-magnitude candidate of player `i` over the blocks below
/// `upto`, in block order.
pub open spec fn player_fold(c: ColliderView, i: int, upto: int) -> Option<V2>
    decreases upto,
{
    if upto <= 0 {
        None
    } else {
        let prev = player_fold(c, i, upto - 1);
        if block_at(c, upto - 1) {
            let cand = cand_pair(c, i, upto - 1).0;
            match prev {
                None => Some(cand),
                Some(a) => Some(spec_vel_min(a, cand)),
            }
        } else {
            prev
        }
    }
}

/// Minimum-magnitude candidate of block `j` over the players below
/// `upto`, in player order.
pub open spec fn block_fold(c: ColliderView, j: int, upto: int) -> Option<V2>
    decreases upto,
{
    if upto <= 0 {
        None
    } else {
        let prev = block_fold(c, j, upto - 1);
        if player_at(c, upto - 1) {
            let cand = cand_pair(c, upto - 1, j).1;
            match prev {
                None => Some(cand),
                Some(a) => Some(spec_vel_min(a, cand)),
            }
        } else {
            prev
        }
    }
}

/// Velocity of entity `i` after the collide step: the accumulated
/// minimal candidate where the entity took part in at least one pair,
/// its old velocity otherwise.
pub open spec fn collide_vel_at(c: ColliderView, i: int) -> Option<V2> {
    let n = c.pos.len() as int;
    if player_at(c, i) && player_fold(c, i, n) is Some {
        player_fold(c, i, n)
    } else if block_at(c, i) && block_fold(c, i, n) is Some {
        block_fold(c, i, n)
    } else {
        c.vel[i]
    }
}

/// The whole velocity column after the collide step.
pub open spec fn collide_all(c: ColliderView) -> Seq<Option<V2>> {
    Seq::new(c.pos.len(), |i: int| collide_vel_at(c, i))
}

/// A stretch of entities with no block in it adds no candidate.
pub proof fn lemma_player_fold_skip(c: ColliderView, i: int, lo: int, hi: int)
    requires
        0 <= lo <= hi,
        forall|k: int| lo <= k < hi ==> !block_at(c, k),
    ensures
        player_fold(c, i, hi) == player_fold(c, i, lo),
    decreases hi - lo,
{
    if hi > lo {
        lemma_player_fold_skip(c, i, lo, hi - 1);
    }
}

/// Minimal-adjustment accumulation: a player whose only collision
/// partners are two blocks ends the collide step with exactly the
/// smaller-magnitude of its two candidate velocities (the earlier
/// block's candidate wins ties), never a combination of both.
pub proof fn lemma_min_accumulation(c: ColliderView, i: int, j1: int, j2: int)
    requires
        player_at(c, i),
        block_at(c, j1),
        block_at(c, j2),
        0 <= j1 < j2 < c.pos.len(),
        forall|k: int| 0 <= k < c.pos.len() && #[trigger] block_at(c, k) ==> k == j1 || k == j2,
    ensures
        collide_vel_at(c, i) == Some(
            spec_vel_min(cand_pair(c, i, j1).0, cand_pair(c, i, j2).0),
        ),
{
    let n = c.pos.len() as int;
    lemma_player_fold_skip(c, i, 0, j1);
    assert(player_fold(c, i, j1 + 1) == Some(cand_pair(c, i, j1).0));
    lemma_player_fold_skip(c, i, j1 + 1, j2);
    assert(player_fold(c, i, j2 + 1) == Some(
        spec_vel_min(cand_pair(c, i, j1).0, cand_pair(c, i, j2).0),
    ));
    lemma_player_fold_skip(c, i, j2 + 1, n);
}

} // verus!
