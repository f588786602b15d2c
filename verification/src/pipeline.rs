//! The fixed per-tick system pipeline.
//!
//! A tick runs, in order: input application, velocity integration,
//! collision resolution, position integration, the out-of-bounds hook,
//! and finally the flush of the deferred-creation queue. No step
//! re-enters an earlier step, and each step's effect is stated exactly
//! over the world's component columns.

use vstd::prelude::*;
use crate::codec::spec_encode;
use crate::collide::{
    block_at, block_fold, collide_all, collide_vel_at, pair_vel, player_at, player_fold, vel_min,
    ColliderView,
};
use crate::components::{
    Action, Bullet, Dir, Player, SendAction, Terrain, User, BULLET_LEFT_OFFSET, BULLET_SIZE,
    BULLET_VEL, CLASS_CHIBA, JUMP_VEL, WALK_VEL,
};
use crate::math::{sat_add_v2, sat_add_v2_spec, V2};
use crate::message::{Message, MessageModel};
use crate::transport::{send_message, Mailbox};
use crate::world::{EntityDef, World, GRAVITY_Y, PLAYER_HEIGHT, PLAYER_WIDTH};

verus! {

/// Velocity column after one Euler step: `Vel += Acc` wherever both
/// components exist, saturating at the world bound.
pub open spec fn integrate_vel_all(vel: Seq<Option<V2>>, acc: Seq<Option<V2>>) -> Seq<
    Option<V2>,
> {
    Seq::new(
        vel.len(),
        |i: int|
            if vel[i] is Some && acc[i] is Some {
                Some(sat_add_v2_spec(vel[i].unwrap(), acc[i].unwrap()))
            } else {
                vel[i]
            },
    )
}

/// Position column after one Euler step: `Pos += Vel` wherever both
/// components exist, saturating at the world bound.
pub open spec fn integrate_pos_all(pos: Seq<Option<V2>>, vel: Seq<Option<V2>>) -> Seq<
    Option<V2>,
> {
    Seq::new(
        pos.len(),
        |i: int|
            if pos[i] is Some && vel[i] is Some {
                Some(sat_add_v2_spec(pos[i].unwrap(), vel[i].unwrap()))
            } else {
                pos[i]
            },
    )
}

/// Euler velocity integration over the whole world.
pub fn update_vel_step(w: &mut World)
    requires
        old(w).wf(),
    ensures
        final(w).wf(),
        final(w).vel@ == integrate_vel_all(old(w).vel@, old(w).acc@),
        *final(w) == (World { vel: final(w).vel, ..*old(w) }),
{
    let n = w.vel.len();
    let mut i: usize = 0;
    while i < n
        invariant
            old(w).wf(),
            n == w.vel@.len(),
            n == old(w).n(),
            0 <= i <= n,
            *w == (World { vel: w.vel, ..*old(w) }),
            w.vel@.len() == old(w).vel@.len(),
            forall|k: int| 0 <= k < i ==> w.vel@[k] == integrate_vel_all(
                old(w).vel@,
                old(w).acc@,
            )[k],
            forall|k: int| i <= k < n ==> w.vel@[k] == old(w).vel@[k],
        decreases n - i,
    {
        proof {
            assert(old(w).def_at(i as int).wf());
        }
        if w.vel[i].is_some() && w.acc[i].is_some() {
            let v = w.vel[i].unwrap();
            let a = w.acc[i].unwrap();
            let nv = sat_add_v2(v, a);
            w.vel[i] = Some(nv);
        }
        i = i + 1;
    }
    proof {
        assert(w.vel@ =~= integrate_vel_all(old(w).vel@, old(w).acc@));
        assert forall|k: int| 0 <= k < w.n() implies w.def_at(k).wf() by {
            assert(old(w).def_at(k).wf());
        }
    }
}

/// Euler position integration over the whole world.
pub fn update_pos_step(w: &mut World)
    requires
        old(w).wf(),
    ensures
        final(w).wf(),
        final(w).pos@ == integrate_pos_all(old(w).pos@, old(w).vel@),
        *final(w) == (World { pos: final(w).pos, ..*old(w) }),
{
    let n = w.pos.len();
    let mut i: usize = 0;
    while i < n
        invariant
            old(w).wf(),
            n == w.pos@.len(),
            n == old(w).n(),
            0 <= i <= n,
            *w == (World { pos: w.pos, ..*old(w) }),
            w.pos@.len() == old(w).pos@.len(),
            forall|k: int| 0 <= k < i ==> w.pos@[k] == integrate_pos_all(
                old(w).pos@,
                old(w).vel@,
            )[k],
            forall|k: int| i <= k < n ==> w.pos@[k] == old(w).pos@[k],
        decreases n - i,
    {
        proof {
            assert(old(w).def_at(i as int).wf());
        }
        if w.pos[i].is_some() && w.vel[i].is_some() {
            let p = w.pos[i].unwrap();
            let v = w.vel[i].unwrap();
            let np = sat_add_v2(p, v);
            w.pos[i] = Some(np);
        }
        i = i + 1;
    }
    proof {
        assert(w.pos@ =~= integrate_pos_all(old(w).pos@, old(w).vel@));
        assert forall|k: int| 0 <= k < w.n() implies w.def_at(k).wf() by {
            assert(old(w).def_at(k).wf());
        }
    }
}

/// The out-of-bounds step: intended to delete entities that left the
/// playable bounds. No bounds policy is defined yet, so this is an
/// explicit extension point that changes nothing.
pub fn out_of_bound_step(w: &mut World)
    ensures
        *final(w) == *old(w),
{
}

/// The positions of all placed entities, in entity order: the
/// diagnostic snapshot the trace step emits before and after a tick.
pub open spec fn snapshot_spec(pos: Seq<Option<V2>>, upto: int) -> Seq<(usize, V2)>
    decreases upto,
{
    if upto <= 0 {
        Seq::empty()
    } else {
        let prev = snapshot_spec(pos, upto - 1);
        if pos[upto - 1] is Some {
            prev.push((((upto - 1) as usize), pos[upto - 1].unwrap()))
        } else {
            prev
        }
    }
}

/// Read-only diagnostic dump of every entity's position.
pub fn positions_snapshot(w: &World) -> (r: Vec<(usize, V2)>)
    ensures
        r@ == snapshot_spec(w.pos@, w.n()),
{
    let n = w.pos.len();
    let mut r: Vec<(usize, V2)> = Vec::new();
    let mut i: usize = 0;
    while i < n
        invariant
            n == w.pos@.len(),
            0 <= i <= n,
            r@ == snapshot_spec(w.pos@, i as int),
        decreases n - i,
    {
        if w.pos[i].is_some() {
            r.push((i, w.pos[i].unwrap()));
        }
        i = i + 1;
    }
    r
}

/// The component columns the collision resolver reads, frozen at the
/// start of the collide step.
pub open spec fn collider_of(w: World) -> ColliderView {
    ColliderView { pos: w.pos@, size: w.size@, vel: w.vel@, player: w.player@, block: w.block@ }
}

/// Candidate accumulated for entity `k` once the outer sweep has
/// finished the player rows below `i`.
spec fn outer_cand(c: ColliderView, k: int, i: int) -> Option<V2> {
    if player_at(c, k) {
        if k < i {
            player_fold(c, k, c.pos.len() as int)
        } else {
            None
        }
    } else if block_at(c, k) {
        block_fold(c, k, i)
    } else {
        None
    }
}

/// Candidate accumulated for entity `k` while player row `i` has
/// processed the blocks below `j`.
spec fn inner_cand(c: ColliderView, k: int, i: int, j: int) -> Option<V2> {
    if player_at(c, k) {
        if k < i {
            player_fold(c, k, c.pos.len() as int)
        } else if k == i {
            player_fold(c, i, j)
        } else {
            None
        }
    } else if block_at(c, k) {
        if k < j {
            block_fold(c, k, i + 1)
        } else {
            block_fold(c, k, i)
        }
    } else {
        None
    }
}

/// Collision resolution: every player is swept against every block;
/// each entity of a pair ends the step with the minimum-magnitude
/// candidate velocity over all its pairs, every other entity keeps its
/// velocity.
pub fn collide_step(w: &mut World)
    requires
        old(w).wf(),
    ensures
        final(w).wf(),
        final(w).vel@ == collide_all(collider_of(*old(w))),
        final(w).pos@ == old(w).pos@,
        final(w).acc@ == old(w).acc@,
        final(w).size@ == old(w).size@,
        final(w).dir@ == old(w).dir@,
        final(w).player@ == old(w).player@,
        final(w).bullet@ == old(w).bullet@,
        final(w).block@ == old(w).block@,
        final(w).enemy@ == old(w).enemy@,
        final(w).landmark@ == old(w).landmark@,
        final(w).gun@ == old(w).gun@,
        final(w).action == old(w).action,
        final(w).user == old(w).user,
        final(w).pending@ == old(w).pending@,
{
    let ghost c = collider_of(*w);
    let n = w.pos.len();
    let mut cand: Vec<Option<V2>> = Vec::new();
    while cand.len() < n
        invariant
            cand@.len() <= n,
            forall|k: int| 0 <= k < cand@.len() ==> cand@[k] is None,
        decreases n - cand@.len(),
    {
        cand.push(None);
    }
    let mut i: usize = 0;
    while i < n
        invariant
            *w == *old(w),
            old(w).wf(),
            c == collider_of(*old(w)),
            n == w.pos@.len(),
            cand@.len() == n,
            0 <= i <= n,
            forall|k: int| 0 <= k < n ==> cand@[k] == outer_cand(c, k, i as int),
            forall|k: int| 0 <= k < n ==> (#[trigger] cand@[k] matches Some(v) ==> v.wf()),
        decreases n - i,
    {
        let is_player = w.player[i].is_some() && w.pos[i].is_some() && w.size[i].is_some()
            && w.vel[i].is_some();
        if is_player {
            proof {
                assert(old(w).def_at(i as int).wf());
            }
            let p1 = w.pos[i].unwrap();
            let s1 = w.size[i].unwrap();
            let v1 = w.vel[i].unwrap();
            let mut j: usize = 0;
            while j < n
                invariant
                    *w == *old(w),
                    old(w).wf(),
                    c == collider_of(*old(w)),
                    n == w.pos@.len(),
                    cand@.len() == n,
                    0 <= j <= n,
                    i < n,
                    player_at(c, i as int),
                    p1 == c.pos[i as int].unwrap(),
                    s1 == c.size[i as int].unwrap(),
                    v1 == c.vel[i as int].unwrap(),
                    p1.wf(),
                    s1.wf(),
                    v1.wf(),
                    forall|k: int| 0 <= k < n ==> cand@[k] == inner_cand(
                        c,
                        k,
                        i as int,
                        j as int,
                    ),
                    forall|k: int| 0 <= k < n ==> (#[trigger] cand@[k] matches Some(v)
                        ==> v.wf()),
                decreases n - j,
            {
                let is_block = w.block[j] && w.pos[j].is_some() && w.size[j].is_some()
                    && w.vel[j].is_some();
                if is_block {
                    proof {
                        assert(old(w).def_at(j as int).wf());
                        assert(block_at(c, j as int));
                        assert(i != j);
                    }
                    let p2 = w.pos[j].unwrap();
                    let s2 = w.size[j].unwrap();
                    let v2 = w.vel[j].unwrap();
                    let pr = pair_vel(p1, s1, v1, p2, s2, v2);
                    let newi = match cand[i] {
                        None => pr.0,
                        Some(a) => vel_min(a, pr.0),
                    };
                    cand[i] = Some(newi);
                    let newj = match cand[j] {
                        None => pr.1,
                        Some(a) => vel_min(a, pr.1),
                    };
                    cand[j] = Some(newj);
                    proof {
                        assert forall|k: int| 0 <= k < n implies cand@[k] == inner_cand(
                            c,
                            k,
                            i as int,
                            j as int + 1,
                        ) by {
                            if k == i {
                                assert(player_fold(c, i as int, j as int + 1) == Some(newi));
                            } else if k == j {
                                assert(block_fold(c, j as int, i as int + 1) == Some(newj));
                            }
                        }
                    }
                } else {
                    proof {
                        assert(!block_at(c, j as int));
                        assert forall|k: int| 0 <= k < n implies cand@[k] == inner_cand(
                            c,
                            k,
                            i as int,
                            j as int + 1,
                        ) by {
                            if k == i {
                                assert(player_fold(c, i as int, j as int + 1) == player_fold(
                                    c,
                                    i as int,
                                    j as int,
                                ));
                            } else if k == j {
                                assert(inner_cand(c, k, i as int, j as int + 1) == inner_cand(
                                    c,
                                    k,
                                    i as int,
                                    j as int,
                                ));
                            }
                        }
                    }
                }
                j = j + 1;
            }
            proof {
                assert forall|k: int| 0 <= k < n implies cand@[k] == outer_cand(
                    c,
                    k,
                    i as int + 1,
                ) by {
                    assert(cand@[k] == inner_cand(c, k, i as int, n as int));
                }
            }
        } else {
            proof {
                assert(!player_at(c, i as int));
                assert forall|k: int| 0 <= k < n implies cand@[k] == outer_cand(
                    c,
                    k,
                    i as int + 1,
                ) by {
                    if block_at(c, k) {
                        assert(block_fold(c, k, i as int + 1) == block_fold(c, k, i as int));
                    }
                }
            }
        }
        i = i + 1;
    }
    let mut m: usize = 0;
    while m < n
        invariant
            old(w).wf(),
            c == collider_of(*old(w)),
            n == w.pos@.len(),
            cand@.len() == n,
            0 <= m <= n,
            w.pos@ == old(w).pos@,
            w.acc@ == old(w).acc@,
            w.size@ == old(w).size@,
            w.dir@ == old(w).dir@,
            w.player@ == old(w).player@,
            w.bullet@ == old(w).bullet@,
            w.block@ == old(w).block@,
            w.enemy@ == old(w).enemy@,
            w.landmark@ == old(w).landmark@,
            w.gun@ == old(w).gun@,
            w.action == old(w).action,
            w.user == old(w).user,
            w.pending@ == old(w).pending@,
            w.vel@.len() == n,
            forall|k: int| 0 <= k < n ==> cand@[k] == outer_cand(c, k, n as int),
            forall|k: int| 0 <= k < n ==> (#[trigger] cand@[k] matches Some(v) ==> v.wf()),
            forall|k: int| 0 <= k < m ==> w.vel@[k] == collide_vel_at(c, k),
            forall|k: int| m <= k < n ==> w.vel@[k] == old(w).vel@[k],
        decreases n - m,
    {
        if cand[m].is_some() {
            if w.vel[m].is_some() {
                let v = cand[m];
                w.vel[m] = v;
            }
        }
        proof {
            assert(old(w).def_at(m as int).wf());
            assert(cand@[m as int] == outer_cand(c, m as int, n as int));
            if player_at(c, m as int) {
                assert(!block_at(c, m as int));
            }
        }
        m = m + 1;
    }
    proof {
        assert(w.vel@ =~= collide_all(c));
        assert forall|k: int| 0 <= k < w.n() implies w.def_at(k).wf() by {
            assert(old(w).def_at(k).wf());
            if w.vel@[k] != old(w).vel@[k] {
                assert(cand@[k] matches Some(v) ==> v.wf());
            }
        }
    }
}

/// Entity `i` is a full input target: a player with position, size,
/// velocity, acceleration and facing.
pub open spec fn acts_on(w: World, i: int) -> bool {
    &&& 0 <= i < w.n()
    &&& w.player@[i] is Some
    &&& w.pos@[i] is Some
    &&& w.size@[i] is Some
    &&& w.vel@[i] is Some
    &&& w.acc@[i] is Some
    &&& w.dir@[i] is Some
}

/// Velocity after the action's movement flags: jump sets the vertical
/// speed, right and left set the horizontal speed, and left wins when
/// both are set.
pub open spec fn vel_after_input(a: Action, v: V2) -> V2 {
    let v1 = if a.jump {
        V2 { x: v.x, y: JUMP_VEL }
    } else {
        v
    };
    let v2 = if a.right {
        V2 { x: WALK_VEL, y: v1.y }
    } else {
        v1
    };
    if a.left {
        V2 { x: (-WALK_VEL) as i64, y: v2.y }
    } else {
        v2
    }
}

/// Facing after the action's movement flags (left wins over right).
pub open spec fn dir_after_input(a: Action, d: Dir) -> Dir {
    let d1 = if a.right {
        Dir { facing: 1 }
    } else {
        d
    };
    if a.left {
        Dir { facing: -1i64 }
    } else {
        d1
    }
}

/// The bullet spawned by a take: placed at the shooter's edge in the
/// facing direction (the shooter's width to the right, a fixed offset
/// to the left), moving horizontally at bullet speed with the facing
/// sign, with zero acceleration and a fixed square body.
pub open spec fn bullet_def_of(p: V2, s: V2, d: Dir) -> EntityDef {
    let off = if d.facing > 0 {
        s.x
    } else {
        BULLET_LEFT_OFFSET
    };
    EntityDef {
        pos: Some(sat_add_v2_spec(p, V2 { x: off, y: 0 })),
        vel: Some(V2 { x: (BULLET_VEL * d.facing) as i64, y: 0 }),
        acc: Some(V2 { x: 0, y: 0 }),
        size: Some(V2 { x: BULLET_SIZE, y: BULLET_SIZE }),
        dir: None,
        player: None,
        bullet: Some(Bullet { class: CLASS_CHIBA }),
        block: false,
        enemy: false,
        landmark: false,
        gun: false,
    }
}

/// The per-tick broadcast of player `i`: its post-input state together
/// with the raw action.
pub open spec fn send_of(w: World, i: int) -> SendAction {
    SendAction {
        player: w.player@[i].unwrap(),
        pos: w.pos@[i].unwrap(),
        vel: vel_after_input(w.action, w.vel@[i].unwrap()),
        acc: w.acc@[i].unwrap(),
        dir: dir_after_input(w.action, w.dir@[i].unwrap()),
        action: w.action,
    }
}

/// The bullets queued by the input step for the targets below `upto`,
/// in entity order.
pub open spec fn bullets_queued(w: World, upto: int) -> Seq<EntityDef>
    decreases upto,
{
    if upto <= 0 {
        Seq::empty()
    } else {
        let prev = bullets_queued(w, upto - 1);
        if acts_on(w, upto - 1) && w.action.update && w.action.take {
            prev.push(
                bullet_def_of(
                    w.pos@[upto - 1].unwrap(),
                    w.size@[upto - 1].unwrap(),
                    dir_after_input(w.action, w.dir@[upto - 1].unwrap()),
                ),
            )
        } else {
            prev
        }
    }
}

/// The frames the input step enqueues outbound for the targets below
/// `upto`, in entity order.
pub open spec fn frames_sent(w: World, upto: int) -> Seq<Seq<u8>>
    decreases upto,
{
    if upto <= 0 {
        Seq::empty()
    } else {
        let prev = frames_sent(w, upto - 1);
        if acts_on(w, upto - 1) && w.action.update {
            prev.push(spec_encode(MessageModel::PlayerState { state: send_of(w, upto - 1) }))
        } else {
            prev
        }
    }
}

/// The velocity column after the input step.
pub open spec fn vel_col_after_input(w: World) -> Seq<Option<V2>> {
    Seq::new(
        w.vel@.len(),
        |i: int|
            if acts_on(w, i) && w.action.update {
                Some(vel_after_input(w.action, w.vel@[i].unwrap()))
            } else {
                w.vel@[i]
            },
    )
}

/// The facing column after the input step.
pub open spec fn dir_col_after_input(w: World) -> Seq<Option<Dir>> {
    Seq::new(
        w.dir@.len(),
        |i: int|
            if acts_on(w, i) && w.action.update {
                Some(dir_after_input(w.action, w.dir@[i].unwrap()))
            } else {
                w.dir@[i]
            },
    )
}

/// The input step. If no input event occurred this tick, movement is
/// untouched; otherwise every input target gets the action's movement
/// applied and a take queues a bullet. Each acting target's post-input
/// state is encoded and enqueued on the outbound mailbox, in entity
/// order. The pending action is reset to inert unconditionally.
pub fn input_step(w: &mut World, outbox: &mut Mailbox)
    requires
        old(w).wf(),
    ensures
        final(w).wf(),
        final(w).action == Action::inert_spec(),
        final(w).vel@ == vel_col_after_input(*old(w)),
        final(w).dir@ == dir_col_after_input(*old(w)),
        final(w).pos@ == old(w).pos@,
        final(w).acc@ == old(w).acc@,
        final(w).size@ == old(w).size@,
        final(w).player@ == old(w).player@,
        final(w).bullet@ == old(w).bullet@,
        final(w).block@ == old(w).block@,
        final(w).enemy@ == old(w).enemy@,
        final(w).landmark@ == old(w).landmark@,
        final(w).gun@ == old(w).gun@,
        final(w).user == old(w).user,
        final(w).pending@ == old(w).pending@ + bullets_queued(*old(w), old(w).n()),
        final(outbox).contents() == old(outbox).contents() + frames_sent(
            *old(w),
            old(w).n(),
        ),
{
    let n = w.pos.len();
    let act = w.action;
    let mut i: usize = 0;
    while i < n
        invariant
            old(w).wf(),
            w.wf(),
            n == old(w).n(),
            act == old(w).action,
            w.action == old(w).action,
            0 <= i <= n,
            w.pos@ == old(w).pos@,
            w.acc@ == old(w).acc@,
            w.size@ == old(w).size@,
            w.player@ == old(w).player@,
            w.bullet@ == old(w).bullet@,
            w.block@ == old(w).block@,
            w.enemy@ == old(w).enemy@,
            w.landmark@ == old(w).landmark@,
            w.gun@ == old(w).gun@,
            w.user == old(w).user,
            w.vel@.len() == n,
            w.dir@.len() == n,
            forall|k: int| 0 <= k < i ==> w.vel@[k] == vel_col_after_input(*old(w))[k],
            forall|k: int| 0 <= k < i ==> w.dir@[k] == dir_col_after_input(*old(w))[k],
            forall|k: int| i <= k < n ==> w.vel@[k] == old(w).vel@[k],
            forall|k: int| i <= k < n ==> w.dir@[k] == old(w).dir@[k],
            w.pending@ == old(w).pending@ + bullets_queued(*old(w), i as int),
            outbox.contents() == old(outbox).contents() + frames_sent(*old(w), i as int),
        decreases n - i,
    {
        let is_target = w.player[i].is_some() && w.pos[i].is_some() && w.size[i].is_some()
            && w.vel[i].is_some() && w.acc[i].is_some() && w.dir[i].is_some();
        if is_target && act.update {
            proof {
                assert(old(w).def_at(i as int).wf());
                assert(acts_on(*old(w), i as int));
            }
            let ghost prev_w = *w;
            let v0 = w.vel[i].unwrap();
            let d0 = w.dir[i].unwrap();
            let mut v = v0;
            let mut d = d0;
            if act.jump {
                v.y = JUMP_VEL;
            }
            if act.right {
                v.x = WALK_VEL;
                d.facing = 1;
            }
            if act.left {
                v.x = -WALK_VEL;
                d.facing = -1;
            }
            proof {
                assert(v == vel_after_input(act, v0));
                assert(d == dir_after_input(act, d0));
            }
            proof {
                assert(v.wf());
                assert(d.facing == 1 || d.facing == -1);
            }
            w.vel[i] = Some(v);
            w.dir[i] = Some(d);
            proof {
                assert forall|k: int| 0 <= k < w.n() implies w.def_at(k).wf() by {
                    if k == i as int {
                        assert(w.def_at(k) == (EntityDef {
                            vel: Some(v),
                            dir: Some(d),
                            ..prev_w.def_at(k)
                        }));
                        assert(prev_w.def_at(k).wf());
                    } else {
                        assert(w.def_at(k) == prev_w.def_at(k));
                        assert(prev_w.def_at(k).wf());
                    }
                }
            }
            if act.take {
                let p = w.pos[i].unwrap();
                let sz = w.size[i].unwrap();
                let off = if d.facing > 0 {
                    sz.x
                } else {
                    BULLET_LEFT_OFFSET
                };
                let bpos = sat_add_v2(p, V2::new(off, 0));
                let bdef = EntityDef::empty().with_pos(bpos).with_vel(
                    V2::new(BULLET_VEL * d.facing, 0),
                ).with_acc(V2::zero()).with_size(V2::new(BULLET_SIZE, BULLET_SIZE)).with_bullet(
                    Bullet { class: CLASS_CHIBA },
                );
                proof {
                    assert(bdef == bullet_def_of(p, sz, d));
                }
                w.queue(bdef);
            }
            let pl = w.player[i].unwrap();
            let msg = Message::PlayerState {
                state: SendAction {
                    player: pl,
                    pos: w.pos[i].unwrap(),
                    vel: v,
                    acc: w.acc[i].unwrap(),
                    dir: d,
                    action: act,
                },
            };
            send_message(outbox, &msg);
            proof {
                assert(msg.model() == MessageModel::PlayerState {
                    state: send_of(*old(w), i as int),
                });
            }
        } else {
            proof {
                assert(!(acts_on(*old(w), i as int) && old(w).action.update));
                assert(bullets_queued(*old(w), i as int + 1) == bullets_queued(
                    *old(w),
                    i as int,
                ));
                assert(frames_sent(*old(w), i as int + 1) == frames_sent(*old(w), i as int));
            }
        }
        i = i + 1;
    }
    w.action = Action::inert();
    proof {
        assert(w.vel@ =~= vel_col_after_input(*old(w)));
        assert(w.dir@ =~= dir_col_after_input(*old(w)));
        assert forall|k: int| 0 <= k < w.n() implies w.def_at(k).wf() by {
            assert(old(w).def_at(k).wf());
        }
    }
}


/// One full tick: input, velocity integration, collision resolution,
/// position integration, the out-of-bounds hook, and the flush of the
/// deferred-creation queue, in that fixed order. The contract is the
/// exact composition of the steps' contracts; in particular the pending
/// action is inert when the tick ends, whatever flags were set.
pub fn tick(w: &mut World, outbox: &mut Mailbox)
    requires
        old(w).wf(),
    ensures
        final(w).wf(),
        final(w).action == Action::inert_spec(),
        ({
            let w0 = *old(w);
            let v1 = vel_col_after_input(w0);
            let d1 = dir_col_after_input(w0);
            let v2 = integrate_vel_all(v1, w0.acc@);
            let c = ColliderView {
                pos: w0.pos@,
                size: w0.size@,
                vel: v2,
                player: w0.player@,
                block: w0.block@,
            };
            let v3 = collide_all(c);
            let p1 = integrate_pos_all(w0.pos@, v3);
            let pend = w0.pending@ + bullets_queued(w0, w0.n());
            &&& final(w).pos@ == p1 + pend.map_values(|d: EntityDef| d.pos)
            &&& final(w).vel@ == v3 + pend.map_values(|d: EntityDef| d.vel)
            &&& final(w).acc@ == w0.acc@ + pend.map_values(|d: EntityDef| d.acc)
            &&& final(w).size@ == w0.size@ + pend.map_values(|d: EntityDef| d.size)
            &&& final(w).dir@ == d1 + pend.map_values(|d: EntityDef| d.dir)
            &&& final(w).player@ == w0.player@ + pend.map_values(|d: EntityDef| d.player)
            &&& final(w).bullet@ == w0.bullet@ + pend.map_values(|d: EntityDef| d.bullet)
            &&& final(w).block@ == w0.block@ + pend.map_values(|d: EntityDef| d.block)
            &&& final(w).pending@.len() == 0
            &&& final(w).user == w0.user
            &&& final(outbox).contents() == old(outbox).contents() + frames_sent(w0, w0.n())
        }),
{
    input_step(w, outbox);
    update_vel_step(w);
    collide_step(w);
    update_pos_step(w);
    out_of_bound_step(w);
    w.maintain();
}

/// World bootstrap: seed one static block per terrain entry, in order,
/// then (on a client) spawn the local player from the login answer and
/// record the identity.
pub fn bootstrap(blocks: &Vec<Terrain>, login: Option<(Player, V2)>) -> (r: World)
    requires
        forall|i: int|
            0 <= i < blocks@.len() ==> (#[trigger] blocks@[i]).pos.wf() && blocks@[i].size.wf()
                && blocks@[i].size.nonneg(),
        login matches Some(pv) ==> pv.1.wf(),
    ensures
        r.wf(),
        r.pending@.len() == 0,
        r.action == Action::inert_spec(),
        r.n() == blocks@.len() + (if login is Some {
            1int
        } else {
            0int
        }),
        forall|i: int|
            0 <= i < blocks@.len() ==> r.def_at(i) == (EntityDef {
                pos: Some((#[trigger] blocks@[i]).pos),
                vel: Some(V2 { x: 0, y: 0 }),
                acc: Some(V2 { x: 0, y: 0 }),
                size: Some(blocks@[i].size),
                dir: None,
                player: None,
                bullet: None,
                block: true,
                enemy: false,
                landmark: false,
                gun: false,
            }),
        login matches Some(pv) ==> r.def_at(blocks@.len() as int) == (EntityDef {
            pos: Some(pv.1),
            vel: Some(V2 { x: 0, y: 0 }),
            acc: Some(V2 { x: 0, y: GRAVITY_Y }),
            size: Some(V2 { x: PLAYER_WIDTH, y: PLAYER_HEIGHT }),
            dir: Some(Dir { facing: 1 }),
            player: Some(pv.0),
            bullet: None,
            block: false,
            enemy: false,
            landmark: false,
            gun: false,
        }),
        r.user == (match login {
            Some(pv) => User { player: Some(pv.0) },
            None => User { player: None::<Player> },
        }),
{
    let mut w = World::new();
    let n = blocks.len();
    let mut i: usize = 0;
    while i < n
        invariant
            n == blocks@.len(),
            forall|k: int|
                0 <= k < n ==> (#[trigger] blocks@[k]).pos.wf() && blocks@[k].size.wf()
                    && blocks@[k].size.nonneg(),
            0 <= i <= n,
            w.wf(),
            w.n() == i,
            w.pending@.len() == 0,
            w.action == Action::inert_spec(),
            w.user == (User { player: None::<Player> }),
            forall|k: int|
                0 <= k < i ==> w.def_at(k) == (EntityDef {
                    pos: Some((#[trigger] blocks@[k]).pos),
                    vel: Some(V2 { x: 0, y: 0 }),
                    acc: Some(V2 { x: 0, y: 0 }),
                    size: Some(blocks@[k].size),
                    dir: None,
                    player: None,
                    bullet: None,
                    block: true,
                    enemy: false,
                    landmark: false,
                    gun: false,
                }),
        decreases n - i,
    {
        let t = blocks[i];
        w.add_block(t);
        i = i + 1;
    }
    match login {
        Some((pl, spawn)) => {
            w.add_player(spawn, pl);
        },
        None => {},
    }
    w
}

} // verus!
