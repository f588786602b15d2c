use simcore::codec::decode;
use simcore::components::{Action, Bullet, Dir, Player, Terrain};
use simcore::math::V2;
use simcore::message::Message;
use simcore::pipeline::{
    bootstrap, collide_step, input_step, positions_snapshot, tick, update_pos_step,
    update_vel_step,
};
use simcore::transport::Mailbox;
use simcore::world::{EntityDef, World};

// All quantities are fixed-point hundredths of a world unit.

fn act(update: bool, jump: bool, right: bool, left: bool, take: bool) -> Action {
    Action { update, jump, right, left, take }
}

fn player_def(pos: V2, vel: V2, acc: Option<V2>) -> EntityDef {
    let mut d = EntityDef::empty()
        .with_pos(pos)
        .with_vel(vel)
        .with_size(V2 { x: 3000, y: 5000 })
        .with_dir(Dir { facing: 1 })
        .with_player(Player { id: 1, class: 0 });
    if let Some(a) = acc {
        d = d.with_acc(a);
    }
    d
}

#[test]
fn velocity_integration_accumulates_gravity() {
    // Acc = (0, -0.15), Vel = (0, 0): one step gives (0, -0.15), the
    // next (0, -0.30).
    let mut w = World::new();
    let e = w.create(
        EntityDef::empty().with_vel(V2 { x: 0, y: 0 }).with_acc(V2 { x: 0, y: -15 }),
    );
    update_vel_step(&mut w);
    assert_eq!(w.vel[e], Some(V2 { x: 0, y: -15 }));
    update_vel_step(&mut w);
    assert_eq!(w.vel[e], Some(V2 { x: 0, y: -30 }));
}

#[test]
fn collision_truncation_stops_at_contact() {
    // A player touching a block's left face while moving toward it must
    // not end the tick past the face.
    let mut w = World::new();
    let p = w.create(player_def(V2 { x: 0, y: 0 }, V2 { x: 500, y: 0 }, None));
    w.add_block(Terrain { pos: V2 { x: 3000, y: 0 }, size: V2 { x: 3000, y: 5000 } });
    collide_step(&mut w);
    let vel = w.vel[p].unwrap();
    update_pos_step(&mut w);
    let pos = w.pos[p].unwrap();
    // No interpenetration: the player's right edge stays at or before
    // the block's left edge at x = 30.
    assert!(pos.x + 3000 <= 3000);
    assert_eq!(vel, V2 { x: 0, y: 0 });
}

#[test]
fn resting_contact_zeroes_vertical_and_damps_horizontal() {
    // A player already touching a block from above with downward
    // velocity (0, -3): the vertical component is zeroed and the
    // horizontal one damped by a tenth.
    let mut w = World::new();
    let p = w.create(player_def(V2 { x: 0, y: 0 }, V2 { x: 0, y: -300 }, None));
    w.add_block(Terrain { pos: V2 { x: 0, y: -2000 }, size: V2 { x: 3000, y: 2000 } });
    collide_step(&mut w);
    assert_eq!(w.vel[p], Some(V2 { x: 0, y: 0 }));

    let mut w = World::new();
    let p = w.create(player_def(V2 { x: 0, y: 0 }, V2 { x: 200, y: -300 }, None));
    w.add_block(Terrain { pos: V2 { x: 0, y: -2000 }, size: V2 { x: 3000, y: 2000 } });
    collide_step(&mut w);
    // 2.00 damped by a tenth is 1.80; the vertical component is gone.
    assert_eq!(w.vel[p], Some(V2 { x: 180, y: 0 }));
}

#[test]
fn action_resets_after_input_step() {
    let mut w = World::new();
    w.add_player(V2 { x: 0, y: 0 }, Player { id: 1, class: 0 });
    w.set_action(act(true, true, true, false, false));
    let mut outbox = Mailbox::new();
    input_step(&mut w, &mut outbox);
    assert_eq!(w.action, act(false, false, false, false, false));

    // The reset happens whatever the flags were, even without an event.
    w.set_action(act(false, true, false, true, true));
    input_step(&mut w, &mut outbox);
    assert_eq!(w.action, act(false, false, false, false, false));
}

#[test]
fn input_applies_movement_and_left_wins() {
    let mut w = World::new();
    let p = w.add_player(V2 { x: 0, y: 0 }, Player { id: 1, class: 0 });
    w.set_action(act(true, true, true, true, false));
    let mut outbox = Mailbox::new();
    input_step(&mut w, &mut outbox);
    // Jump sets Vel.y to 5.0; right then left both fire and left wins.
    assert_eq!(w.vel[p], Some(V2 { x: -500, y: 500 }));
    assert_eq!(w.dir[p], Some(Dir { facing: -1 }));
}

#[test]
fn stale_input_moves_nothing() {
    let mut w = World::new();
    let p = w.add_player(V2 { x: 0, y: 0 }, Player { id: 1, class: 0 });
    w.set_action(act(false, true, true, false, true));
    let mut outbox = Mailbox::new();
    input_step(&mut w, &mut outbox);
    assert_eq!(w.vel[p], Some(V2 { x: 0, y: 0 }));
    // Nothing is broadcast either.
    assert_eq!(outbox.len(), 0);
    assert_eq!(w.pending.len(), 0);
}

#[test]
fn take_spawns_bullet_at_facing_edge() {
    let mut w = World::new();
    w.add_player(V2 { x: 100, y: 200 }, Player { id: 1, class: 0 });
    w.set_action(act(true, false, false, false, true));
    let mut outbox = Mailbox::new();
    tick(&mut w, &mut outbox);
    // The bullet became visible at the tick boundary, after the flush.
    assert_eq!(w.num_entities(), 2);
    // Facing right: the muzzle offset is the shooter's width.
    assert_eq!(w.pos[1], Some(V2 { x: 100 + 3000, y: 200 }));
    assert_eq!(w.vel[1], Some(V2 { x: 1000, y: 0 }));
    assert_eq!(w.size[1], Some(V2 { x: 1000, y: 1000 }));
    assert_eq!(w.acc[1], Some(V2 { x: 0, y: 0 }));
    assert_eq!(w.bullet[1], Some(Bullet { class: 0 }));
}

#[test]
fn take_facing_left_uses_fixed_offset() {
    let mut w = World::new();
    w.add_player(V2 { x: 100, y: 200 }, Player { id: 1, class: 0 });
    w.set_action(act(true, false, false, true, true));
    let mut outbox = Mailbox::new();
    tick(&mut w, &mut outbox);
    assert_eq!(w.num_entities(), 2);
    // Facing left: a fixed offset of -10 units, and leftward speed.
    assert_eq!(w.pos[1], Some(V2 { x: 100 - 1000, y: 200 }));
    assert_eq!(w.vel[1], Some(V2 { x: -1000, y: 0 }));
}

#[test]
fn input_broadcasts_post_input_state() {
    let mut w = World::new();
    w.add_player(V2 { x: 100, y: 200 }, Player { id: 9, class: 0 });
    let a = act(true, false, true, false, false);
    w.set_action(a);
    let mut outbox = Mailbox::new();
    input_step(&mut w, &mut outbox);
    let frame = outbox.try_receive().expect("one broadcast per acting player");
    match decode(&frame).expect("the broadcast decodes") {
        Message::PlayerState { state } => {
            assert_eq!(state.player, Player { id: 9, class: 0 });
            assert_eq!(state.pos, V2 { x: 100, y: 200 });
            // Post-input velocity and facing.
            assert_eq!(state.vel, V2 { x: 500, y: 0 });
            assert_eq!(state.dir, Dir { facing: 1 });
            // The raw action travels with the state.
            assert_eq!(state.action, a);
        },
        other => panic!("expected a player-state broadcast, got {:?}", other),
    }
    assert_eq!(outbox.try_receive(), None);
}

#[test]
fn minimal_adjustment_wins_over_combination() {
    // Two blocks ahead at different gaps give different truncations;
    // only the smaller-magnitude candidate is applied.
    let mut w = World::new();
    let p = w.create(player_def(V2 { x: 0, y: 0 }, V2 { x: 500, y: 0 }, None));
    // Gap of 4.00 units: candidate (4.00, 0).
    w.add_block(Terrain { pos: V2 { x: 3400, y: 0 }, size: V2 { x: 3000, y: 5000 } });
    // Gap of 2.50 units: candidate (2.50, 0).
    w.add_block(Terrain { pos: V2 { x: 3250, y: 0 }, size: V2 { x: 3000, y: 5000 } });
    collide_step(&mut w);
    assert_eq!(w.vel[p], Some(V2 { x: 250, y: 0 }));
}

#[test]
fn end_to_end_fall_and_rest() {
    // One floor block at (0, 100) of size (500, 20) and one player at
    // (100, 0) of size (30, 50), accelerating toward the block; run
    // ticks until the player's far edge reaches the block face at 100,
    // then the vertical velocity is zeroed and stays zero.
    let blocks = vec![Terrain { pos: V2 { x: 0, y: 10000 }, size: V2 { x: 50000, y: 2000 } }];
    let mut w = bootstrap(&blocks, None);
    let p = w.create(player_def(
        V2 { x: 10000, y: 0 },
        V2 { x: 0, y: 0 },
        Some(V2 { x: 0, y: 15 }),
    ));
    let mut outbox = Mailbox::new();
    let mut landed = false;
    for _ in 0..100 {
        tick(&mut w, &mut outbox);
        if w.pos[p].unwrap().y + 5000 >= 10000 {
            landed = true;
            break;
        }
    }
    assert!(landed);
    // Contact is exact: the swept resolver stops the motion at the face.
    assert_eq!(w.pos[p].unwrap().y + 5000, 10000);
    // From the next tick on the vertical velocity is zeroed and the
    // player rests on the block.
    for _ in 0..10 {
        tick(&mut w, &mut outbox);
        assert_eq!(w.vel[p], Some(V2 { x: 0, y: 0 }));
        assert_eq!(w.pos[p].unwrap().y + 5000, 10000);
    }
}

#[test]
fn bootstrap_seeds_blocks_and_player() {
    let blocks = vec![
        Terrain { pos: V2 { x: 0, y: 0 }, size: V2 { x: 100, y: 100 } },
        Terrain { pos: V2 { x: 200, y: 0 }, size: V2 { x: 100, y: 100 } },
    ];
    let w = bootstrap(&blocks, Some((Player { id: 4, class: 0 }, V2 { x: 50, y: 50 })));
    assert_eq!(w.num_entities(), 3);
    assert!(w.block[0] && w.block[1]);
    assert_eq!(w.pos[1], Some(V2 { x: 200, y: 0 }));
    assert_eq!(w.player[2], Some(Player { id: 4, class: 0 }));
    assert_eq!(w.pos[2], Some(V2 { x: 50, y: 50 }));
    // The standard body and gravity.
    assert_eq!(w.size[2], Some(V2 { x: 3000, y: 5000 }));
    assert_eq!(w.acc[2], Some(V2 { x: 0, y: -15 }));
    assert_eq!(w.user.player, Some(Player { id: 4, class: 0 }));
}

#[test]
fn snapshot_lists_placed_entities() {
    let mut w = World::new();
    w.create(EntityDef::empty().with_pos(V2 { x: 1, y: 2 }));
    w.create(EntityDef::empty());
    w.create(EntityDef::empty().with_pos(V2 { x: 3, y: 4 }));
    let snap = positions_snapshot(&w);
    assert_eq!(snap, vec![(0, V2 { x: 1, y: 2 }), (2, V2 { x: 3, y: 4 })]);
}
