//! The entity store: a registry of densely packed parallel component
//! arrays indexed by a stable entity identifier, plus the two
//! process-wide resources (`Action`, `User`) and the deferred-creation
//! queue that is drained only at the tick boundary.

use vstd::prelude::*;
use crate::components::{Action, Bullet, Dir, Player, Terrain, User};
use crate::math::V2;

verus! {

/// Per-tick gravity of a freshly spawned player, in fixed-point units.
pub const GRAVITY_Y: i64 = -15;

/// Width of a player's bounding box, in fixed-point units.
pub const PLAYER_WIDTH: i64 = 3000;

/// Height of a player's bounding box, in fixed-point units.
pub const PLAYER_HEIGHT: i64 = 5000;

/// The full component set of one entity to be created: `None` fields are
/// simply absent from the entity.
#[derive(Clone, Copy, PartialEq, Eq, Structural, Debug)]
pub struct EntityDef {
    pub pos: Option<V2>,
    pub vel: Option<V2>,
    pub acc: Option<V2>,
    pub size: Option<V2>,
    pub dir: Option<Dir>,
    pub player: Option<Player>,
    pub bullet: Option<Bullet>,
    pub block: bool,
    pub enemy: bool,
    pub landmark: bool,
    pub gun: bool,
}

impl EntityDef {
    /// Every coordinate component is in bound, sizes are nonnegative, a
    /// facing is one of the two signs, and no entity is both a player
    /// and a terrain block.
    pub open spec fn wf(self) -> bool {
        &&& (self.pos matches Some(p) ==> p.wf())
        &&& (self.vel matches Some(v) ==> v.wf())
        &&& (self.acc matches Some(a) ==> a.wf())
        &&& (self.size matches Some(s) ==> s.wf() && s.nonneg())
        &&& (self.dir matches Some(d) ==> d.facing == 1 || d.facing == -1)
        &&& !(self.player is Some && self.block)
    }

    /// An entity with no components at all.
    pub fn empty() -> (r: EntityDef)
        ensures
            r == EntityDef::empty_spec(),
    {
        EntityDef {
            pos: None,
            vel: None,
            acc: None,
            size: None,
            dir: None,
            player: None,
            bullet: None,
            block: false,
            enemy: false,
            landmark: false,
            gun: false,
        }
    }

    pub open spec fn empty_spec() -> EntityDef {
        EntityDef {
            pos: None,
            vel: None,
            acc: None,
            size: None,
            dir: None,
            player: None,
            bullet: None,
            block: false,
            enemy: false,
            landmark: false,
            gun: false,
        }
    }

    pub fn with_pos(self, p: V2) -> (r: EntityDef)
        ensures
            r == (EntityDef { pos: Some(p), ..self }),
    {
        EntityDef { pos: Some(p), ..self }
    }

    pub fn with_vel(self, v: V2) -> (r: EntityDef)
        ensures
            r == (EntityDef { vel: Some(v), ..self }),
    {
        EntityDef { vel: Some(v), ..self }
    }

    pub fn with_acc(self, a: V2) -> (r: EntityDef)
        ensures
            r == (EntityDef { acc: Some(a), ..self }),
    {
        EntityDef { acc: Some(a), ..self }
    }

    pub fn with_size(self, s: V2) -> (r: EntityDef)
        ensures
            r == (EntityDef { size: Some(s), ..self }),
    {
        EntityDef { size: Some(s), ..self }
    }

    pub fn with_dir(self, d: Dir) -> (r: EntityDef)
        ensures
            r == (EntityDef { dir: Some(d), ..self }),
    {
        EntityDef { dir: Some(d), ..self }
    }

    pub fn with_player(self, p: Player) -> (r: EntityDef)
        ensures
            r == (EntityDef { player: Some(p), ..self }),
    {
        EntityDef { player: Some(p), ..self }
    }

    pub fn with_bullet(self, b: Bullet) -> (r: EntityDef)
        ensures
            r == (EntityDef { bullet: Some(b), ..self }),
    {
        EntityDef { bullet: Some(b), ..self }
    }

    pub fn with_block(self) -> (r: EntityDef)
        ensures
            r == (EntityDef { block: true, ..self }),
    {
        EntityDef { block: true, ..self }
    }
}

/// The world: one slot per entity in each component array, all arrays of
/// equal length, plus resources and the deferred-creation queue.
pub struct World {
    pub pos: Vec<Option<V2>>,
    pub vel: Vec<Option<V2>>,
    pub acc: Vec<Option<V2>>,
    pub size: Vec<Option<V2>>,
    pub dir: Vec<Option<Dir>>,
    pub player: Vec<Option<Player>>,
    pub bullet: Vec<Option<Bullet>>,
    pub block: Vec<bool>,
    pub enemy: Vec<bool>,
    pub landmark: Vec<bool>,
    pub gun: Vec<bool>,
    pub action: Action,
    pub user: User,
    pub pending: Vec<EntityDef>,
}

impl World {
    /// Number of live entities.
    pub open spec fn n(self) -> int {
        self.pos@.len() as int
    }

    /// All component arrays run in parallel.
    pub open spec fn lens_ok(self) -> bool {
        &&& self.vel@.len() == self.pos@.len()
        &&& self.acc@.len() == self.pos@.len()
        &&& self.size@.len() == self.pos@.len()
        &&& self.dir@.len() == self.pos@.len()
        &&& self.player@.len() == self.pos@.len()
        &&& self.bullet@.len() == self.pos@.len()
        &&& self.block@.len() == self.pos@.len()
        &&& self.enemy@.len() == self.pos@.len()
        &&& self.landmark@.len() == self.pos@.len()
        &&& self.gun@.len() == self.pos@.len()
    }

    /// The components of entity `i` repackaged as a definition.
    pub open spec fn def_at(self, i: int) -> EntityDef {
        EntityDef {
            pos: self.pos@[i],
            vel: self.vel@[i],
            acc: self.acc@[i],
            size: self.size@[i],
            dir: self.dir@[i],
            player: self.player@[i],
            bullet: self.bullet@[i],
            block: self.block@[i],
            enemy: self.enemy@[i],
            landmark: self.landmark@[i],
            gun: self.gun@[i],
        }
    }

    /// Well-formedness: parallel arrays, in-bound components, nonnegative
    /// sizes, no player-and-block entity, and a well-formed pending queue.
    pub open spec fn wf(self) -> bool {
        &&& self.lens_ok()
        &&& forall|i: int| 0 <= i < self.n() ==> self.def_at(i).wf()
        &&& forall|k: int| 0 <= k < self.pending@.len() ==> self.pending@[k].wf()
    }

    /// An empty world with inert resources.
    pub fn new() -> (r: World)
        ensures
            r.wf(),
            r.n() == 0,
            r.pending@.len() == 0,
            r.action == Action::inert_spec(),
            r.user == (User { player: None::<Player> }),
    {
        World {
            pos: Vec::new(),
            vel: Vec::new(),
            acc: Vec::new(),
            size: Vec::new(),
            dir: Vec::new(),
            player: Vec::new(),
            bullet: Vec::new(),
            gun: Vec::new(),
            block: Vec::new(),
            enemy: Vec::new(),
            landmark: Vec::new(),
            action: Action::inert(),
            user: User::unset(),
            pending: Vec::new(),
        }
    }

    /// Create an entity immediately and return its identifier.
    pub fn create(&mut self, def: EntityDef) -> (id: usize)
        requires
            old(self).wf(),
            def.wf(),
        ensures
            final(self).wf(),
            id == old(self).n(),
            final(self).n() == old(self).n() + 1,
            final(self).pos@ == old(self).pos@.push(def.pos),
            final(self).vel@ == old(self).vel@.push(def.vel),
            final(self).acc@ == old(self).acc@.push(def.acc),
            final(self).size@ == old(self).size@.push(def.size),
            final(self).dir@ == old(self).dir@.push(def.dir),
            final(self).player@ == old(self).player@.push(def.player),
            final(self).bullet@ == old(self).bullet@.push(def.bullet),
            final(self).block@ == old(self).block@.push(def.block),
            final(self).enemy@ == old(self).enemy@.push(def.enemy),
            final(self).landmark@ == old(self).landmark@.push(def.landmark),
            final(self).gun@ == old(self).gun@.push(def.gun),
            final(self).action == old(self).action,
            final(self).user == old(self).user,
            final(self).pending@ == old(self).pending@,
    {
        let id = self.pos.len();
        self.pos.push(def.pos);
        self.vel.push(def.vel);
        self.acc.push(def.acc);
        self.size.push(def.size);
        self.dir.push(def.dir);
        self.player.push(def.player);
        self.bullet.push(def.bullet);
        self.block.push(def.block);
        self.enemy.push(def.enemy);
        self.landmark.push(def.landmark);
        self.gun.push(def.gun);
        proof {
            assert forall|i: int| 0 <= i < self.n() implies self.def_at(i).wf() by {
                if i < old(self).n() {
                    assert(self.def_at(i) == old(self).def_at(i));
                } else {
                    assert(self.def_at(i) == def);
                }
            }
        }
        id
    }

    /// Queue an entity for deferred creation; it becomes visible only
    /// when [`World::maintain`] runs at the tick boundary.
    pub fn queue(&mut self, def: EntityDef)
        requires
            old(self).wf(),
            def.wf(),
        ensures
            final(self).wf(),
            *final(self) == (World { pending: final(self).pending, ..*old(self) }),
            final(self).pending@ == old(self).pending@.push(def),
    {
        self.pending.push(def);
        proof {
            assert forall|i: int| 0 <= i < self.n() implies self.def_at(i).wf() by {
                assert(self.def_at(i) == old(self).def_at(i));
            }
            assert forall|k: int| 0 <= k < self.pending@.len() implies self.pending@[k].wf() by {
                if k < old(self).pending@.len() {
                    assert(self.pending@[k] == old(self).pending@[k]);
                } else {
                    assert(self.pending@[k] == def);
                }
            }
        }
    }

    /// Drain the deferred-creation queue into the component arrays, in
    /// queueing order.
    pub fn maintain(&mut self)
        requires
            old(self).wf(),
        ensures
            final(self).wf(),
            final(self).pending@.len() == 0,
            final(self).pos@ == old(self).pos@ + old(self).pending@.map_values(|d: EntityDef| d.pos),
            final(self).vel@ == old(self).vel@ + old(self).pending@.map_values(|d: EntityDef| d.vel),
            final(self).acc@ == old(self).acc@ + old(self).pending@.map_values(|d: EntityDef| d.acc),
            final(self).size@ == old(self).size@ + old(self).pending@.map_values(|d: EntityDef| d.size),
            final(self).dir@ == old(self).dir@ + old(self).pending@.map_values(|d: EntityDef| d.dir),
            final(self).player@ == old(self).player@ + old(self).pending@.map_values(
                |d: EntityDef| d.player,
            ),
            final(self).bullet@ == old(self).bullet@ + old(self).pending@.map_values(
                |d: EntityDef| d.bullet,
            ),
            final(self).block@ == old(self).block@ + old(self).pending@.map_values(|d: EntityDef| d.block),
            final(self).enemy@ == old(self).enemy@ + old(self).pending@.map_values(|d: EntityDef| d.enemy),
            final(self).landmark@ == old(self).landmark@ + old(self).pending@.map_values(
                |d: EntityDef| d.landmark,
            ),
            final(self).gun@ == old(self).gun@ + old(self).pending@.map_values(|d: EntityDef| d.gun),
            final(self).action == old(self).action,
            final(self).user == old(self).user,
    {
        let mut k: usize = 0;
        let m = self.pending.len();
        while k < m
            invariant
                self.wf(),
                m == old(self).pending@.len(),
                0 <= k <= m,
                self.pending@ == old(self).pending@,
                self.pos@ == old(self).pos@ + old(self).pending@.subrange(0, k as int).map_values(
                    |d: EntityDef| d.pos,
                ),
                self.vel@ == old(self).vel@ + old(self).pending@.subrange(0, k as int).map_values(
                    |d: EntityDef| d.vel,
                ),
                self.acc@ == old(self).acc@ + old(self).pending@.subrange(0, k as int).map_values(
                    |d: EntityDef| d.acc,
                ),
                self.size@ == old(self).size@ + old(self).pending@.subrange(0, k as int).map_values(
                    |d: EntityDef| d.size,
                ),
                self.dir@ == old(self).dir@ + old(self).pending@.subrange(0, k as int).map_values(
                    |d: EntityDef| d.dir,
                ),
                self.player@ == old(self).player@ + old(self).pending@.subrange(
                    0,
                    k as int,
                ).map_values(|d: EntityDef| d.player),
                self.bullet@ == old(self).bullet@ + old(self).pending@.subrange(
                    0,
                    k as int,
                ).map_values(|d: EntityDef| d.bullet),
                self.block@ == old(self).block@ + old(self).pending@.subrange(0, k as int).map_values(
                    |d: EntityDef| d.block,
                ),
                self.enemy@ == old(self).enemy@ + old(self).pending@.subrange(0, k as int).map_values(
                    |d: EntityDef| d.enemy,
                ),
                self.landmark@ == old(self).landmark@ + old(self).pending@.subrange(
                    0,
                    k as int,
                ).map_values(|d: EntityDef| d.landmark),
                self.gun@ == old(self).gun@ + old(self).pending@.subrange(0, k as int).map_values(
                    |d: EntityDef| d.gun,
                ),
                self.action == old(self).action,
                self.user == old(self).user,
            decreases m - k,
        {
            let def = self.pending[k];
            self.create(def);
            k = k + 1;
            proof {
                assert(old(self).pending@.subrange(0, k as int) == old(self).pending@.subrange(
                    0,
                    k as int - 1,
                ).push(old(self).pending@[k as int - 1]));
            }
        }
        proof {
            assert(old(self).pending@.subrange(0, m as int) == old(self).pending@);
        }
        let ghost before_clear = *self;
        self.pending.clear();
        proof {
            assert forall|i: int| 0 <= i < self.n() implies self.def_at(i).wf() by {
                assert(self.def_at(i) == before_clear.def_at(i));
            }
        }
    }

    /// Replace the pending input intent (the input-capture collaborator
    /// calls this before the next tick).
    pub fn set_action(&mut self, a: Action)
        ensures
            *final(self) == (World { action: a, ..*old(self) }),
    {
        self.action = a;
    }

    /// Record the local identity assigned at login.
    pub fn set_user(&mut self, p: Player)
        ensures
            *final(self) == (World { user: User { player: Some(p) }, ..*old(self) }),
    {
        self.user = User { player: Some(p) };
    }

    pub fn num_entities(&self) -> (r: usize)
        ensures
            r == self.n(),
    {
        self.pos.len()
    }

    /// Seed one static terrain block, as world bootstrap does for every
    /// entry of the server's terrain response.
    pub fn add_block(&mut self, t: Terrain) -> (id: usize)
        requires
            old(self).wf(),
            t.pos.wf(),
            t.size.wf(),
            t.size.nonneg(),
        ensures
            final(self).wf(),
            id == old(self).n(),
            final(self).n() == old(self).n() + 1,
            final(self).def_at(id as int) == (EntityDef {
                pos: Some(t.pos),
                vel: Some(V2 { x: 0, y: 0 }),
                acc: Some(V2 { x: 0, y: 0 }),
                size: Some(t.size),
                dir: None::<Dir>,
                player: None::<Player>,
                bullet: None::<Bullet>,
                block: true,
                enemy: false,
                landmark: false,
                gun: false,
            }),
            forall|i: int| 0 <= i < old(self).n() ==> final(self).def_at(i) == old(self).def_at(i),
            final(self).action == old(self).action,
            final(self).user == old(self).user,
            final(self).pending@ == old(self).pending@,
    {
        let def = EntityDef::empty()
            .with_pos(t.pos)
            .with_vel(V2::zero())
            .with_acc(V2::zero())
            .with_size(t.size)
            .with_block();
        self.create(def)
    }

    /// Spawn the local player at the given position with the standard
    /// body, gravity and rightward facing, and record the identity.
    pub fn add_player(&mut self, spawn: V2, player: Player) -> (id: usize)
        requires
            old(self).wf(),
            spawn.wf(),
        ensures
            final(self).wf(),
            id == old(self).n(),
            final(self).n() == old(self).n() + 1,
            final(self).def_at(id as int) == (EntityDef {
                pos: Some(spawn),
                vel: Some(V2 { x: 0, y: 0 }),
                acc: Some(V2 { x: 0, y: GRAVITY_Y }),
                size: Some(V2 { x: PLAYER_WIDTH, y: PLAYER_HEIGHT }),
                dir: Some(Dir { facing: 1 }),
                player: Some(player),
                bullet: None::<Bullet>,
                block: false,
                enemy: false,
                landmark: false,
                gun: false,
            }),
            forall|i: int| 0 <= i < old(self).n() ==> final(self).def_at(i) == old(self).def_at(i),
            final(self).action == old(self).action,
            final(self).user == (User { player: Some(player) }),
            final(self).pending@ == old(self).pending@,
    {
        let def = EntityDef::empty()
            .with_pos(spawn)
            .with_vel(V2::zero())
            .with_acc(V2::new(0, GRAVITY_Y))
            .with_size(V2::new(PLAYER_WIDTH, PLAYER_HEIGHT))
            .with_dir(Dir { facing: 1 })
            .with_player(player);
        let id = self.create(def);
        let ghost created = *self;
        self.set_user(player);
        proof {
            assert forall|i: int| 0 <= i < self.n() implies self.def_at(i).wf() by {
                assert(self.def_at(i) == created.def_at(i));
            }
        }
        id
    }
}

} // verus!
