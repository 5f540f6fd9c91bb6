use vstd::prelude::*;
use crate::geom::Vec2;
use crate::geom::WinSize;
use crate::geom::win_wf;
use crate::entity::Entity;
use crate::entity::Registry;
use crate::entity::Role;
use crate::entity::count_role;
use crate::entity::filter_role;
use crate::entity::lemma_filter_role_push;
use crate::entity::lemma_filter_role_props;
use crate::entity::remove_id;
use crate::formation::Formation;
use crate::formation::FormationMaker;
use crate::formation::FORMATION_SIZE;
use crate::formation::formation_wf;
use crate::formation::maker_wf;
use crate::fixmath::div_u;
use crate::fixmath::atan2_mrad_s;
use crate::player::PlayerState;
use crate::player::PlayerReadyFire;
use crate::player::respawn_allowed;
use crate::player::RESPAWN_DELAY_MS;
use crate::motion::player_step;
use crate::motion::enemy_step_s;
use crate::motion::pbullets_moved;
use crate::motion::ebullets_moved;
use crate::combat::scan_all;
use crate::combat::remove_ids;
use crate::combat::hit_bullet_ids;
use crate::combat::score_after;

verus! {

/// Cap on simultaneously live enemies.
pub const MAX_ENEMIES: u32 = 3;

/// Score awarded for each enemy destroyed.
pub const SCORE_PER_KILL: u32 = 100;

/// Default scalar speed of every spawned entity, in milliunits per second.
pub const DEFAULT_SPEED: i64 = 200000;

/// Largest simulation time the core accepts, in milliseconds (2^60).
pub const TIME_LIMIT_MS: u64 = 1152921504606846976;

/// Elapsed time between enemy spawn attempts, in milliseconds.
pub const ENEMY_SPAWN_PERIOD_MS: u64 = 1000;

/// Elapsed time between enemy fire volleys, in milliseconds.
pub const ENEMY_FIRE_PERIOD_MS: u64 = 850;

/// Elapsed time between player respawn attempts, in milliseconds.
pub const PLAYER_SPAWN_PERIOD_MS: u64 = 1000;

/// Current run score and best-ever score, in that order.
#[derive(Clone, Copy, PartialEq, Eq, Structural, Debug)]
pub struct HighScore(pub u32, pub u32);

/// Running count of live enemies; the simulation keeps it equal to the
/// number of live entities tagged `Enemy`.
#[derive(Clone, Copy, PartialEq, Eq, Structural, Debug)]
pub struct ActiveEnemies(pub u32);

/// The whole simulation state, advanced by an explicit ordered pipeline
/// once per fixed time step.
pub struct World {
    pub registry: Registry,
    pub active_enemies: ActiveEnemies,
    pub formation_maker: FormationMaker,
    pub score: HighScore,
    pub player_state: PlayerState,
    pub fire_ready: PlayerReadyFire,
    pub win: WinSize,
    pub enemy_spawn_timer: u64,
    pub enemy_fire_timer: u64,
    pub player_spawn_timer: u64,
}

impl World {
    /// The simulation invariant: the registry is well formed, the enemy
    /// counter agrees with the live enemy population, the population cap
    /// holds, and the player entity exists exactly while the lifecycle
    /// says the player is alive.
    pub open spec fn wf(self) -> bool {
        &&& self.registry.wf()
        &&& win_wf(self.win)
        &&& maker_wf(self.formation_maker)
        &&& self.active_enemies.0 == count_role(self.registry.entities@, Role::Enemy)
        &&& count_role(self.registry.entities@, Role::Enemy) <= MAX_ENEMIES
        &&& count_role(self.registry.entities@, Role::Player) == (if self.player_state.alive {
            1nat
        } else {
            0nat
        })
        &&& self.player_state.last_death <= TIME_LIMIT_MS
        &&& self.enemy_spawn_timer < 2 * ENEMY_SPAWN_PERIOD_MS
        &&& self.enemy_fire_timer < 2 * ENEMY_FIRE_PERIOD_MS
        &&& self.player_spawn_timer < 2 * PLAYER_SPAWN_PERIOD_MS
    }

    /// An empty simulation over the given window: no entities, no score,
    /// player dead with no death recorded, as at process start.
    pub fn new(win: WinSize) -> (w: World)
        requires
            win_wf(win),
        ensures
            w.wf(),
            w.registry.entities@.len() == 0,
            w.registry.next_id == 1,
            w.active_enemies.0 == 0,
            w.formation_maker.current is None,
            w.formation_maker.seq_id == 0,
            w.score == (HighScore(0, 0)),
            w.player_state.alive == false,
            w.player_state.last_death == 0,
            w.fire_ready.0 == true,
            w.win == win,
            w.enemy_spawn_timer == 0,
            w.enemy_fire_timer == 0,
            w.player_spawn_timer == 0,
    {
        World {
            registry: Registry::default(),
            active_enemies: ActiveEnemies(0),
            formation_maker: FormationMaker::default(),
            score: HighScore(0, 0),
            player_state: PlayerState::default(),
            fire_ready: PlayerReadyFire(true),
            win,
            enemy_spawn_timer: 0,
            enemy_fire_timer: 0,
            player_spawn_timer: 0,
        }
    }

    /// Attempted once per enemy-spawn tick: while fewer than `MAX_ENEMIES`
    /// enemies are live, assigns a formation (reusing the current batch or
    /// drawing a new one) and creates one enemy at its start point.
    pub fn spawn_enemy(&mut self)
        requires
            old(self).wf(),
            old(self).registry.next_id < u64::MAX,
            old(self).formation_maker.seq_id < u32::MAX,
        ensures
            final(self).wf(),
            final(self).win == old(self).win,
            final(self).score == old(self).score,
            final(self).player_state == old(self).player_state,
            final(self).fire_ready == old(self).fire_ready,
            final(self).enemy_spawn_timer == old(self).enemy_spawn_timer,
            final(self).enemy_fire_timer == old(self).enemy_fire_timer,
            final(self).player_spawn_timer == old(self).player_spawn_timer,
            final(self).active_enemies.0 <= MAX_ENEMIES,
            old(self).active_enemies.0 < MAX_ENEMIES ==> ({
                &&& final(self).formation_maker.current is Some
                &&& final(self).registry.entities@ == old(self).registry.entities@.push(
                    (Entity {
                        id: old(self).registry.next_id,
                        pos: (Vec2 {
                            x: final(self).formation_maker.current.unwrap().start_x,
                            y: final(self).formation_maker.current.unwrap().start_y,
                        }),
                        size: (Vec2 { x: 36000, y: 12000 }),
                        speed: DEFAULT_SPEED,
                        role: Role::Enemy,
                        formation: final(self).formation_maker.current,
                    }),
                )
                &&& final(self).active_enemies.0 == old(self).active_enemies.0 + 1
                &&& final(self).registry.next_id == old(self).registry.next_id + 1
                &&& formation_wf(final(self).formation_maker.current.unwrap())
                &&& (old(self).formation_maker.current is Some
                    && old(self).formation_maker.current_members < FORMATION_SIZE) ==> ({
                    &&& final(self).formation_maker.current == old(self).formation_maker.current
                    &&& final(self).formation_maker.current_members == old(
                        self,
                    ).formation_maker.current_members + 1
                    &&& final(self).formation_maker.seq_id == old(self).formation_maker.seq_id
                })
                &&& (old(self).formation_maker.current is None
                    || old(self).formation_maker.current_members >= FORMATION_SIZE) ==> ({
                    let f = final(self).formation_maker.current.unwrap();
                    &&& final(self).formation_maker.current_members == 1
                    &&& final(self).formation_maker.seq_id == old(self).formation_maker.seq_id
                        + 1
                    &&& f.id == old(self).formation_maker.seq_id + 1
                    &&& (f.start_x == old(self).win.w as int / 2 || f.start_x == -(old(
                        self,
                    ).win.w as int / 2))
                    &&& -(old(self).win.h as int / 2 - 100000) <= f.start_y < old(
                        self,
                    ).win.h as int / 2 - 100000
                    &&& -(old(self).win.w as int / 4) <= f.offset_x < old(self).win.w as int / 4
                    &&& 0 <= f.offset_y < old(self).win.h as int / 2 - 100000
                    &&& 80000 <= f.radius_x < 150000
                    &&& f.radius_y == 100000
                    &&& f.angle == atan2_mrad_s(
                        f.start_y - f.offset_x as int,
                        f.start_x - f.offset_y as int,
                    )
                })
            }),
            old(self).active_enemies.0 >= MAX_ENEMIES ==> *final(self) == *old(self),
    {
        if self.active_enemies.0 < MAX_ENEMIES {
            let f = self.formation_maker.make(&self.win);
            let pos = Vec2 { x: f.start_x, y: f.start_y };
            let size = Vec2 { x: 36000, y: 12000 };
            let _id = self.registry.create(Role::Enemy, pos, size, DEFAULT_SPEED, Some(f));
            self.active_enemies.0 = self.active_enemies.0 + 1;
            proof {
                let olds = old(self).registry.entities@;
                let e = Entity {
                    id: old(self).registry.next_id,
                    pos,
                    size,
                    speed: DEFAULT_SPEED,
                    role: Role::Enemy,
                    formation: Some(f),
                };
                lemma_filter_role_push(olds, e, Role::Enemy);
                lemma_filter_role_push(olds, e, Role::Player);
            }
        }
    }

    /// Attempted once per enemy-fire tick: every live enemy fires one
    /// bullet from its current position; there is no per-enemy cooldown.
    pub fn enemy_fire(&mut self)
        requires
            old(self).wf(),
            old(self).registry.next_id <= u64::MAX - 4,
        ensures
            final(self).wf(),
            final(self).win == old(self).win,
            final(self).score == old(self).score,
            final(self).player_state == old(self).player_state,
            final(self).fire_ready == old(self).fire_ready,
            final(self).active_enemies == old(self).active_enemies,
            final(self).formation_maker == old(self).formation_maker,
            final(self).enemy_spawn_timer == old(self).enemy_spawn_timer,
            final(self).enemy_fire_timer == old(self).enemy_fire_timer,
            final(self).player_spawn_timer == old(self).player_spawn_timer,
            final(self).registry.entities@ == old(self).registry.entities@ + enemy_volley(
                filter_role(old(self).registry.entities@, Role::Enemy),
                old(self).registry.next_id,
            ),
            final(self).registry.next_id == old(self).registry.next_id + count_role(
                old(self).registry.entities@,
                Role::Enemy,
            ),
    {
        proof {
            lemma_filter_role_props(old(self).registry.entities@, Role::Enemy);
        }
        let enemies = self.registry.each(Role::Enemy);
        let n = enemies.len();
        let mut i: usize = 0;
        while i < n
            invariant
                i <= n,
                n == enemies@.len(),
                n <= MAX_ENEMIES,
                enemies@ == filter_role(old(self).registry.entities@, Role::Enemy),
                forall|k: int|
                    0 <= k < n ==> (#[trigger] enemies@[k]).role == Role::Enemy && exists|j: int|
                        0 <= j < old(self).registry.entities@.len() && enemies@[k] == old(
                            self,
                        ).registry.entities@[j],
                old(self).wf(),
                old(self).registry.next_id <= u64::MAX - 4,
                self.registry.wf(),
                count_role(self.registry.entities@, Role::Enemy) == count_role(
                    old(self).registry.entities@,
                    Role::Enemy,
                ),
                count_role(self.registry.entities@, Role::Player) == count_role(
                    old(self).registry.entities@,
                    Role::Player,
                ),
                self.registry.next_id == old(self).registry.next_id + i,
                self.registry.entities@ == old(self).registry.entities@ + enemy_volley(
                    enemies@.take(i as int),
                    old(self).registry.next_id,
                ),
                self.win == old(self).win,
                self.score == old(self).score,
                self.player_state == old(self).player_state,
                self.fire_ready == old(self).fire_ready,
                self.active_enemies == old(self).active_enemies,
                self.formation_maker == old(self).formation_maker,
                self.enemy_spawn_timer == old(self).enemy_spawn_timer,
                self.enemy_fire_timer == old(self).enemy_fire_timer,
                self.player_spawn_timer == old(self).player_spawn_timer,
            decreases n - i,
        {
            let e = enemies[i];
            proof {
                assert(exists|j: int|
                    0 <= j < old(self).registry.entities@.len() && enemies@[i as int] == old(
                        self,
                    ).registry.entities@[j]);
                let j = choose|j: int|
                    0 <= j < old(self).registry.entities@.len() && enemies@[i as int] == old(
                        self,
                    ).registry.entities@[j];
                assert(crate::entity::entity_wf(old(self).registry.entities@[j]));
            }
            let pos = e.pos;
            let size = Vec2 { x: 2000, y: 16000 };
            let _id = self.registry.create(Role::EnemyBullet, pos, size, DEFAULT_SPEED, None);
            proof {
                let before = old(self).registry.entities@ + enemy_volley(
                    enemies@.take(i as int),
                    old(self).registry.next_id,
                );
                let b = Entity {
                    id: (old(self).registry.next_id + i) as u64,
                    pos,
                    size,
                    speed: DEFAULT_SPEED,
                    role: Role::EnemyBullet,
                    formation: None,
                };
                lemma_filter_role_push(before, b, Role::Enemy);
                lemma_filter_role_push(before, b, Role::Player);
                assert(enemy_volley(enemies@.take(i as int + 1), old(self).registry.next_id)
                    =~= enemy_volley(enemies@.take(i as int), old(self).registry.next_id).push(b));
                assert(self.registry.entities@ =~= old(self).registry.entities@ + enemy_volley(
                    enemies@.take(i as int + 1),
                    old(self).registry.next_id,
                ));
            }
            i = i + 1;
        }
        proof {
            assert(enemies@.take(n as int) =~= enemies@);
        }
    }

    /// Input-gated: if the player is alive, a held fire intent launches
    /// one bullet from the player's position and clears the fire latch;
    /// releasing the intent re-arms it. A second bullet cannot be fired
    /// until the intent has been released.
    pub fn player_fire(&mut self, fire_held: bool, fire_just_released: bool)
        requires
            old(self).wf(),
            old(self).registry.next_id < u64::MAX,
        ensures
            final(self).wf(),
            final(self).win == old(self).win,
            final(self).score == old(self).score,
            final(self).player_state == old(self).player_state,
            final(self).active_enemies == old(self).active_enemies,
            final(self).formation_maker == old(self).formation_maker,
            final(self).enemy_spawn_timer == old(self).enemy_spawn_timer,
            final(self).enemy_fire_timer == old(self).enemy_fire_timer,
            final(self).player_spawn_timer == old(self).player_spawn_timer,
            !old(self).player_state.alive ==> *final(self) == *old(self),
            old(self).player_state.alive ==> ({
                let p = filter_role(old(self).registry.entities@, Role::Player)[0];
                &&& (fire_held && old(self).fire_ready.0) ==> ({
                    &&& final(self).registry.entities@ == old(self).registry.entities@.push(
                        (Entity {
                            id: old(self).registry.next_id,
                            pos: p.pos,
                            size: (Vec2 { x: 2000, y: 4000 }),
                            speed: DEFAULT_SPEED,
                            role: Role::PlayerBullet,
                            formation: None,
                        }),
                    )
                    &&& final(self).fire_ready.0 == fire_just_released
                    &&& final(self).registry.next_id == old(self).registry.next_id + 1
                })
                &&& !(fire_held && old(self).fire_ready.0) ==> ({
                    &&& final(self).registry == old(self).registry
                    &&& final(self).fire_ready.0 == (old(self).fire_ready.0
                        || fire_just_released)
                })
            }),
    {
        proof {
            lemma_filter_role_props(old(self).registry.entities@, Role::Player);
        }
        let players = self.registry.each(Role::Player);
        if players.len() > 0 {
            let p = players[0];
            if fire_held && self.fire_ready.0 {
                self.fire_ready.0 = false;
                let size = Vec2 { x: 2000, y: 4000 };
                let _id = self.registry.create(
                    Role::PlayerBullet,
                    p.pos,
                    size,
                    DEFAULT_SPEED,
                    None,
                );
                proof {
                    let olds = old(self).registry.entities@;
                    let b = Entity {
                        id: old(self).registry.next_id,
                        pos: p.pos,
                        size,
                        speed: DEFAULT_SPEED,
                        role: Role::PlayerBullet,
                        formation: None,
                    };
                    lemma_filter_role_push(olds, b, Role::Enemy);
                    lemma_filter_role_push(olds, b, Role::Player);
                }
            }
            if fire_just_released {
                self.fire_ready.0 = true;
            }
        }
    }

    /// Attempted once per player-spawn tick: under the lifecycle gate
    /// (dead, and either no death recorded or the grace period elapsed)
    /// it promotes the current score into the best score if greater,
    /// resets the current score, creates the player at the bottom of the
    /// window, and re-arms the fire latch.
    pub fn spawn_player(&mut self, now_ms: u64)
        requires
            old(self).wf(),
            old(self).registry.next_id < u64::MAX,
            now_ms <= TIME_LIMIT_MS,
        ensures
            final(self).wf(),
            final(self).win == old(self).win,
            final(self).active_enemies == old(self).active_enemies,
            final(self).formation_maker == old(self).formation_maker,
            final(self).enemy_spawn_timer == old(self).enemy_spawn_timer,
            final(self).enemy_fire_timer == old(self).enemy_fire_timer,
            final(self).player_spawn_timer == old(self).player_spawn_timer,
            respawn_allowed(old(self).player_state, now_ms) ==> ({
                &&& final(self).player_state.alive == true
                &&& final(self).player_state.last_death == old(self).player_state.last_death
                &&& final(self).score.1 == (if old(self).score.0 > old(self).score.1 {
                    old(self).score.0
                } else {
                    old(self).score.1
                })
                &&& final(self).score.0 == 0
                &&& final(self).fire_ready.0 == true
                &&& final(self).registry.entities@ == old(self).registry.entities@.push(
                    (Entity {
                        id: old(self).registry.next_id,
                        pos: (Vec2 { x: 0, y: ((10000 - div_floor_h(old(self).win.h)) as i64) }),
                        size: (Vec2 { x: 10000, y: 10000 }),
                        speed: DEFAULT_SPEED,
                        role: Role::Player,
                        formation: None,
                    }),
                )
                &&& final(self).registry.next_id == old(self).registry.next_id + 1
            }),
            !respawn_allowed(old(self).player_state, now_ms) ==> *final(self) == *old(self),
    {
        let gate: bool = !self.player_state.alive && (self.player_state.last_death == 0 || now_ms
            >= self.player_state.last_death + RESPAWN_DELAY_MS);
        if gate {
            self.player_state.spawn();
            if self.score.0 > self.score.1 {
                self.score.1 = self.score.0;
            }
            self.score.0 = 0;
            let bottom: i64 = -div_u(self.win.h, 2);
            let pos = Vec2 { x: 0, y: bottom + 10000 };
            let size = Vec2 { x: 10000, y: 10000 };
            let _id = self.registry.create(Role::Player, pos, size, DEFAULT_SPEED, None);
            self.fire_ready.0 = true;
            proof {
                let olds = old(self).registry.entities@;
                let e = Entity {
                    id: old(self).registry.next_id,
                    pos,
                    size,
                    speed: DEFAULT_SPEED,
                    role: Role::Player,
                    formation: None,
                };
                lemma_filter_role_push(olds, e, Role::Enemy);
                lemma_filter_role_push(olds, e, Role::Player);
            }
        }
    }
}

/// An elapsed-time cadence gate: the accumulator fires once it reaches
/// its period.
pub open spec fn timer_fires(t: u64, dt: u64, period: u64) -> bool {
    t + dt >= period
}

/// The accumulator after one tick of `dt` elapsed time: it keeps the
/// remainder when it fires.
pub open spec fn step_timer(t: u64, dt: u64, period: u64) -> u64 {
    if t + dt >= period {
        (t + dt - period) as u64
    } else {
        (t + dt) as u64
    }
}

/// The mathematical state of the simulation: the registry contents as a
/// sequence together with the plain control state. Every pass of the
/// tick pipeline is a function on this model.
pub ghost struct WorldModel {
    pub entities: Seq<Entity>,
    pub next_id: u64,
    pub active: u32,
    pub maker: FormationMaker,
    pub score: HighScore,
    pub player: PlayerState,
    pub fire_ready: bool,
    pub win: WinSize,
    pub spawn_timer: u64,
    pub fire_timer: u64,
    pub respawn_timer: u64,
}

impl World {
    pub open spec fn model(self) -> WorldModel {
        WorldModel {
            entities: self.registry.entities@,
            next_id: self.registry.next_id,
            active: self.active_enemies.0,
            maker: self.formation_maker,
            score: self.score,
            player: self.player_state,
            fire_ready: self.fire_ready.0,
            win: self.win,
            spawn_timer: self.enemy_spawn_timer,
            fire_timer: self.enemy_fire_timer,
            respawn_timer: self.player_spawn_timer,
        }
    }
}

/// All three cadence accumulators advanced by one tick of elapsed time.
pub open spec fn step_timers_m(m: WorldModel, dt: u64) -> WorldModel {
    WorldModel {
        spawn_timer: step_timer(m.spawn_timer, dt, ENEMY_SPAWN_PERIOD_MS),
        fire_timer: step_timer(m.fire_timer, dt, ENEMY_FIRE_PERIOD_MS),
        respawn_timer: step_timer(m.respawn_timer, dt, PLAYER_SPAWN_PERIOD_MS),
        ..m
    }
}

/// The enemy-spawn pass under an open population cap: one enemy appears
/// at the start point of the assigned formation. `maker2` is the
/// generator state after the assignment, the one place randomness enters
/// a tick; `spawn_enemy`'s contract bounds it.
pub open spec fn spawn_enemy_m(m: WorldModel, maker2: FormationMaker) -> WorldModel {
    WorldModel {
        entities: m.entities.push(
            Entity {
                id: m.next_id,
                pos: Vec2 {
                    x: maker2.current.unwrap().start_x,
                    y: maker2.current.unwrap().start_y,
                },
                size: Vec2 { x: 36000, y: 12000 },
                speed: DEFAULT_SPEED,
                role: Role::Enemy,
                formation: maker2.current,
            },
        ),
        next_id: (m.next_id + 1) as u64,
        active: (m.active + 1) as u32,
        maker: maker2,
        ..m
    }
}

/// The enemy-fire pass: every live enemy fires one bullet.
pub open spec fn enemy_fire_m(m: WorldModel) -> WorldModel {
    WorldModel {
        entities: m.entities + enemy_volley(filter_role(m.entities, Role::Enemy), m.next_id),
        next_id: (m.next_id + count_role(m.entities, Role::Enemy)) as u64,
        ..m
    }
}

/// The input-gated player-fire pass with its single-shot latch.
pub open spec fn player_fire_m(m: WorldModel, held: bool, released: bool) -> WorldModel {
    if !m.player.alive {
        m
    } else {
        let p = filter_role(m.entities, Role::Player)[0];
        if held && m.fire_ready {
            WorldModel {
                entities: m.entities.push(
                    Entity {
                        id: m.next_id,
                        pos: p.pos,
                        size: Vec2 { x: 2000, y: 4000 },
                        speed: DEFAULT_SPEED,
                        role: Role::PlayerBullet,
                        formation: None,
                    },
                ),
                next_id: (m.next_id + 1) as u64,
                fire_ready: released,
                ..m
            }
        } else {
            WorldModel { fire_ready: m.fire_ready || released, ..m }
        }
    }
}

/// The player-motion pass, pointwise over the registry.
pub open spec fn player_movement_m(m: WorldModel, move_left: bool, move_right: bool) -> WorldModel {
    WorldModel {
        entities: Seq::new(m.entities.len(), |i: int| player_step(m.entities[i], move_left, move_right)),
        ..m
    }
}

/// The formation-arc pass, pointwise over the registry.
pub open spec fn enemy_movement_m(m: WorldModel) -> WorldModel {
    WorldModel { entities: Seq::new(m.entities.len(), |i: int| enemy_step_s(m.entities[i])), ..m }
}

/// The player-bullet motion pass.
pub open spec fn bullet_movement_m(m: WorldModel) -> WorldModel {
    WorldModel { entities: pbullets_moved(m.entities, m.win.h), ..m }
}

/// The enemy-bullet motion pass.
pub open spec fn e_bullet_movement_m(m: WorldModel) -> WorldModel {
    WorldModel { entities: ebullets_moved(m.entities, m.win.h), ..m }
}

/// The player-bullets-versus-enemies combat pass.
pub open spec fn bullet_hit_m(m: WorldModel) -> WorldModel {
    let sc = scan_all(
        filter_role(m.entities, Role::PlayerBullet),
        filter_role(m.entities, Role::Enemy),
        Seq::<u64>::empty(),
        Seq::<u64>::empty(),
    );
    WorldModel {
        entities: remove_ids(remove_ids(m.entities, sc.0), sc.1),
        score: HighScore(score_after(m.score.0, sc.0.len()), m.score.1),
        active: (m.active - sc.0.len()) as u32,
        ..m
    }
}

/// The enemy-bullets-versus-player combat pass.
pub open spec fn e_bullet_hit_m(m: WorldModel, now: u64) -> WorldModel {
    if !m.player.alive {
        m
    } else {
        let p = filter_role(m.entities, Role::Player)[0];
        let hits = hit_bullet_ids(filter_role(m.entities, Role::EnemyBullet), p);
        if hits.len() == 0 {
            m
        } else {
            WorldModel {
                entities: remove_id(remove_ids(m.entities, hits), p.id),
                player: PlayerState { alive: false, last_death: now },
                ..m
            }
        }
    }
}

/// The lifecycle pass: a gated respawn with score promotion and reset.
pub open spec fn spawn_player_m(m: WorldModel, now: u64) -> WorldModel {
    if !respawn_allowed(m.player, now) {
        m
    } else {
        WorldModel {
            entities: m.entities.push(
                Entity {
                    id: m.next_id,
                    pos: Vec2 { x: 0, y: ((10000 - div_floor_h(m.win.h)) as i64) },
                    size: Vec2 { x: 10000, y: 10000 },
                    speed: DEFAULT_SPEED,
                    role: Role::Player,
                    formation: None,
                },
            ),
            next_id: (m.next_id + 1) as u64,
            score: HighScore(
                0,
                if m.score.0 > m.score.1 {
                    m.score.0
                } else {
                    m.score.1
                },
            ),
            player: PlayerState { alive: true, last_death: m.player.last_death },
            fire_ready: true,
            ..m
        }
    }
}

/// The input, motion, combat, and lifecycle passes of one tick, after
/// the two enemy cadence gates have run.
pub open spec fn tick_tail_m(
    m: WorldModel,
    now: u64,
    move_left: bool,
    move_right: bool,
    fire_held: bool,
    fire_just_released: bool,
    respawn_gate: bool,
) -> WorldModel {
    let m3 = player_fire_m(m, fire_held, fire_just_released);
    let m4 = player_movement_m(m3, move_left, move_right);
    let m5 = enemy_movement_m(m4);
    let m6 = bullet_movement_m(m5);
    let m7 = e_bullet_movement_m(m6);
    let m8 = bullet_hit_m(m7);
    let m9 = e_bullet_hit_m(m8, now);
    if respawn_gate {
        spawn_player_m(m9, now)
    } else {
        m9
    }
}

/// One whole tick as an ordered pipeline: cadence gates evaluated on
/// accumulated elapsed time, then spawn controller (enemy spawn, enemy
/// fire, player fire), motion integrator, combat resolver, and the
/// player lifecycle check. `maker2` is the formation-generator state
/// after the spawn pass, the one quantity randomness decides.
pub open spec fn tick_pipeline(
    m: WorldModel,
    dt: u64,
    now: u64,
    move_left: bool,
    move_right: bool,
    fire_held: bool,
    fire_just_released: bool,
    maker2: FormationMaker,
) -> WorldModel {
    let m0 = step_timers_m(m, dt);
    let m1 = if timer_fires(m.spawn_timer, dt, ENEMY_SPAWN_PERIOD_MS) && m.active
        < MAX_ENEMIES {
        spawn_enemy_m(m0, maker2)
    } else {
        m0
    };
    let m2 = if timer_fires(m.fire_timer, dt, ENEMY_FIRE_PERIOD_MS) {
        enemy_fire_m(m1)
    } else {
        m1
    };
    tick_tail_m(
        m2,
        now,
        move_left,
        move_right,
        fire_held,
        fire_just_released,
        timer_fires(m.respawn_timer, dt, PLAYER_SPAWN_PERIOD_MS),
    )
}

impl World {
    /// One simulation tick, as the fixed-timestep driver runs it: spawn
    /// controller (enemy spawn and fire on their own elapsed-time
    /// cadences, input-gated player fire), motion integrator, combat
    /// resolver, then the player lifecycle check on its own cadence.
    ///
    /// The whole outcome is the ordered pipeline `tick_pipeline` over the
    /// world's model; the formation-generator state after the spawn pass
    /// is the one quantity randomness decides, and the contract bounds it
    /// exactly as the generator's own contract does. After any tick the
    /// enemy counter equals the live enemy population and never exceeds
    /// the cap, and a recorded death blocks a respawn until the grace
    /// period has elapsed.
    #[verifier::rlimit(100)]
    #[verifier::spinoff_prover]
    pub fn tick(
        &mut self,
        dt_ms: u64,
        now_ms: u64,
        move_left: bool,
        move_right: bool,
        fire_held: bool,
        fire_just_released: bool,
    )
        requires
            old(self).wf(),
            dt_ms <= 100,
            now_ms <= TIME_LIMIT_MS,
            old(self).registry.next_id <= u64::MAX - 8,
            old(self).formation_maker.seq_id < u32::MAX,
        ensures
            final(self).wf(),
            final(self).active_enemies.0 == count_role(
                final(self).registry.entities@,
                Role::Enemy,
            ),
            final(self).active_enemies.0 <= MAX_ENEMIES,
            (!old(self).player_state.alive && old(self).player_state.last_death != 0 && now_ms
                < old(self).player_state.last_death + RESPAWN_DELAY_MS) ==> final(self)
                .player_state.alive == false,
            final(self).win == old(self).win,
            final(self).enemy_spawn_timer == step_timer(
                old(self).enemy_spawn_timer,
                dt_ms,
                ENEMY_SPAWN_PERIOD_MS,
            ),
            final(self).enemy_fire_timer == step_timer(
                old(self).enemy_fire_timer,
                dt_ms,
                ENEMY_FIRE_PERIOD_MS,
            ),
            final(self).player_spawn_timer == step_timer(
                old(self).player_spawn_timer,
                dt_ms,
                PLAYER_SPAWN_PERIOD_MS,
            ),
            final(self).model() == tick_pipeline(
                old(self).model(),
                dt_ms,
                now_ms,
                move_left,
                move_right,
                fire_held,
                fire_just_released,
                final(self).formation_maker,
            ),
            !(timer_fires(old(self).enemy_spawn_timer, dt_ms, ENEMY_SPAWN_PERIOD_MS) && old(
                self,
            ).active_enemies.0 < MAX_ENEMIES) ==> final(self).formation_maker == old(
                self,
            ).formation_maker,
            (timer_fires(old(self).enemy_spawn_timer, dt_ms, ENEMY_SPAWN_PERIOD_MS) && old(
                self,
            ).active_enemies.0 < MAX_ENEMIES) ==> ({
                &&& final(self).formation_maker.current is Some
                &&& formation_wf(final(self).formation_maker.current.unwrap())
                &&& (old(self).formation_maker.current is Some
                    && old(self).formation_maker.current_members < FORMATION_SIZE) ==> ({
                    &&& final(self).formation_maker.current == old(self).formation_maker.current
                    &&& final(self).formation_maker.current_members == old(
                        self,
                    ).formation_maker.current_members + 1
                    &&& final(self).formation_maker.seq_id == old(self).formation_maker.seq_id
                })
                &&& (old(self).formation_maker.current is None
                    || old(self).formation_maker.current_members >= FORMATION_SIZE) ==> ({
                    let f = final(self).formation_maker.current.unwrap();
                    &&& final(self).formation_maker.current_members == 1
                    &&& final(self).formation_maker.seq_id == old(self).formation_maker.seq_id
                        + 1
                    &&& (f.start_x == old(self).win.w as int / 2 || f.start_x == -(old(
                        self,
                    ).win.w as int / 2))
                    &&& -(old(self).win.h as int / 2 - 100000) <= f.start_y < old(
                        self,
                    ).win.h as int / 2 - 100000
                    &&& -(old(self).win.w as int / 4) <= f.offset_x < old(self).win.w as int / 4
                    &&& 0 <= f.offset_y < old(self).win.h as int / 2 - 100000
                    &&& 80000 <= f.radius_x < 150000
                    &&& f.radius_y == 100000
                    &&& f.angle == atan2_mrad_s(
                        f.start_y - f.offset_x as int,
                        f.start_x - f.offset_y as int,
                    )
                })
            }),
    {
        let fires_spawn: bool;
        let fires_fire: bool;
        let fires_respawn: bool;
        self.enemy_spawn_timer = self.enemy_spawn_timer + dt_ms;
        if self.enemy_spawn_timer >= ENEMY_SPAWN_PERIOD_MS {
            self.enemy_spawn_timer = self.enemy_spawn_timer - ENEMY_SPAWN_PERIOD_MS;
            fires_spawn = true;
        } else {
            fires_spawn = false;
        }
        self.enemy_fire_timer = self.enemy_fire_timer + dt_ms;
        if self.enemy_fire_timer >= ENEMY_FIRE_PERIOD_MS {
            self.enemy_fire_timer = self.enemy_fire_timer - ENEMY_FIRE_PERIOD_MS;
            fires_fire = true;
        } else {
            fires_fire = false;
        }
        self.player_spawn_timer = self.player_spawn_timer + dt_ms;
        if self.player_spawn_timer >= PLAYER_SPAWN_PERIOD_MS {
            self.player_spawn_timer = self.player_spawn_timer - PLAYER_SPAWN_PERIOD_MS;
            fires_respawn = true;
        } else {
            fires_respawn = false;
        }
        let ghost m = old(self).model();
        let ghost m0 = step_timers_m(m, dt_ms);
        proof {
            assert(fires_spawn == timer_fires(m.spawn_timer, dt_ms, ENEMY_SPAWN_PERIOD_MS));
            assert(fires_fire == timer_fires(m.fire_timer, dt_ms, ENEMY_FIRE_PERIOD_MS));
            assert(fires_respawn == timer_fires(m.respawn_timer, dt_ms, PLAYER_SPAWN_PERIOD_MS));
            assert(self.model() == m0);
        }
        if fires_spawn {
            self.spawn_enemy();
        }
        let ghost mk = self.formation_maker;
        let ghost m1 = if fires_spawn && m.active < MAX_ENEMIES {
            spawn_enemy_m(m0, mk)
        } else {
            m0
        };
        proof {
            assert(self.model() == m1);
        }
        if fires_fire {
            self.enemy_fire();
        }
        let ghost m2 = if fires_fire {
            enemy_fire_m(m1)
        } else {
            m1
        };
        proof {
            assert(self.model() == m2);
        }
        self.tick_tail(now_ms, move_left, move_right, fire_held, fire_just_released, fires_respawn);
        proof {
            assert(self.model() == tick_tail_m(
                m2,
                now_ms,
                move_left,
                move_right,
                fire_held,
                fire_just_released,
                fires_respawn,
            ));
            assert(self.formation_maker == mk);
            assert(self.model() == tick_pipeline(
                m,
                dt_ms,
                now_ms,
                move_left,
                move_right,
                fire_held,
                fire_just_released,
                mk,
            ));
        }
    }

    /// The input, motion, combat, and lifecycle passes of one tick, run
    /// in order after the enemy cadence gates.
    #[verifier::rlimit(100)]
    #[verifier::spinoff_prover]
    fn tick_tail(
        &mut self,
        now_ms: u64,
        move_left: bool,
        move_right: bool,
        fire_held: bool,
        fire_just_released: bool,
        respawn_gate: bool,
    )
        requires
            old(self).wf(),
            now_ms <= TIME_LIMIT_MS,
            old(self).registry.next_id <= u64::MAX - 2,
        ensures
            final(self).wf(),
            final(self).model() == tick_tail_m(
                old(self).model(),
                now_ms,
                move_left,
                move_right,
                fire_held,
                fire_just_released,
                respawn_gate,
            ),
            final(self).formation_maker == old(self).formation_maker,
            final(self).enemy_spawn_timer == old(self).enemy_spawn_timer,
            final(self).enemy_fire_timer == old(self).enemy_fire_timer,
            final(self).player_spawn_timer == old(self).player_spawn_timer,
            final(self).win == old(self).win,
            (!old(self).player_state.alive && !respawn_allowed(
                old(self).player_state,
                now_ms,
            )) ==> final(self).player_state.alive == false,
    {
        let ghost m2 = old(self).model();
        self.player_fire(fire_held, fire_just_released);
        let ghost m3 = player_fire_m(m2, fire_held, fire_just_released);
        proof {
            assert(self.model() == m3);
        }
        self.player_movement(move_left, move_right);
        let ghost m4 = player_movement_m(m3, move_left, move_right);
        proof {
            assert(self.model().entities =~= m4.entities);
            assert(self.model() == m4);
        }
        self.enemy_movement();
        let ghost m5 = enemy_movement_m(m4);
        proof {
            assert(self.model().entities =~= m5.entities);
            assert(self.model() == m5);
        }
        self.bullet_movement();
        let ghost m6 = bullet_movement_m(m5);
        proof {
            assert(self.model() == m6);
        }
        self.e_bullet_movement();
        let ghost m7 = e_bullet_movement_m(m6);
        proof {
            assert(self.model() == m7);
        }
        self.bullet_hit();
        let ghost m8 = bullet_hit_m(m7);
        proof {
            assert(self.model() == m8);
        }
        self.e_bullet_hit(now_ms);
        let ghost m9 = e_bullet_hit_m(m8, now_ms);
        proof {
            assert(self.model() == m9);
        }
        if respawn_gate {
            self.spawn_player(now_ms);
        }
        proof {
            let mz = if respawn_gate {
                spawn_player_m(m9, now_ms)
            } else {
                m9
            };
            assert(self.model() == mz);
        }
    }
}

/// Half of a positive window dimension, as the registry and the spawn
/// contracts state it.
pub open spec fn div_floor_h(h: i64) -> int {
    h as int / 2
}

/// One bullet as a live enemy fires it: at the enemy's position, with the
/// enemy-bullet extent and the default speed.
pub open spec fn enemy_shot(e: Entity, id: u64) -> Entity {
    Entity {
        id,
        pos: e.pos,
        size: Vec2 { x: 2000, y: 16000 },
        speed: DEFAULT_SPEED,
        role: Role::EnemyBullet,
        formation: None,
    }
}

/// The volley of bullets a sequence of enemies fires, with fresh
/// consecutive identifiers starting at `base`.
pub open spec fn enemy_volley(enemies: Seq<Entity>, base: u64) -> Seq<Entity> {
    Seq::new(enemies.len(), |i: int| enemy_shot(enemies[i], (base + i) as u64))
}

} // verus!
