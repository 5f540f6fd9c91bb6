use vstd::prelude::*;
use crate::geom::Vec2;
use crate::geom::abs_v;
use crate::geom::COORD_LIMIT;
use crate::entity::Entity;
use crate::entity::Role;
use crate::entity::entity_wf;
use crate::entity::all_wf;
use crate::entity::ids_distinct;
use crate::entity::count_role;
use crate::entity::lemma_filter_role_push;
use crate::entity::lemma_count_role_pointwise;
use crate::formation::Formation;
use crate::formation::formation_wf;
use crate::fixmath::div_u;
use crate::fixmath::isqrt;
use crate::fixmath::isqrt_s;
use crate::fixmath::sin_mrad;
use crate::fixmath::sin_mrad_s;
use crate::fixmath::cos_mrad;
use crate::fixmath::cos_mrad_s;
use crate::fixmath::wrap_angle;
use crate::fixmath::wrap_angle_s;
use crate::fixmath::lemma_div_at_most;
use crate::world::World;
use vstd::arithmetic::div_mod::lemma_div_pos_is_pos;
use vstd::arithmetic::div_mod::lemma_div_nonincreasing;

verus! {

/// Truncating (round-toward-zero) division, as the target-point scaling
/// performs it.
pub open spec fn mul_div_trunc(p: int, d: int) -> int {
    if p >= 0 {
        p / d
    } else {
        -((-p) / d)
    }
}

fn mul_div_1000(a: i64, b: i64) -> (r: i64)
    requires
        0 <= a <= 150000,
        -1000 <= b <= 1000,
    ensures
        r == mul_div_trunc(a as int * b as int, 1000),
        -150000 <= r <= 150000,
{
    proof {
        assert(a as int * b as int <= 150000000 && a as int * b as int >= -150000000)
            by (nonlinear_arith)
            requires
                0 <= a <= 150000,
                -1000 <= b <= 1000,
        ;
    }
    let p: i64 = a * b;
    if p >= 0 {
        proof {
            lemma_div_at_most(p as int, 1000, 150000);
        }
        div_u(p, 1000)
    } else {
        proof {
            lemma_div_at_most(-p as int, 1000, 150000);
        }
        -div_u(-p, 1000)
    }
}

/// One tick of horizontal player motion: a directional intent moves the
/// player by speed times the fixed time step, saturating at the
/// coordinate limit; every other entity is untouched.
pub open spec fn player_step(e: Entity, move_left: bool, move_right: bool) -> Entity {
    if !(e.role is Player) {
        e
    } else {
        let step = e.speed as int / 60;
        let d = if move_left {
            -step
        } else if move_right {
            step
        } else {
            0int
        };
        let nx = if e.pos.x + d > COORD_LIMIT {
            COORD_LIMIT as int
        } else if e.pos.x + d < -COORD_LIMIT {
            -COORD_LIMIT as int
        } else {
            e.pos.x + d
        };
        Entity {
            id: e.id,
            pos: Vec2 { x: nx as i64, y: e.pos.y },
            size: e.size,
            speed: e.speed,
            role: e.role,
            formation: e.formation,
        }
    }
}

/// One player bullet advanced by one tick of linear upward motion.
pub open spec fn pbullet_step(e: Entity) -> Entity {
    if !(e.role is PlayerBullet) {
        e
    } else {
        Entity {
            id: e.id,
            pos: Vec2 { x: e.pos.x, y: (e.pos.y + e.speed as int / 60) as i64 },
            size: e.size,
            speed: e.speed,
            role: e.role,
            formation: e.formation,
        }
    }
}

/// Player bullets after one tick: each moves up by speed times the time
/// step and is destroyed once it crosses the top visible boundary; every
/// other entity is untouched.
pub open spec fn pbullets_moved(s: Seq<Entity>, h: i64) -> Seq<Entity>
    decreases s.len(),
{
    if s.len() == 0 {
        Seq::empty()
    } else {
        pbullets_moved(s.drop_last(), h) + ({
            let m = pbullet_step(s.last());
            if m.role is PlayerBullet && m.pos.y > h as int / 2 {
                Seq::<Entity>::empty()
            } else {
                seq![m]
            }
        })
    }
}

/// One enemy bullet advanced by one tick of linear downward motion.
pub open spec fn ebullet_step(e: Entity) -> Entity {
    if !(e.role is EnemyBullet) {
        e
    } else {
        Entity {
            id: e.id,
            pos: Vec2 { x: e.pos.x, y: (e.pos.y - e.speed as int / 60) as i64 },
            size: e.size,
            speed: e.speed,
            role: e.role,
            formation: e.formation,
        }
    }
}

/// Enemy bullets after one tick: each moves down by speed times the time
/// step and is destroyed once it falls 50 units below the bottom edge;
/// every other entity is untouched.
pub open spec fn ebullets_moved(s: Seq<Entity>, h: i64) -> Seq<Entity>
    decreases s.len(),
{
    if s.len() == 0 {
        Seq::empty()
    } else {
        ebullets_moved(s.drop_last(), h) + ({
            let m = ebullet_step(s.last());
            if m.role is EnemyBullet && m.pos.y < -(h as int / 2) - 50000 {
                Seq::<Entity>::empty()
            } else {
                seq![m]
            }
        })
    }
}

proof fn lemma_pbullets_moved_push(s: Seq<Entity>, x: Entity, h: i64)
    ensures
        pbullets_moved(s.push(x), h) == pbullets_moved(s, h) + ({
            let m = pbullet_step(x);
            if m.role is PlayerBullet && m.pos.y > h as int / 2 {
                Seq::<Entity>::empty()
            } else {
                seq![m]
            }
        }),
{
    assert(s.push(x).drop_last() =~= s);
    assert(s.push(x).last() == x);
}

proof fn lemma_ebullets_moved_push(s: Seq<Entity>, x: Entity, h: i64)
    ensures
        ebullets_moved(s.push(x), h) == ebullets_moved(s, h) + ({
            let m = ebullet_step(x);
            if m.role is EnemyBullet && m.pos.y < -(h as int / 2) - 50000 {
                Seq::<Entity>::empty()
            } else {
                seq![m]
            }
        }),
{
    assert(s.push(x).drop_last() =~= s);
    assert(s.push(x).last() == x);
}

#[verifier::rlimit(60)]
#[verifier::spinoff_prover]
proof fn lemma_pbullets_moved_props(s: Seq<Entity>, h: i64)
    requires
        ids_distinct(s),
        all_wf(s),
        0 < h <= 1048576,
    ensures
        ids_distinct(pbullets_moved(s, h)),
        all_wf(pbullets_moved(s, h)),
        pbullets_moved(s, h).len() <= s.len(),
        forall|k: int|
            0 <= k < pbullets_moved(s, h).len() ==> exists|i: int|
                0 <= i < s.len() && (#[trigger] pbullets_moved(s, h)[k]).id == s[i].id,
        count_role(pbullets_moved(s, h), Role::Enemy) == count_role(s, Role::Enemy),
        count_role(pbullets_moved(s, h), Role::Player) == count_role(s, Role::Player),
    decreases s.len(),
{
    if s.len() > 0 {
        let t = s.drop_last();
        let x = s.last();
        assert(forall|i: int| 0 <= i < t.len() ==> t[i] == s[i]);
        assert(entity_wf(x));
        lemma_pbullets_moved_props(t, h);
        let mt = pbullets_moved(t, h);
        let ms = pbullets_moved(s, h);
        let m = pbullet_step(x);
        lemma_div_pos_is_pos(x.speed as int, 60);
        lemma_div_nonincreasing(x.speed as int, 60);
        assert(m.id == x.id && m.role == x.role && m.size == x.size && m.speed == x.speed);
        lemma_div_pos_is_pos(h as int, 2);
        lemma_div_nonincreasing(h as int, 2);
        if m.role is PlayerBullet && m.pos.y > h as int / 2 {
            assert(ms =~= mt);
            assert(count_role(s, Role::Enemy) == count_role(t, Role::Enemy));
            assert(count_role(s, Role::Player) == count_role(t, Role::Player));
        } else {
            assert(ms =~= mt.push(m));
            assert(entity_wf(m));
            assert forall|k: int| 0 <= k < ms.len() implies exists|i: int|
                0 <= i < s.len() && (#[trigger] ms[k]).id == s[i].id by {
                if k < mt.len() {
                    assert(mt[k].id == ms[k].id);
                    let i = choose|i: int| 0 <= i < t.len() && mt[k].id == t[i].id;
                    assert(ms[k].id == s[i].id);
                } else {
                    assert(ms[k].id == s[s.len() - 1].id);
                }
            }
            assert forall|i: int, j: int| 0 <= i < j < ms.len() implies ms[i].id != ms[j].id by {
                if j < mt.len() {
                    assert(mt[i].id != mt[j].id);
                } else {
                    let i0 = choose|i0: int| 0 <= i0 < t.len() && mt[i].id == t[i0].id;
                    assert(s[i0].id != x.id);
                }
            }
            assert forall|k: int| 0 <= k < ms.len() implies entity_wf(#[trigger] ms[k]) by {
                if k < mt.len() {
                    assert(entity_wf(mt[k]));
                }
            }
            assert(count_role(ms, Role::Enemy) == count_role(mt, Role::Enemy) + (if m.role
                is Enemy {
                1int
            } else {
                0int
            })) by {
                assert(ms =~= mt.push(m));
                lemma_filter_role_push(mt, m, Role::Enemy);
            }
            assert(count_role(ms, Role::Player) == count_role(mt, Role::Player) + (if m.role
                is Player {
                1int
            } else {
                0int
            })) by {
                lemma_filter_role_push(mt, m, Role::Player);
            }
        }
    }
}

#[verifier::rlimit(60)]
#[verifier::spinoff_prover]
proof fn lemma_ebullets_moved_props(s: Seq<Entity>, h: i64)
    requires
        ids_distinct(s),
        all_wf(s),
        0 < h <= 1048576,
    ensures
        ids_distinct(ebullets_moved(s, h)),
        all_wf(ebullets_moved(s, h)),
        ebullets_moved(s, h).len() <= s.len(),
        forall|k: int|
            0 <= k < ebullets_moved(s, h).len() ==> exists|i: int|
                0 <= i < s.len() && (#[trigger] ebullets_moved(s, h)[k]).id == s[i].id,
        count_role(ebullets_moved(s, h), Role::Enemy) == count_role(s, Role::Enemy),
        count_role(ebullets_moved(s, h), Role::Player) == count_role(s, Role::Player),
    decreases s.len(),
{
    if s.len() > 0 {
        let t = s.drop_last();
        let x = s.last();
        assert(forall|i: int| 0 <= i < t.len() ==> t[i] == s[i]);
        assert(entity_wf(x));
        lemma_ebullets_moved_props(t, h);
        let mt = ebullets_moved(t, h);
        let ms = ebullets_moved(s, h);
        let m = ebullet_step(x);
        lemma_div_pos_is_pos(x.speed as int, 60);
        lemma_div_nonincreasing(x.speed as int, 60);
        assert(m.id == x.id && m.role == x.role && m.size == x.size && m.speed == x.speed);
        if m.role is EnemyBullet && m.pos.y < -(h as int / 2) - 50000 {
            assert(ms =~= mt);
            assert(count_role(s, Role::Enemy) == count_role(t, Role::Enemy));
            assert(count_role(s, Role::Player) == count_role(t, Role::Player));
        } else {
            assert(ms =~= mt.push(m));
            assert(entity_wf(m)) by {
                if m.role is EnemyBullet {
                    lemma_div_pos_is_pos(h as int, 2);
                }
            }
            assert forall|k: int| 0 <= k < ms.len() implies exists|i: int|
                0 <= i < s.len() && (#[trigger] ms[k]).id == s[i].id by {
                if k < mt.len() {
                    assert(mt[k].id == ms[k].id);
                    let i = choose|i: int| 0 <= i < t.len() && mt[k].id == t[i].id;
                    assert(ms[k].id == s[i].id);
                } else {
                    assert(ms[k].id == s[s.len() - 1].id);
                }
            }
            assert forall|i: int, j: int| 0 <= i < j < ms.len() implies ms[i].id != ms[j].id by {
                if j < mt.len() {
                    assert(mt[i].id != mt[j].id);
                } else {
                    let i0 = choose|i0: int| 0 <= i0 < t.len() && mt[i].id == t[i0].id;
                    assert(s[i0].id != x.id);
                }
            }
            assert forall|k: int| 0 <= k < ms.len() implies entity_wf(#[trigger] ms[k]) by {
                if k < mt.len() {
                    assert(entity_wf(mt[k]));
                }
            }
            assert(count_role(ms, Role::Enemy) == count_role(mt, Role::Enemy) + (if m.role
                is Enemy {
                1int
            } else {
                0int
            })) by {
                assert(ms =~= mt.push(m));
                lemma_filter_role_push(mt, m, Role::Enemy);
            }
            assert(count_role(ms, Role::Player) == count_role(mt, Role::Player) + (if m.role
                is Player {
                1int
            } else {
                0int
            })) by {
                lemma_filter_role_push(mt, m, Role::Player);
            }
        }
    }
}

/// One formation enemy advanced by one tick: the phase angle is advanced
/// in proportion to speed over the quarter arc of the smaller radius, a
/// target point is taken on the ellipse at the advanced angle, the enemy
/// moves at most speed times the time step straight toward that target
/// without overshooting it on either axis, and the advanced angle is
/// committed only once the enemy has caught up with the arc.
pub open spec fn enemy_step_s(e: Entity) -> Entity {
    if !(e.role is Enemy) || !(e.formation is Some) {
        e
    } else {
        let f = e.formation.unwrap();
        let max_dist = e.speed as int / 60;
        let min_r: int = if f.radius_x <= f.radius_y {
            f.radius_x as int
        } else {
            f.radius_y as int
        };
        let delta = (e.speed as int * 1000000) / (min_r * 94260);
        let cand = wrap_angle_s(
            f.angle + (if f.start_x > 0 {
                delta
            } else {
                -delta
            }),
        );
        let xd = mul_div_trunc(f.radius_x as int * cos_mrad_s(cand), 1000) + f.offset_x;
        let yd = mul_div_trunc(f.radius_y as int * sin_mrad_s(cand), 1000) + f.offset_y;
        let dx = e.pos.x - xd;
        let dy = e.pos.y - yd;
        let dist = isqrt_s(dx * dx + dy * dy);
        let nx: int = if dist == 0 {
            e.pos.x as int
        } else {
            let mx = (abs_v(dx) * max_dist) / dist;
            let x1 = if dx >= 0 {
                e.pos.x - mx
            } else {
                e.pos.x + mx
            };
            if dx > 0 {
                if x1 >= xd {
                    x1
                } else {
                    xd
                }
            } else {
                if x1 <= xd {
                    x1
                } else {
                    xd
                }
            }
        };
        let ny: int = if dist == 0 {
            e.pos.y as int
        } else {
            let my = (abs_v(dy) * max_dist) / dist;
            let y1 = if dy >= 0 {
                e.pos.y - my
            } else {
                e.pos.y + my
            };
            if dy > 0 {
                if y1 >= yd {
                    y1
                } else {
                    yd
                }
            } else {
                if y1 <= yd {
                    y1
                } else {
                    yd
                }
            }
        };
        let commit = dist < (max_dist * e.speed) / 20000;
        Entity {
            id: e.id,
            pos: Vec2 { x: nx as i64, y: ny as i64 },
            size: e.size,
            speed: e.speed,
            role: e.role,
            formation: Some(
                (Formation {
                    start_x: f.start_x,
                    start_y: f.start_y,
                    offset_x: f.offset_x,
                    offset_y: f.offset_y,
                    radius_x: f.radius_x,
                    radius_y: f.radius_y,
                    angle: (if commit {
                        cand
                    } else {
                        f.angle as int
                    }) as i64,
                    id: f.id,
                }),
            ),
        }
    }
}

#[verifier::rlimit(60)]
#[verifier::spinoff_prover]
fn enemy_step(e: Entity) -> (r: Entity)
    requires
        entity_wf(e),
    ensures
        r == enemy_step_s(e),
        entity_wf(r),
{
    if !(e.role == Role::Enemy) {
        return e;
    }
    let f = match e.formation {
        Some(f) => f,
        None => {
            return e;
        },
    };
    proof {
        lemma_div_at_most(e.speed as int, 60, 17477);
        lemma_div_pos_is_pos(e.speed as int, 60);
    }
    let max_dist: i64 = div_u(e.speed, 60);
    let min_r: i64 = if f.radius_x <= f.radius_y {
        f.radius_x
    } else {
        f.radius_y
    };
    proof {
        assert(e.speed as int * 1000000 <= 1048576000000) by (nonlinear_arith)
            requires
                0 < e.speed <= 1048576,
        ;
        assert(min_r as int * 94260 >= 7540800000 && min_r as int * 94260 <= 9426000000)
            by (nonlinear_arith)
            requires
                80000 <= min_r <= 100000,
        ;
        assert(1048576000000 <= 140 * 7540800000int);
        lemma_div_at_most(e.speed as int * 1000000, min_r as int * 94260, 140);
        lemma_div_pos_is_pos(e.speed as int * 1000000, min_r as int * 94260);
    }
    let num: i64 = e.speed * 1000000;
    let den: i64 = min_r * 94260;
    let delta: i64 = div_u(num, den);
    let cand: i64 = if f.start_x > 0 {
        wrap_angle(f.angle + delta)
    } else {
        wrap_angle(f.angle - delta)
    };
    let cosv: i64 = cos_mrad(cand);
    let sinv: i64 = sin_mrad(cand);
    let xd: i64 = mul_div_1000(f.radius_x, cosv) + f.offset_x;
    let yd: i64 = mul_div_1000(f.radius_y, sinv) + f.offset_y;
    let dx: i64 = e.pos.x - xd;
    let dy: i64 = e.pos.y - yd;
    let adx: i64 = if dx < 0 {
        -dx
    } else {
        dx
    };
    let ady: i64 = if dy < 0 {
        -dy
    } else {
        dy
    };
    proof {
        assert((adx as int * adx as int + ady as int * ady as int)
            < 19342813113834066795298816int)
            by (nonlinear_arith)
            requires
                0 <= adx < 0x20000000000,
                0 <= ady < 0x20000000000,
        ;
        assert(adx as int * adx as int == dx as int * dx as int) by (nonlinear_arith)
            requires
                adx == abs_v(dx as int),
        ;
        assert(ady as int * ady as int == dy as int * dy as int) by (nonlinear_arith)
            requires
                ady == abs_v(dy as int),
        ;
    }
    let sq: u128 = (adx as u128) * (adx as u128) + (ady as u128) * (ady as u128);
    let dist64: u64 = isqrt(sq);
    let dist: i64 = dist64 as i64;
    let nx: i64;
    let ny: i64;
    if dist == 0 {
        nx = e.pos.x;
        ny = e.pos.y;
    } else {
        proof {
            assert(adx as int * max_dist as int <= 0x20000000000int * 17477)
                by (nonlinear_arith)
                requires
                    0 <= adx < 0x20000000000,
                    0 <= max_dist <= 17477,
            ;
            assert(ady as int * max_dist as int <= 0x20000000000int * 17477)
                by (nonlinear_arith)
                requires
                    0 <= ady < 0x20000000000,
                    0 <= max_dist <= 17477,
            ;
        }
        let mx: i64 = div_u(adx * max_dist, dist);
        let my: i64 = div_u(ady * max_dist, dist);
        let x1: i64 = if dx >= 0 {
            e.pos.x - mx
        } else {
            e.pos.x + mx
        };
        let y1: i64 = if dy >= 0 {
            e.pos.y - my
        } else {
            e.pos.y + my
        };
        nx = if dx > 0 {
            if x1 >= xd {
                x1
            } else {
                xd
            }
        } else {
            if x1 <= xd {
                x1
            } else {
                xd
            }
        };
        ny = if dy > 0 {
            if y1 >= yd {
                y1
            } else {
                yd
            }
        } else {
            if y1 <= yd {
                y1
            } else {
                yd
            }
        };
        proof {
            assert(abs_v(xd as int) <= 1198576 && abs_v(yd as int) <= 1198576);
            assert(mx >= 0 && my >= 0);
            if dx == 0 {
                assert(adx == 0);
                assert(adx * max_dist == 0) by (nonlinear_arith)
                    requires
                        adx == 0,
                ;
                assert(mx == 0);
                assert(x1 == e.pos.x);
            }
            if dy == 0 {
                assert(ady == 0);
                assert(ady * max_dist == 0) by (nonlinear_arith)
                    requires
                        ady == 0,
                ;
                assert(my == 0);
                assert(y1 == e.pos.y);
            }
            if dx > 0 {
                assert(x1 <= e.pos.x);
            } else {
                assert(x1 >= e.pos.x || x1 == e.pos.x - mx && dx == 0 && mx == 0);
            }
            assert(nx <= COORD_LIMIT && nx >= -COORD_LIMIT);
            if dy > 0 {
                assert(y1 <= e.pos.y);
            } else {
                assert(y1 >= e.pos.y || y1 == e.pos.y - my && dy == 0 && my == 0);
            }
            assert(ny <= COORD_LIMIT && ny >= -COORD_LIMIT);
        }
    }
    proof {
        assert(max_dist as int * e.speed as int <= 17477 * 1048576) by (nonlinear_arith)
            requires
                0 <= max_dist <= 17477,
                0 < e.speed <= 1048576,
        ;
        assert(max_dist as int * e.speed as int >= 0) by (nonlinear_arith)
            requires
                0 <= max_dist,
                0 < e.speed,
        ;
    }
    proof {
        assert(abs_v(xd as int) <= 1198576 && abs_v(yd as int) <= 1198576);
        assert(-COORD_LIMIT <= nx && nx <= COORD_LIMIT);
        assert(-COORD_LIMIT <= ny && ny <= COORD_LIMIT);
    }
    let thr: i64 = div_u(max_dist * e.speed, 20000);
    let commit: bool = dist < thr;
    let nf = Formation {
        start_x: f.start_x,
        start_y: f.start_y,
        offset_x: f.offset_x,
        offset_y: f.offset_y,
        radius_x: f.radius_x,
        radius_y: f.radius_y,
        angle: if commit {
            cand
        } else {
            f.angle
        },
        id: f.id,
    };
    let r = Entity {
        id: e.id,
        pos: Vec2 { x: nx, y: ny },
        size: e.size,
        speed: e.speed,
        role: e.role,
        formation: Some(nf),
    };
    r
}

impl World {
    /// Moves the player horizontally by this tick's directional intent.
    pub fn player_movement(&mut self, move_left: bool, move_right: bool)
        requires
            old(self).wf(),
        ensures
            final(self).wf(),
            final(self).registry.entities@.len() == old(self).registry.entities@.len(),
            forall|i: int|
                0 <= i < old(self).registry.entities@.len() ==> final(self).registry.entities@[i]
                    == player_step(
                    #[trigger] old(self).registry.entities@[i],
                    move_left,
                    move_right,
                ),
            final(self).registry.next_id == old(self).registry.next_id,
            final(self).win == old(self).win,
            final(self).score == old(self).score,
            final(self).player_state == old(self).player_state,
            final(self).fire_ready == old(self).fire_ready,
            final(self).active_enemies == old(self).active_enemies,
            final(self).formation_maker == old(self).formation_maker,
            final(self).enemy_spawn_timer == old(self).enemy_spawn_timer,
            final(self).enemy_fire_timer == old(self).enemy_fire_timer,
            final(self).player_spawn_timer == old(self).player_spawn_timer,
    {
        let n = self.registry.entities.len();
        let mut i: usize = 0;
        while i < n
            invariant
                i <= n,
                old(self).wf(),
                n == self.registry.entities@.len(),
                n == old(self).registry.entities@.len(),
                forall|k: int|
                    0 <= k < i ==> self.registry.entities@[k] == player_step(
                        #[trigger] old(self).registry.entities@[k],
                        move_left,
                        move_right,
                    ),
                forall|k: int|
                    i <= k < n ==> self.registry.entities@[k] == old(self).registry.entities@[k],
                forall|k: int| 0 <= k < i ==> entity_wf(#[trigger] self.registry.entities@[k]),
                self.registry.next_id == old(self).registry.next_id,
                self.win == old(self).win,
                self.score == old(self).score,
                self.player_state == old(self).player_state,
                self.fire_ready == old(self).fire_ready,
                self.active_enemies == old(self).active_enemies,
                self.formation_maker == old(self).formation_maker,
                self.enemy_spawn_timer == old(self).enemy_spawn_timer,
                self.enemy_fire_timer == old(self).enemy_fire_timer,
                self.player_spawn_timer == old(self).player_spawn_timer,
            decreases n - i,
        {
            let e = self.registry.entities[i];
            proof {
                assert(entity_wf(old(self).registry.entities@[i as int]));
            }
            if e.role == Role::Player {
                proof {
                    lemma_div_pos_is_pos(e.speed as int, 60);
                    lemma_div_nonincreasing(e.speed as int, 60);
                }
                let step: i64 = div_u(e.speed, 60);
                let d: i64 = if move_left {
                    -step
                } else if move_right {
                    step
                } else {
                    0
                };
                let nx0: i64 = e.pos.x + d;
                let nx: i64 = if nx0 > COORD_LIMIT {
                    COORD_LIMIT
                } else if nx0 < -COORD_LIMIT {
                    -COORD_LIMIT
                } else {
                    nx0
                };
                let e2 = Entity {
                    id: e.id,
                    pos: Vec2 { x: nx, y: e.pos.y },
                    size: e.size,
                    speed: e.speed,
                    role: e.role,
                    formation: e.formation,
                };
                self.registry.entities[i] = e2;
            }
            i = i + 1;
        }
        proof {
            let s = self.registry.entities@;
            let o = old(self).registry.entities@;
            assert(forall|k: int|
                0 <= k < n ==> (#[trigger] s[k]).id == o[k].id && s[k].role == o[k].role);
            lemma_count_role_pointwise(s, o, Role::Enemy);
            lemma_count_role_pointwise(s, o, Role::Player);
        }
    }

    /// Advances every player bullet one tick of upward linear motion and
    /// destroys the ones that left through the top of the window.
    pub fn bullet_movement(&mut self)
        requires
            old(self).wf(),
        ensures
            final(self).wf(),
            final(self).registry.entities@ == pbullets_moved(
                old(self).registry.entities@,
                old(self).win.h,
            ),
            final(self).registry.next_id == old(self).registry.next_id,
            final(self).win == old(self).win,
            final(self).score == old(self).score,
            final(self).player_state == old(self).player_state,
            final(self).fire_ready == old(self).fire_ready,
            final(self).active_enemies == old(self).active_enemies,
            final(self).formation_maker == old(self).formation_maker,
            final(self).enemy_spawn_timer == old(self).enemy_spawn_timer,
            final(self).enemy_fire_timer == old(self).enemy_fire_timer,
            final(self).player_spawn_timer == old(self).player_spawn_timer,
    {
        let h = self.win.h;
        let n = self.registry.entities.len();
        let mut out: Vec<Entity> = Vec::new();
        let mut i: usize = 0;
        while i < n
            invariant
                i <= n,
                old(self).wf(),
                h == old(self).win.h,
                n == self.registry.entities@.len(),
                self.registry.entities@ == old(self).registry.entities@,
                out@ == pbullets_moved(old(self).registry.entities@.take(i as int), h),
            decreases n - i,
        {
            let e = self.registry.entities[i];
            proof {
                let o = old(self).registry.entities@;
                assert(entity_wf(o[i as int]));
                assert(o.take(i as int + 1) =~= o.take(i as int).push(o[i as int]));
                lemma_pbullets_moved_push(o.take(i as int), o[i as int], h);
                lemma_div_pos_is_pos(e.speed as int, 60);
                lemma_div_nonincreasing(e.speed as int, 60);
                lemma_div_pos_is_pos(h as int, 2);
            }
            if e.role == Role::PlayerBullet {
                let step: i64 = div_u(e.speed, 60);
                let ny: i64 = e.pos.y + step;
                let top: i64 = div_u(h, 2);
                if !(ny > top) {
                    let e2 = Entity {
                        id: e.id,
                        pos: Vec2 { x: e.pos.x, y: ny },
                        size: e.size,
                        speed: e.speed,
                        role: e.role,
                        formation: e.formation,
                    };
                    out.push(e2);
                }
            } else {
                out.push(e);
            }
            i = i + 1;
        }
        proof {
            assert(old(self).registry.entities@.take(n as int) =~= old(self).registry.entities@);
        }
        self.registry.entities = out;
        proof {
            let o = old(self).registry.entities@;
            lemma_pbullets_moved_props(o, h);
            let ms = pbullets_moved(o, h);
            assert forall|k: int| 0 <= k < ms.len() implies (#[trigger] ms[k]).id < old(
                self,
            ).registry.next_id by {
                let i0 = choose|i0: int| 0 <= i0 < o.len() && ms[k].id == o[i0].id;
                assert(o[i0].id < old(self).registry.next_id);
            }
        }
    }

    /// Advances every enemy bullet one tick of downward linear motion and
    /// destroys the ones that fell 50 units below the bottom edge.
    pub fn e_bullet_movement(&mut self)
        requires
            old(self).wf(),
        ensures
            final(self).wf(),
            final(self).registry.entities@ == ebullets_moved(
                old(self).registry.entities@,
                old(self).win.h,
            ),
            final(self).registry.next_id == old(self).registry.next_id,
            final(self).win == old(self).win,
            final(self).score == old(self).score,
            final(self).player_state == old(self).player_state,
            final(self).fire_ready == old(self).fire_ready,
            final(self).active_enemies == old(self).active_enemies,
            final(self).formation_maker == old(self).formation_maker,
            final(self).enemy_spawn_timer == old(self).enemy_spawn_timer,
            final(self).enemy_fire_timer == old(self).enemy_fire_timer,
            final(self).player_spawn_timer == old(self).player_spawn_timer,
    {
        let h = self.win.h;
        let n = self.registry.entities.len();
        let mut out: Vec<Entity> = Vec::new();
        let mut i: usize = 0;
        while i < n
            invariant
                i <= n,
                old(self).wf(),
                h == old(self).win.h,
                n == self.registry.entities@.len(),
                self.registry.entities@ == old(self).registry.entities@,
                out@ == ebullets_moved(old(self).registry.entities@.take(i as int), h),
            decreases n - i,
        {
            let e = self.registry.entities[i];
            proof {
                let o = old(self).registry.entities@;
                assert(entity_wf(o[i as int]));
                assert(o.take(i as int + 1) =~= o.take(i as int).push(o[i as int]));
                lemma_ebullets_moved_push(o.take(i as int), o[i as int], h);
                lemma_div_pos_is_pos(e.speed as int, 60);
                lemma_div_nonincreasing(e.speed as int, 60);
                lemma_div_pos_is_pos(h as int, 2);
                lemma_div_nonincreasing(h as int, 2);
            }
            if e.role == Role::EnemyBullet {
                let step: i64 = div_u(e.speed, 60);
                let ny: i64 = e.pos.y - step;
                let cutoff: i64 = -div_u(h, 2) - 50000;
                if !(ny < cutoff) {
                    let e2 = Entity {
                        id: e.id,
                        pos: Vec2 { x: e.pos.x, y: ny },
                        size: e.size,
                        speed: e.speed,
                        role: e.role,
                        formation: e.formation,
                    };
                    out.push(e2);
                }
            } else {
                out.push(e);
            }
            i = i + 1;
        }
        proof {
            assert(old(self).registry.entities@.take(n as int) =~= old(self).registry.entities@);
        }
        self.registry.entities = out;
        proof {
            let o = old(self).registry.entities@;
            lemma_ebullets_moved_props(o, h);
            let ms = ebullets_moved(o, h);
            assert forall|k: int| 0 <= k < ms.len() implies (#[trigger] ms[k]).id < old(
                self,
            ).registry.next_id by {
                let i0 = choose|i0: int| 0 <= i0 < o.len() && ms[k].id == o[i0].id;
                assert(o[i0].id < old(self).registry.next_id);
            }
        }
    }

    /// Advances every formation enemy one tick along its arc.
    pub fn enemy_movement(&mut self)
        requires
            old(self).wf(),
        ensures
            final(self).wf(),
            final(self).registry.entities@.len() == old(self).registry.entities@.len(),
            forall|i: int|
                0 <= i < old(self).registry.entities@.len() ==> final(self).registry.entities@[i]
                    == enemy_step_s(#[trigger] old(self).registry.entities@[i]),
            final(self).registry.next_id == old(self).registry.next_id,
            final(self).win == old(self).win,
            final(self).score == old(self).score,
            final(self).player_state == old(self).player_state,
            final(self).fire_ready == old(self).fire_ready,
            final(self).active_enemies == old(self).active_enemies,
            final(self).formation_maker == old(self).formation_maker,
            final(self).enemy_spawn_timer == old(self).enemy_spawn_timer,
            final(self).enemy_fire_timer == old(self).enemy_fire_timer,
            final(self).player_spawn_timer == old(self).player_spawn_timer,
    {
        let n = self.registry.entities.len();
        let mut i: usize = 0;
        while i < n
            invariant
                i <= n,
                old(self).wf(),
                n == self.registry.entities@.len(),
                n == old(self).registry.entities@.len(),
                forall|k: int|
                    0 <= k < i ==> self.registry.entities@[k] == enemy_step_s(
                        #[trigger] old(self).registry.entities@[k],
                    ),
                forall|k: int|
                    i <= k < n ==> self.registry.entities@[k] == old(self).registry.entities@[k],
                forall|k: int| 0 <= k < i ==> entity_wf(#[trigger] self.registry.entities@[k]),
                self.registry.next_id == old(self).registry.next_id,
                self.win == old(self).win,
                self.score == old(self).score,
                self.player_state == old(self).player_state,
                self.fire_ready == old(self).fire_ready,
                self.active_enemies == old(self).active_enemies,
                self.formation_maker == old(self).formation_maker,
                self.enemy_spawn_timer == old(self).enemy_spawn_timer,
                self.enemy_fire_timer == old(self).enemy_fire_timer,
                self.player_spawn_timer == old(self).player_spawn_timer,
            decreases n - i,
        {
            let e = self.registry.entities[i];
            proof {
                assert(entity_wf(old(self).registry.entities@[i as int]));
            }
            let e2 = enemy_step(e);
            self.registry.entities[i] = e2;
            i = i + 1;
        }
        proof {
            let s = self.registry.entities@;
            let o = old(self).registry.entities@;
            assert(forall|k: int|
                0 <= k < n ==> (#[trigger] s[k]).id == o[k].id && s[k].role == o[k].role);
            lemma_count_role_pointwise(s, o, Role::Enemy);
            lemma_count_role_pointwise(s, o, Role::Player);
        }
    }
}

} // verus!
