use invaders::entity::Entity;
use invaders::entity::Registry;
use invaders::entity::Role;
use invaders::formation::Formation;
use invaders::formation::FormationMaker;
use invaders::geom::Vec2;
use invaders::geom::WinSize;
use invaders::player::PlayerState;
use invaders::player::PlayerReadyFire;
use invaders::world::ActiveEnemies;
use invaders::world::HighScore;
use invaders::world::World;

fn win() -> WinSize {
    WinSize { w: 480000, h: 640000 }
}

fn formation_at(x: i64, y: i64) -> Formation {
    Formation {
        start_x: x,
        start_y: y,
        offset_x: 0,
        offset_y: 100000,
        radius_x: 100000,
        radius_y: 100000,
        angle: 0,
        id: 1,
    }
}

fn enemy_at(id: u64, x: i64, y: i64) -> Entity {
    Entity {
        id,
        pos: Vec2 { x, y },
        size: Vec2 { x: 36000, y: 12000 },
        speed: 200000,
        role: Role::Enemy,
        formation: Some(formation_at(x, y)),
    }
}

fn player_bullet_at(id: u64, x: i64, y: i64) -> Entity {
    Entity {
        id,
        pos: Vec2 { x, y },
        size: Vec2 { x: 2000, y: 4000 },
        speed: 200000,
        role: Role::PlayerBullet,
        formation: None,
    }
}

fn enemy_bullet_at(id: u64, x: i64, y: i64) -> Entity {
    Entity {
        id,
        pos: Vec2 { x, y },
        size: Vec2 { x: 2000, y: 16000 },
        speed: 200000,
        role: Role::EnemyBullet,
        formation: None,
    }
}

fn player_at(id: u64, x: i64, y: i64) -> Entity {
    Entity {
        id,
        pos: Vec2 { x, y },
        size: Vec2 { x: 10000, y: 10000 },
        speed: 200000,
        role: Role::Player,
        formation: None,
    }
}

fn world_with(entities: Vec<Entity>, alive: bool) -> World {
    let enemies = entities.iter().filter(|e| matches!(e.role, Role::Enemy)).count() as u32;
    let next_id = entities.iter().map(|e| e.id).max().unwrap_or(0) + 1;
    World {
        registry: Registry { entities, next_id },
        active_enemies: ActiveEnemies(enemies),
        formation_maker: FormationMaker::default(),
        score: HighScore(0, 0),
        player_state: PlayerState { alive, last_death: 0 },
        fire_ready: PlayerReadyFire(true),
        win: win(),
        enemy_spawn_timer: 0,
        enemy_fire_timer: 0,
        player_spawn_timer: 0,
    }
}

#[test]
fn bullet_kill_awards_score_and_decrements_counter() {
    // a player bullet and an enemy box of size (36,12) centered 5 units
    // apart on x: both destroyed, score += 100, one enemy fewer
    let mut w = world_with(vec![enemy_at(1, 0, 0), player_bullet_at(2, 5000, 0)], false);
    w.bullet_hit();
    assert_eq!(w.score.0, 100);
    assert_eq!(w.active_enemies.0, 0);
    assert_eq!(w.registry.entities.len(), 0);
}

#[test]
fn two_bullets_one_enemy_kill_once() {
    // both bullets overlap the same enemy; it dies once, the score is
    // awarded once, and the second bullet is not spent
    let mut w = world_with(
        vec![enemy_at(1, 0, 0), player_bullet_at(2, 5000, 0), player_bullet_at(3, -5000, 0)],
        false,
    );
    w.bullet_hit();
    assert_eq!(w.score.0, 100);
    assert_eq!(w.active_enemies.0, 0);
    assert_eq!(w.registry.entities.len(), 1);
    assert_eq!(w.registry.entities[0].id, 3);
}

#[test]
fn one_bullet_each_for_two_enemies() {
    let mut w = world_with(
        vec![
            enemy_at(1, 0, 0),
            enemy_at(2, 100000, 0),
            player_bullet_at(3, 0, 0),
            player_bullet_at(4, 100000, 0),
        ],
        false,
    );
    w.bullet_hit();
    assert_eq!(w.score.0, 200);
    assert_eq!(w.active_enemies.0, 0);
    assert_eq!(w.registry.entities.len(), 0);
}

#[test]
fn destroy_is_idempotent() {
    let mut r = Registry::default();
    let id = r.create(
        Role::PlayerBullet,
        Vec2 { x: 0, y: 0 },
        Vec2 { x: 2000, y: 4000 },
        200000,
        None,
    );
    assert!(r.get(id).is_some());
    r.destroy(id);
    assert!(r.get(id).is_none());
    assert_eq!(r.entities.len(), 0);
    r.destroy(id);
    assert!(r.get(id).is_none());
    assert_eq!(r.entities.len(), 0);
}

#[test]
fn destroyed_enemy_counted_once_at_world_level() {
    // destroying an already-destroyed identifier has no second effect on
    // score or counter: a second resolver pass finds nothing
    let mut w = world_with(vec![enemy_at(1, 0, 0), player_bullet_at(2, 5000, 0)], false);
    w.bullet_hit();
    let score = w.score.0;
    let active = w.active_enemies.0;
    w.bullet_hit();
    assert_eq!(w.score.0, score);
    assert_eq!(w.active_enemies.0, active);
}

#[test]
fn enemy_bullet_moves_down_and_despawns_past_margin() {
    // spawned at y=50 moving at 200 units/s with dt=1/60: y becomes
    // 46.667 units after one tick
    let mut w = world_with(vec![enemy_bullet_at(1, 0, 50000)], false);
    w.e_bullet_movement();
    assert_eq!(w.registry.entities.len(), 1);
    assert_eq!(w.registry.entities[0].pos.y, 46667);
    // keeps decreasing
    w.e_bullet_movement();
    assert_eq!(w.registry.entities[0].pos.y, 43334);
    // destroyed once y < -(h/2 + 50): cutoff is -370 units here
    let mut w2 = world_with(vec![enemy_bullet_at(1, 0, -370000)], false);
    w2.e_bullet_movement();
    assert_eq!(w2.registry.entities.len(), 0);
    let mut w3 = world_with(vec![enemy_bullet_at(1, 0, -360000)], false);
    w3.e_bullet_movement();
    assert_eq!(w3.registry.entities.len(), 1);
}

#[test]
fn player_bullet_moves_up_and_despawns_past_top() {
    let mut w = world_with(vec![player_bullet_at(1, 0, 0)], false);
    w.bullet_movement();
    assert_eq!(w.registry.entities[0].pos.y, 3333);
    // destroyed once it crosses the top visible boundary (h/2 = 320)
    let mut w2 = world_with(vec![player_bullet_at(1, 0, 318000)], false);
    w2.bullet_movement();
    assert_eq!(w2.registry.entities.len(), 0);
    let mut w3 = world_with(vec![player_bullet_at(1, 0, 310000)], false);
    w3.bullet_movement();
    assert_eq!(w3.registry.entities.len(), 1);
    assert_eq!(w3.registry.entities[0].pos.y, 313333);
}

#[test]
fn enemy_bullet_hit_kills_player_once() {
    let mut w = world_with(
        vec![player_at(1, 0, 0), enemy_bullet_at(2, 3000, 0), enemy_bullet_at(3, -3000, 0)],
        true,
    );
    w.e_bullet_hit(4200);
    assert!(!w.player_state.alive);
    assert_eq!(w.player_state.last_death, 4200);
    assert_eq!(w.registry.entities.len(), 0);
    // a second pass with no player is a no-op
    w.e_bullet_hit(5000);
    assert_eq!(w.player_state.last_death, 4200);
}

#[test]
fn respawn_blocked_inside_grace_period() {
    let mut w = world_with(vec![], false);
    w.player_state.last_death = 5000;
    w.spawn_player(5500);
    assert!(!w.player_state.alive);
    assert_eq!(w.registry.entities.len(), 0);
    w.spawn_player(5999);
    assert!(!w.player_state.alive);
    // a respawn is allowed the moment the grace period has elapsed
    w.spawn_player(6000);
    assert!(w.player_state.alive);
    assert_eq!(w.registry.entities.len(), 1);
    assert!(matches!(w.registry.entities[0].role, Role::Player));
}

#[test]
fn first_spawn_is_immediate() {
    let mut w = world_with(vec![], false);
    w.spawn_player(0);
    assert!(w.player_state.alive);
    assert_eq!(w.registry.entities.len(), 1);
    // spawns at the bottom of the window
    assert_eq!(w.registry.entities[0].pos.y, -310000);
    assert_eq!(w.registry.entities[0].pos.x, 0);
}

#[test]
fn respawn_promotes_best_score_and_resets_current() {
    let mut w = world_with(vec![], false);
    w.score = HighScore(500, 300);
    w.spawn_player(0);
    assert_eq!(w.score.0, 0);
    assert_eq!(w.score.1, 500);
    // a lower run does not lower the best
    let mut w2 = world_with(vec![], false);
    w2.score = HighScore(200, 300);
    w2.spawn_player(0);
    assert_eq!(w2.score.1, 300);
}

#[test]
fn enemy_population_capped_at_three() {
    let mut w = world_with(vec![], false);
    for _ in 0..5 {
        w.spawn_enemy();
        assert!(w.active_enemies.0 <= 3);
    }
    assert_eq!(w.active_enemies.0, 3);
    let enemies = w.registry.each(Role::Enemy);
    assert_eq!(enemies.len(), 3);
}

#[test]
fn formation_batch_capped_at_three() {
    let mut m = FormationMaker::default();
    let w = win();
    let f1 = m.make(&w);
    assert_eq!(m.current_members, 1);
    assert_eq!(m.seq_id, 1);
    let f2 = m.make(&w);
    let f3 = m.make(&w);
    assert_eq!(m.current_members, 3);
    assert_eq!(f1.id, f2.id);
    assert_eq!(f2.id, f3.id);
    assert_eq!(f1.start_x, f3.start_x);
    assert_eq!(f1.start_y, f3.start_y);
    // the fourth request starts a brand-new batch
    let f4 = m.make(&w);
    assert_eq!(m.current_members, 1);
    assert_eq!(m.seq_id, 2);
    assert_eq!(f4.id, 2);
}

#[test]
fn formation_parameters_stay_in_their_ranges() {
    let mut m = FormationMaker::default();
    let w = win();
    for _ in 0..40 {
        // force a fresh draw each round by filling the batch
        let f = m.make(&w);
        m.current_members = 3;
        assert!(f.start_x == 240000 || f.start_x == -240000);
        let h = w.h / 2 - 100000;
        assert!(-h <= f.start_y && f.start_y < h);
        assert!(-w.w / 4 <= f.offset_x && f.offset_x < w.w / 4);
        assert!(0 <= f.offset_y && f.offset_y < h);
        assert!(80000 <= f.radius_x && f.radius_x < 150000);
        assert_eq!(f.radius_y, 100000);
        assert!(-3142 <= f.angle && f.angle <= 3142);
    }
}

#[test]
fn enemy_spawns_at_formation_start() {
    let mut w = world_with(vec![], false);
    w.spawn_enemy();
    let enemies = w.registry.each(Role::Enemy);
    assert_eq!(enemies.len(), 1);
    let f = enemies[0].formation.clone().unwrap();
    assert_eq!(enemies[0].pos.x, f.start_x);
    assert_eq!(enemies[0].pos.y, f.start_y);
}

#[test]
fn fire_latch_blocks_automatic_fire() {
    let mut w = world_with(vec![player_at(1, 0, -310000)], true);
    w.player_fire(true, false);
    assert_eq!(w.registry.each(Role::PlayerBullet).len(), 1);
    assert!(!w.fire_ready.0);
    // holding the key does not fire again
    w.player_fire(true, false);
    w.player_fire(true, false);
    assert_eq!(w.registry.each(Role::PlayerBullet).len(), 1);
    // releasing re-arms, next press fires
    w.player_fire(false, true);
    assert!(w.fire_ready.0);
    w.player_fire(true, false);
    assert_eq!(w.registry.each(Role::PlayerBullet).len(), 2);
}

#[test]
fn bullet_spawns_at_player_position() {
    let mut w = world_with(vec![player_at(1, 12000, -310000)], true);
    w.player_fire(true, false);
    let bullets = w.registry.each(Role::PlayerBullet);
    assert_eq!(bullets.len(), 1);
    assert_eq!(bullets[0].pos.x, 12000);
    assert_eq!(bullets[0].pos.y, -310000);
}

#[test]
fn enemy_fire_one_bullet_per_enemy() {
    let mut w = world_with(vec![enemy_at(1, -50000, 100000), enemy_at(2, 70000, 200000)], false);
    w.enemy_fire();
    let bullets = w.registry.each(Role::EnemyBullet);
    assert_eq!(bullets.len(), 2);
    assert_eq!(bullets[0].pos.x, -50000);
    assert_eq!(bullets[0].pos.y, 100000);
    assert_eq!(bullets[1].pos.x, 70000);
    assert_eq!(bullets[1].pos.y, 200000);
}

#[test]
fn player_movement_follows_intent() {
    let mut w = world_with(vec![player_at(1, 0, -310000)], true);
    w.player_movement(false, true);
    assert_eq!(w.registry.entities[0].pos.x, 3333);
    w.player_movement(true, false);
    assert_eq!(w.registry.entities[0].pos.x, 0);
    w.player_movement(false, false);
    assert_eq!(w.registry.entities[0].pos.x, 0);
}

#[test]
fn enemy_movement_approaches_target_without_overshoot() {
    // an enemy on its arc moves at most speed*dt per tick and its phase
    // angle only advances once it has caught up with the arc
    let mut w = world_with(vec![enemy_at(1, 240000, 100000)], false);
    for _ in 0..600 {
        let before = w.registry.entities[0].pos;
        w.enemy_movement();
        let after = w.registry.entities[0].pos;
        let dx = (after.x - before.x).abs();
        let dy = (after.y - before.y).abs();
        // per-axis step never exceeds the tick distance budget
        assert!(dx <= 3333 && dy <= 3333);
    }
    // after many ticks the enemy has caught the arc and the angle advances
    let f = w.registry.entities[0].formation.clone().unwrap();
    assert!(f.angle != 0);
}

#[test]
fn counter_matches_live_enemies_through_ticks() {
    let mut w = World::new(win());
    let mut now: u64 = 0;
    for i in 0..240u64 {
        let fire = i % 7 == 0;
        w.tick(17, now, i % 3 == 0, i % 5 == 0, fire, !fire);
        now += 17;
        assert_eq!(w.active_enemies.0 as usize, w.registry.each(Role::Enemy).len());
        assert!(w.active_enemies.0 <= 3);
        // the player entity exists exactly while the lifecycle says so
        let players = w.registry.each(Role::Player).len();
        assert_eq!(players, if w.player_state.alive { 1 } else { 0 });
    }
    // the 1-second spawn cadence has long since fired at least once
    assert!(w.registry.next_id > 1);
}

#[test]
fn cadence_gates_fire_on_elapsed_time() {
    let mut w = World::new(win());
    // nine ticks of 100 ms: neither 1-second gate has reached its period
    for i in 0..9u64 {
        w.tick(100, i * 100, false, false, false, false);
        assert_eq!(w.active_enemies.0, 0);
        assert!(!w.player_state.alive);
    }
    // the tenth tick accumulates 1000 ms: enemy spawn and player spawn fire
    w.tick(100, 900, false, false, false, false);
    assert_eq!(w.active_enemies.0, 1);
    assert!(w.player_state.alive);
    // accumulators keep the remainder past their period
    assert_eq!(w.enemy_spawn_timer, 0);
    assert_eq!(w.player_spawn_timer, 0);
    // the 850 ms fire gate fired on the ninth tick and kept 50 ms
    assert_eq!(w.enemy_fire_timer, 150);
}
