use vstd::prelude::*;
use crate::geom::spec_overlaps;
use crate::geom::overlaps;
use crate::entity::Entity;
use crate::entity::Role;
use crate::entity::entity_wf;
use crate::entity::contains_id;
use crate::entity::has_id_role;
use crate::entity::count_role;
use crate::entity::filter_role;
use crate::entity::remove_id;
use crate::entity::ids_distinct;
use crate::entity::lemma_filter_role_props;
use crate::entity::lemma_remove_id_count;
use crate::entity::lemma_remove_id_other;
use crate::entity::lemma_distinct_role_unique;
use crate::world::World;
use crate::world::SCORE_PER_KILL;
use crate::world::TIME_LIMIT_MS;

verus! {

/// The sequence after destroying each of these identifiers in order.
pub open spec fn remove_ids(s: Seq<Entity>, ids: Seq<u64>) -> Seq<Entity>
    decreases ids.len(),
{
    if ids.len() == 0 {
        s
    } else {
        remove_id(remove_ids(s, ids.drop_last()), ids.last())
    }
}

/// The kill list after one player bullet scans the enemy list in order:
/// an enemy overlapping the bullet is added unless already on the list,
/// so an enemy can die at most once per tick however many bullets touch
/// it.
pub open spec fn scan_one(b: Entity, enemies: Seq<Entity>, killed: Seq<u64>) -> Seq<u64>
    decreases enemies.len(),
{
    if enemies.len() == 0 {
        killed
    } else {
        let k = scan_one(b, enemies.drop_last(), killed);
        let e = enemies.last();
        if spec_overlaps(b.pos, b.size, e.pos, e.size) && !k.contains(e.id) {
            k.push(e.id)
        } else {
            k
        }
    }
}

/// Kill resolution over all player bullets in order: the identifiers of
/// the enemies killed this tick, and of the bullets that matched at
/// least one enemy and are spent.
pub open spec fn scan_all(
    bullets: Seq<Entity>,
    enemies: Seq<Entity>,
    killed: Seq<u64>,
    used: Seq<u64>,
) -> (Seq<u64>, Seq<u64>)
    decreases bullets.len(),
{
    if bullets.len() == 0 {
        (killed, used)
    } else {
        let p = scan_all(bullets.drop_last(), enemies, killed, used);
        let b = bullets.last();
        let k1 = scan_one(b, enemies, p.0);
        let u1 = if k1.len() > p.0.len() {
            p.1.push(b.id)
        } else {
            p.1
        };
        (k1, u1)
    }
}

proof fn lemma_scan_one_props(b: Entity, es: Seq<Entity>, k: Seq<u64>)
    ensures
        k.len() <= scan_one(b, es, k).len(),
        forall|x: u64| k.contains(x) ==> scan_one(b, es, k).contains(x),
        forall|x: u64| scan_one(b, es, k).contains(x) ==> k.contains(x) || contains_id(es, x),
        k.no_duplicates() ==> scan_one(b, es, k).no_duplicates(),
    decreases es.len(),
{
    if es.len() > 0 {
        let t = es.drop_last();
        let e = es.last();
        lemma_scan_one_props(b, t, k);
        let k0 = scan_one(b, t, k);
        let k1 = scan_one(b, es, k);
        assert(forall|i: int| 0 <= i < t.len() ==> t[i] == es[i]);
        assert forall|x: u64| k0.contains(x) implies k.contains(x) || contains_id(es, x) by {
            if !k.contains(x) {
                assert(contains_id(t, x));
                let i = choose|i: int| 0 <= i < t.len() && (#[trigger] t[i]).id == x;
                assert(es[i].id == x);
            }
        }
        if spec_overlaps(b.pos, b.size, e.pos, e.size) && !k0.contains(e.id) {
            assert(k1 == k0.push(e.id));
            assert(es[es.len() - 1].id == e.id);
            assert(contains_id(es, e.id));
            assert forall|x: u64| k1.contains(x) implies k.contains(x) || contains_id(es, x) by {
                if x != e.id {
                    let j = choose|j: int| 0 <= j < k1.len() && k1[j] == x;
                    assert(k0[j] == x);
                    assert(k0.contains(x));
                }
            }
            if k.no_duplicates() {
                assert forall|i: int, j: int| 0 <= i < j < k1.len() implies k1[i] != k1[j] by {
                    if j < k0.len() {
                        assert(k0[i] != k0[j]);
                    } else {
                        assert(k1[j] == e.id);
                        assert(k0[i] == k1[i]);
                        assert(k0.contains(k0[i]));
                    }
                }
            }
            assert forall|x: u64| k.contains(x) implies k1.contains(x) by {
                let j = choose|j: int| 0 <= j < k0.len() && k0[j] == x;
                assert(k1[j] == x);
            }
        }
    }
}

proof fn lemma_scan_all_props(bs: Seq<Entity>, es: Seq<Entity>, k: Seq<u64>, u: Seq<u64>)
    ensures
        k.len() <= scan_all(bs, es, k, u).0.len(),
        forall|x: u64|
            scan_all(bs, es, k, u).0.contains(x) ==> k.contains(x) || contains_id(es, x),
        k.no_duplicates() ==> scan_all(bs, es, k, u).0.no_duplicates(),
    decreases bs.len(),
{
    if bs.len() > 0 {
        let t = bs.drop_last();
        let b = bs.last();
        lemma_scan_all_props(t, es, k, u);
        let p = scan_all(t, es, k, u);
        lemma_scan_one_props(b, es, p.0);
        assert forall|x: u64| scan_all(bs, es, k, u).0.contains(x) implies k.contains(x)
            || contains_id(es, x) by {
            if !k.contains(x) && !contains_id(es, x) {
                assert(p.0.contains(x));
            }
        }
    }
}

/// Within one tick an enemy dies at most once: the kill list drawn up by
/// the combat resolver never carries a duplicate identifier, so neither
/// the score award nor the enemy-counter decrement can be applied twice
/// for one enemy, however many bullets overlap it.
pub proof fn lemma_enemy_killed_once(bullets: Seq<Entity>, enemies: Seq<Entity>)
    ensures
        scan_all(bullets, enemies, Seq::<u64>::empty(), Seq::<u64>::empty()).0.no_duplicates(),
        forall|x: u64|
            scan_all(bullets, enemies, Seq::<u64>::empty(), Seq::<u64>::empty()).0.contains(x)
                ==> contains_id(enemies, x),
{
    lemma_scan_all_props(bullets, enemies, Seq::<u64>::empty(), Seq::<u64>::empty());
}

/// The identifiers of the enemy bullets that overlap the player this
/// tick, in registry order.
pub open spec fn hit_bullet_ids(ebs: Seq<Entity>, p: Entity) -> Seq<u64>
    decreases ebs.len(),
{
    if ebs.len() == 0 {
        Seq::empty()
    } else {
        hit_bullet_ids(ebs.drop_last(), p) + (if spec_overlaps(
            ebs.last().pos,
            ebs.last().size,
            p.pos,
            p.size,
        ) {
            seq![ebs.last().id]
        } else {
            Seq::<u64>::empty()
        })
    }
}

/// The current score after awarding `n` kills, each worth
/// `SCORE_PER_KILL`, saturating at the top of the counter.
pub open spec fn score_after(s: u32, n: nat) -> u32
    decreases n,
{
    if n == 0 {
        s
    } else {
        let p = score_after(s, (n - 1) as nat);
        if p <= u32::MAX - SCORE_PER_KILL {
            (p + SCORE_PER_KILL) as u32
        } else {
            p
        }
    }
}

fn contains_u64(v: &Vec<u64>, x: u64) -> (r: bool)
    ensures
        r == v@.contains(x),
{
    let n = v.len();
    let mut i: usize = 0;
    while i < n
        invariant
            i <= n,
            n == v@.len(),
            forall|j: int| 0 <= j < i ==> v@[j] != x,
        decreases n - i,
    {
        if v[i] == x {
            return true;
        }
        i = i + 1;
    }
    false
}

impl World {
    /// Resolves player bullets against enemies: every (bullet, enemy)
    /// overlap destroys the enemy (at most once per enemy per tick) and
    /// spends the bullet; each kill awards `SCORE_PER_KILL` and lowers
    /// the enemy counter by one.
    #[verifier::spinoff_prover]
    pub fn bullet_hit(&mut self)
        requires
            old(self).wf(),
        ensures
            final(self).wf(),
            final(self).win == old(self).win,
            final(self).player_state == old(self).player_state,
            final(self).fire_ready == old(self).fire_ready,
            final(self).formation_maker == old(self).formation_maker,
            final(self).enemy_spawn_timer == old(self).enemy_spawn_timer,
            final(self).enemy_fire_timer == old(self).enemy_fire_timer,
            final(self).player_spawn_timer == old(self).player_spawn_timer,
            final(self).registry.next_id == old(self).registry.next_id,
            final(self).score.1 == old(self).score.1,
            ({
                let o = old(self).registry.entities@;
                let sc = scan_all(
                    filter_role(o, Role::PlayerBullet),
                    filter_role(o, Role::Enemy),
                    Seq::<u64>::empty(),
                    Seq::<u64>::empty(),
                );
                &&& final(self).registry.entities@ == remove_ids(remove_ids(o, sc.0), sc.1)
                &&& final(self).score.0 == score_after(old(self).score.0, sc.0.len())
                &&& final(self).active_enemies.0 == old(self).active_enemies.0 - sc.0.len()
            }),
    {
        let ghost o = self.registry.entities@;
        proof {
            lemma_filter_role_props(o, Role::PlayerBullet);
            lemma_filter_role_props(o, Role::Enemy);
        }
        let bullets = self.registry.each(Role::PlayerBullet);
        let enemies = self.registry.each(Role::Enemy);
        let nb = bullets.len();
        let ne = enemies.len();
        let mut killed: Vec<u64> = Vec::new();
        let mut used: Vec<u64> = Vec::new();
        let mut i: usize = 0;
        while i < nb
            invariant
                i <= nb,
                old(self).wf(),
                o == old(self).registry.entities@,
                self.registry.entities@ == o,
                bullets@ == filter_role(o, Role::PlayerBullet),
                enemies@ == filter_role(o, Role::Enemy),
                nb == bullets@.len(),
                ne == enemies@.len(),
                forall|k: int|
                    0 <= k < nb ==> (#[trigger] bullets@[k]).role == Role::PlayerBullet && exists|
                        j: int,
                    | 0 <= j < o.len() && bullets@[k] == o[j],
                forall|k: int|
                    0 <= k < ne ==> (#[trigger] enemies@[k]).role == Role::Enemy && exists|j: int|
                        0 <= j < o.len() && enemies@[k] == o[j],
                ids_distinct(bullets@),
                (killed@, used@) == scan_all(
                    bullets@.take(i as int),
                    enemies@,
                    Seq::<u64>::empty(),
                    Seq::<u64>::empty(),
                ),
                killed@.no_duplicates(),
                forall|x: u64| killed@.contains(x) ==> has_id_role(o, x, Role::Enemy),
                used@.no_duplicates(),
                forall|x: u64| used@.contains(x) ==> has_id_role(o, x, Role::PlayerBullet),
                forall|x: u64|
                    used@.contains(x) ==> exists|k: int| 0 <= k < i && (#[trigger] bullets@[k]).id
                        == x,
            decreases nb - i,
        {
            let b = bullets[i];
            let ghost entry = killed@;
            let mut j: usize = 0;
            let mut matched: bool = false;
            while j < ne
                invariant
                    j <= ne,
                    i < nb,
                    nb == bullets@.len(),
                    old(self).wf(),
                    o == old(self).registry.entities@,
                    enemies@ == filter_role(o, Role::Enemy),
                    ne == enemies@.len(),
                    b == bullets@[i as int],
                    exists|q: int| 0 <= q < o.len() && bullets@[i as int] == o[q],
                    forall|k: int|
                        0 <= k < ne ==> (#[trigger] enemies@[k]).role == Role::Enemy && exists|
                            q: int,
                        | 0 <= q < o.len() && enemies@[k] == o[q],
                    killed@ == scan_one(b, enemies@.take(j as int), entry),
                    entry.len() <= killed@.len(),
                    matched == (killed@.len() > entry.len()),
                    killed@.no_duplicates(),
                    forall|x: u64| killed@.contains(x) ==> has_id_role(o, x, Role::Enemy),
                decreases ne - j,
            {
                let e = enemies[j];
                proof {
                    assert(enemies@.take(j as int + 1).drop_last() =~= enemies@.take(j as int));
                    assert(enemies@.take(j as int + 1).last() == enemies@[j as int]);
                    let q = choose|q: int| 0 <= q < o.len() && bullets@[i as int] == o[q];
                    assert(entity_wf(o[q]));
                    let q2 = choose|q2: int| 0 <= q2 < o.len() && enemies@[j as int] == o[q2];
                    assert(entity_wf(o[q2]));
                }
                if overlaps(b.pos, b.size, e.pos, e.size) && !contains_u64(&killed, e.id) {
                    let ghost prev = killed@;
                    killed.push(e.id);
                    matched = true;
                    proof {
                        assert(killed@ == prev.push(e.id));
                        assert forall|x: u64| killed@.contains(x) implies has_id_role(
                            o,
                            x,
                            Role::Enemy,
                        ) by {
                            if x != e.id {
                                let y = choose|y: int| 0 <= y < killed@.len() && killed@[y] == x;
                                assert(prev[y] == x);
                                assert(prev.contains(x));
                            } else {
                                let q2 = choose|q2: int|
                                    0 <= q2 < o.len() && enemies@[j as int] == o[q2];
                                assert(o[q2].id == x && o[q2].role == Role::Enemy);
                            }
                        }
                        assert forall|a: int, c: int|
                            0 <= a < c < killed@.len() implies killed@[a] != killed@[c] by {
                            if c < prev.len() {
                                assert(prev[a] != prev[c]);
                            } else {
                                assert(killed@[c] == e.id);
                                assert(prev[a] == killed@[a]);
                                assert(prev.contains(prev[a]));
                            }
                        }
                        assert(entry.len() <= prev.len());
                    }
                }
                j = j + 1;
            }
            proof {
                assert(enemies@.take(ne as int) =~= enemies@);
            }
            if matched {
                let ghost prev = used@;
                used.push(b.id);
                proof {
                    assert(used@ == prev.push(b.id));
                    assert forall|x: u64| used@.contains(x) implies has_id_role(
                        o,
                        x,
                        Role::PlayerBullet,
                    ) by {
                        if x != b.id {
                            let y = choose|y: int| 0 <= y < used@.len() && used@[y] == x;
                            assert(prev[y] == x);
                            assert(prev.contains(x));
                        } else {
                            let q = choose|q: int| 0 <= q < o.len() && bullets@[i as int] == o[q];
                            assert(o[q].id == x && o[q].role == Role::PlayerBullet);
                        }
                    }
                    assert forall|x: u64| used@.contains(x) implies exists|k: int|
                        0 <= k < i + 1 && (#[trigger] bullets@[k]).id == x by {
                        if x == b.id {
                            assert(bullets@[i as int].id == x);
                        } else {
                            let y = choose|y: int| 0 <= y < used@.len() && used@[y] == x;
                            assert(prev[y] == x);
                            assert(prev.contains(x));
                            let k = choose|k: int|
                                0 <= k < i && (#[trigger] bullets@[k]).id == x;
                            assert(bullets@[k].id == x);
                        }
                    }
                    assert forall|a: int, c: int| 0 <= a < c < used@.len() implies used@[a]
                        != used@[c] by {
                        if c < prev.len() {
                            assert(prev[a] != prev[c]);
                        } else {
                            assert(used@[c] == b.id);
                            assert(prev[a] == used@[a]);
                            assert(prev.contains(prev[a]));
                            let k = choose|k: int|
                                0 <= k < i && (#[trigger] bullets@[k]).id == prev[a];
                            assert(bullets@[k].id != bullets@[i as int].id);
                        }
                    }
                }
            }
            proof {
                assert(bullets@.take(i as int + 1).drop_last() =~= bullets@.take(i as int));
                assert(bullets@.take(i as int + 1).last() == bullets@[i as int]);
            }
            i = i + 1;
        }
        proof {
            assert(bullets@.take(nb as int) =~= bullets@);
        }
        let ghost sc_killed = killed@;
        let ghost sc_used = used@;
        let nk = killed.len();
        let mut t: usize = 0;
        while t < nk
            invariant
                t <= nk,
                old(self).wf(),
                o == old(self).registry.entities@,
                nk == sc_killed.len(),
                killed@ == sc_killed,
                sc_killed.no_duplicates(),
                forall|x: u64| sc_used.contains(x) ==> has_id_role(o, x, Role::PlayerBullet),
                self.registry.wf(),
                self.registry.next_id == old(self).registry.next_id,
                self.registry.entities@ == remove_ids(o, sc_killed.take(t as int)),
                forall|k: int|
                    t <= k < nk ==> has_id_role(
                        self.registry.entities@,
                        #[trigger] sc_killed[k],
                        Role::Enemy,
                    ),
                forall|x: u64|
                    sc_used.contains(x) ==> has_id_role(
                        self.registry.entities@,
                        x,
                        Role::PlayerBullet,
                    ),
                count_role(self.registry.entities@, Role::Enemy) == count_role(o, Role::Enemy)
                    - t,
                count_role(self.registry.entities@, Role::Player) == count_role(o, Role::Player),
                self.active_enemies.0 == old(self).active_enemies.0 - t,
                t <= count_role(o, Role::Enemy),
                self.score.0 == score_after(old(self).score.0, t as nat),
                self.score.1 == old(self).score.1,
                self.win == old(self).win,
                self.player_state == old(self).player_state,
                self.fire_ready == old(self).fire_ready,
                self.formation_maker == old(self).formation_maker,
                self.enemy_spawn_timer == old(self).enemy_spawn_timer,
                self.enemy_fire_timer == old(self).enemy_fire_timer,
                self.player_spawn_timer == old(self).player_spawn_timer,
            decreases nk - t,
        {
            let id = killed[t];
            let ghost cur = self.registry.entities@;
            proof {
                assert(has_id_role(cur, id, Role::Enemy));
                lemma_remove_id_count(cur, id, Role::Enemy);
                lemma_remove_id_count(cur, id, Role::Player);
                if has_id_role(cur, id, Role::Player) {
                    lemma_distinct_role_unique(cur, id, Role::Enemy, Role::Player);
                }
                assert(count_role(cur, Role::Enemy) >= 1) by {
                    lemma_filter_role_props(cur, Role::Enemy);
                    let q = choose|q: int|
                        0 <= q < cur.len() && (#[trigger] cur[q]).id == id && cur[q].role
                            == Role::Enemy;
                    assert(filter_role(cur, Role::Enemy).len() > 0) by {
                        lemma_count_positive(cur, q, Role::Enemy);
                    }
                }
            }
            self.registry.destroy(id);
            self.active_enemies.0 = self.active_enemies.0 - 1;
            if self.score.0 <= u32::MAX - SCORE_PER_KILL {
                self.score.0 = self.score.0 + SCORE_PER_KILL;
            }
            proof {
                assert(sc_killed.take(t as int + 1).drop_last() =~= sc_killed.take(t as int));
                assert(sc_killed.take(t as int + 1).last() == sc_killed[t as int]);
                assert forall|k: int| t + 1 <= k < nk implies has_id_role(
                    self.registry.entities@,
                    #[trigger] sc_killed[k],
                    Role::Enemy,
                ) by {
                    assert(sc_killed[k] != id);
                    lemma_remove_id_other(cur, id, sc_killed[k], Role::Enemy);
                }
                assert forall|x: u64| sc_used.contains(x) implies has_id_role(
                    self.registry.entities@,
                    x,
                    Role::PlayerBullet,
                ) by {
                    if x == id {
                        lemma_distinct_role_unique(cur, id, Role::Enemy, Role::PlayerBullet);
                    } else {
                        lemma_remove_id_other(cur, id, x, Role::PlayerBullet);
                    }
                }
            }
            t = t + 1;
        }
        proof {
            assert(sc_killed.take(nk as int) =~= sc_killed);
        }
        let nu = used.len();
        let ghost mid = self.registry.entities@;
        proof {
            assert forall|k: int| 0 <= k < sc_used.len() implies has_id_role(
                mid,
                #[trigger] sc_used[k],
                Role::PlayerBullet,
            ) by {
                assert(sc_used.contains(sc_used[k]));
            }
        }
        let mut t2: usize = 0;
        while t2 < nu
            invariant
                t2 <= nu,
                old(self).wf(),
                o == old(self).registry.entities@,
                nu == sc_used.len(),
                used@ == sc_used,
                sc_used.no_duplicates(),
                mid == remove_ids(o, sc_killed),
                self.registry.wf(),
                self.registry.next_id == old(self).registry.next_id,
                self.registry.entities@ == remove_ids(mid, sc_used.take(t2 as int)),
                forall|k: int|
                    t2 <= k < nu ==> has_id_role(
                        self.registry.entities@,
                        #[trigger] sc_used[k],
                        Role::PlayerBullet,
                    ),
                count_role(self.registry.entities@, Role::Enemy) == count_role(mid, Role::Enemy),
                count_role(self.registry.entities@, Role::Player) == count_role(
                    mid,
                    Role::Player,
                ),
                self.active_enemies.0 == old(self).active_enemies.0 - sc_killed.len(),
                self.score.0 == score_after(old(self).score.0, sc_killed.len()),
                self.score.1 == old(self).score.1,
                self.win == old(self).win,
                self.player_state == old(self).player_state,
                self.fire_ready == old(self).fire_ready,
                self.formation_maker == old(self).formation_maker,
                self.enemy_spawn_timer == old(self).enemy_spawn_timer,
                self.enemy_fire_timer == old(self).enemy_fire_timer,
                self.player_spawn_timer == old(self).player_spawn_timer,
            decreases nu - t2,
        {
            let id = used[t2];
            let ghost cur = self.registry.entities@;
            proof {
                assert(has_id_role(cur, id, Role::PlayerBullet));
                lemma_remove_id_count(cur, id, Role::Enemy);
                lemma_remove_id_count(cur, id, Role::Player);
                if has_id_role(cur, id, Role::Enemy) {
                    lemma_distinct_role_unique(cur, id, Role::PlayerBullet, Role::Enemy);
                }
                if has_id_role(cur, id, Role::Player) {
                    lemma_distinct_role_unique(cur, id, Role::PlayerBullet, Role::Player);
                }
            }
            self.registry.destroy(id);
            proof {
                assert(sc_used.take(t2 as int + 1).drop_last() =~= sc_used.take(t2 as int));
                assert(sc_used.take(t2 as int + 1).last() == sc_used[t2 as int]);
                assert forall|k: int| t2 + 1 <= k < nu implies has_id_role(
                    self.registry.entities@,
                    #[trigger] sc_used[k],
                    Role::PlayerBullet,
                ) by {
                    assert(sc_used[k] != id);
                    lemma_remove_id_other(cur, id, sc_used[k], Role::PlayerBullet);
                }
            }
            t2 = t2 + 1;
        }
        proof {
            assert(sc_used.take(nu as int) =~= sc_used);
        }
    }
}

/// An element of the given role at a valid index makes the role count
/// positive.
proof fn lemma_count_positive(s: Seq<Entity>, q: int, r: Role)
    requires
        0 <= q < s.len(),
        s[q].role == r,
    ensures
        count_role(s, r) >= 1,
    decreases s.len(),
{
    if s.len() > 0 {
        let t = s.drop_last();
        if q < t.len() {
            assert(t[q] == s[q]);
            lemma_count_positive(t, q, r);
        }
    }
}

impl World {
    /// Resolves enemy bullets against the player: every bullet overlapping
    /// the player this tick is destroyed; if there was at least one, the
    /// player entity is destroyed too, the lifecycle flips to dead, and
    /// the time of death is recorded. The player dies at most once since
    /// the entity is gone afterwards.
    #[verifier::spinoff_prover]
    pub fn e_bullet_hit(&mut self, now_ms: u64)
        requires
            old(self).wf(),
            now_ms <= TIME_LIMIT_MS,
        ensures
            final(self).wf(),
            final(self).win == old(self).win,
            final(self).score == old(self).score,
            final(self).fire_ready == old(self).fire_ready,
            final(self).active_enemies == old(self).active_enemies,
            final(self).formation_maker == old(self).formation_maker,
            final(self).enemy_spawn_timer == old(self).enemy_spawn_timer,
            final(self).enemy_fire_timer == old(self).enemy_fire_timer,
            final(self).player_spawn_timer == old(self).player_spawn_timer,
            final(self).registry.next_id == old(self).registry.next_id,
            !old(self).player_state.alive ==> *final(self) == *old(self),
            old(self).player_state.alive ==> ({
                let o = old(self).registry.entities@;
                let p = filter_role(o, Role::Player)[0];
                let hits = hit_bullet_ids(filter_role(o, Role::EnemyBullet), p);
                &&& hits.len() == 0 ==> *final(self) == *old(self)
                &&& hits.len() > 0 ==> ({
                    &&& final(self).registry.entities@ == remove_id(remove_ids(o, hits), p.id)
                    &&& final(self).player_state.alive == false
                    &&& final(self).player_state.last_death == now_ms
                })
            }),
    {
        let ghost o = self.registry.entities@;
        proof {
            lemma_filter_role_props(o, Role::Player);
            lemma_filter_role_props(o, Role::EnemyBullet);
        }
        let players = self.registry.each(Role::Player);
        if players.len() == 0 {
            return ;
        }
        let p = players[0];
        proof {
            assert(exists|q: int| 0 <= q < o.len() && filter_role(o, Role::Player)[0] == o[q]);
            let q = choose|q: int| 0 <= q < o.len() && filter_role(o, Role::Player)[0] == o[q];
            assert(entity_wf(o[q]));
            assert(o[q].id == p.id && o[q].role == Role::Player);
        }
        let ebs = self.registry.each(Role::EnemyBullet);
        let ne = ebs.len();
        let mut hits: Vec<u64> = Vec::new();
        let mut j: usize = 0;
        while j < ne
            invariant
                j <= ne,
                old(self).wf(),
                o == old(self).registry.entities@,
                self.registry.entities@ == o,
                ebs@ == filter_role(o, Role::EnemyBullet),
                ne == ebs@.len(),
                filter_role(o, Role::Player).len() > 0,
                p == filter_role(o, Role::Player)[0],
                entity_wf(p),
                forall|k: int|
                    0 <= k < ne ==> (#[trigger] ebs@[k]).role == Role::EnemyBullet && exists|
                        q: int,
                    | 0 <= q < o.len() && ebs@[k] == o[q],
                ids_distinct(ebs@),
                hits@ == hit_bullet_ids(ebs@.take(j as int), p),
                hits@.no_duplicates(),
                forall|x: u64| hits@.contains(x) ==> has_id_role(o, x, Role::EnemyBullet),
                forall|x: u64|
                    hits@.contains(x) ==> exists|k: int| 0 <= k < j && (#[trigger] ebs@[k]).id
                        == x,
            decreases ne - j,
        {
            let e = ebs[j];
            proof {
                assert(ebs@.take(j as int + 1).drop_last() =~= ebs@.take(j as int));
                assert(ebs@.take(j as int + 1).last() == ebs@[j as int]);
                let q = choose|q: int| 0 <= q < o.len() && ebs@[j as int] == o[q];
                assert(entity_wf(o[q]));
            }
            if overlaps(e.pos, e.size, p.pos, p.size) {
                let ghost prev = hits@;
                hits.push(e.id);
                proof {
                    assert(hits@ == prev.push(e.id));
                    assert forall|x: u64| hits@.contains(x) implies has_id_role(
                        o,
                        x,
                        Role::EnemyBullet,
                    ) by {
                        if x != e.id {
                            let y = choose|y: int| 0 <= y < hits@.len() && hits@[y] == x;
                            assert(prev[y] == x);
                            assert(prev.contains(x));
                        } else {
                            let q = choose|q: int| 0 <= q < o.len() && ebs@[j as int] == o[q];
                            assert(o[q].id == x && o[q].role == Role::EnemyBullet);
                        }
                    }
                    assert forall|x: u64| hits@.contains(x) implies exists|k: int|
                        0 <= k < j + 1 && (#[trigger] ebs@[k]).id == x by {
                        if x == e.id {
                            assert(ebs@[j as int].id == x);
                        } else {
                            let y = choose|y: int| 0 <= y < hits@.len() && hits@[y] == x;
                            assert(prev[y] == x);
                            assert(prev.contains(x));
                            let k = choose|k: int| 0 <= k < j && (#[trigger] ebs@[k]).id == x;
                            assert(ebs@[k].id == x);
                        }
                    }
                    assert forall|a: int, c: int| 0 <= a < c < hits@.len() implies hits@[a]
                        != hits@[c] by {
                        if c < prev.len() {
                            assert(prev[a] != prev[c]);
                        } else {
                            assert(hits@[c] == e.id);
                            assert(prev[a] == hits@[a]);
                            assert(prev.contains(prev[a]));
                            let k = choose|k: int|
                                0 <= k < j && (#[trigger] ebs@[k]).id == prev[a];
                            assert(ebs@[k].id != ebs@[j as int].id);
                        }
                    }
                }
            }
            j = j + 1;
        }
        proof {
            assert(ebs@.take(ne as int) =~= ebs@);
        }
        if hits.len() == 0 {
            return ;
        }
        let ghost sc_hits = hits@;
        let nh = hits.len();
        let mut t: usize = 0;
        while t < nh
            invariant
                t <= nh,
                old(self).wf(),
                o == old(self).registry.entities@,
                nh == sc_hits.len(),
                hits@ == sc_hits,
                sc_hits.no_duplicates(),
                entity_wf(p),
                filter_role(o, Role::Player).len() > 0,
                p == filter_role(o, Role::Player)[0],
                has_id_role(o, p.id, Role::Player),
                self.registry.wf(),
                self.registry.next_id == old(self).registry.next_id,
                self.registry.entities@ == remove_ids(o, sc_hits.take(t as int)),
                forall|k: int|
                    t <= k < nh ==> has_id_role(
                        self.registry.entities@,
                        #[trigger] sc_hits[k],
                        Role::EnemyBullet,
                    ),
                has_id_role(self.registry.entities@, p.id, Role::Player),
                count_role(self.registry.entities@, Role::Enemy) == count_role(o, Role::Enemy),
                count_role(self.registry.entities@, Role::Player) == count_role(o, Role::Player),
                self.active_enemies == old(self).active_enemies,
                self.score == old(self).score,
                self.player_state == old(self).player_state,
                self.fire_ready == old(self).fire_ready,
                self.formation_maker == old(self).formation_maker,
                self.win == old(self).win,
                self.enemy_spawn_timer == old(self).enemy_spawn_timer,
                self.enemy_fire_timer == old(self).enemy_fire_timer,
                self.player_spawn_timer == old(self).player_spawn_timer,
            decreases nh - t,
        {
            let id = hits[t];
            let ghost cur = self.registry.entities@;
            proof {
                assert(has_id_role(cur, id, Role::EnemyBullet));
                lemma_remove_id_count(cur, id, Role::Enemy);
                lemma_remove_id_count(cur, id, Role::Player);
                if has_id_role(cur, id, Role::Enemy) {
                    lemma_distinct_role_unique(cur, id, Role::EnemyBullet, Role::Enemy);
                }
                if has_id_role(cur, id, Role::Player) {
                    lemma_distinct_role_unique(cur, id, Role::EnemyBullet, Role::Player);
                }
            }
            self.registry.destroy(id);
            proof {
                assert(sc_hits.take(t as int + 1).drop_last() =~= sc_hits.take(t as int));
                assert(sc_hits.take(t as int + 1).last() == sc_hits[t as int]);
                assert forall|k: int| t + 1 <= k < nh implies has_id_role(
                    self.registry.entities@,
                    #[trigger] sc_hits[k],
                    Role::EnemyBullet,
                ) by {
                    assert(sc_hits[k] != id);
                    lemma_remove_id_other(cur, id, sc_hits[k], Role::EnemyBullet);
                }
                assert(p.id != id) by {
                    if p.id == id {
                        lemma_distinct_role_unique(cur, id, Role::EnemyBullet, Role::Player);
                    }
                }
                lemma_remove_id_other(cur, id, p.id, Role::Player);
            }
            t = t + 1;
        }
        proof {
            assert(sc_hits.take(nh as int) =~= sc_hits);
        }
        let ghost cur = self.registry.entities@;
        proof {
            lemma_remove_id_count(cur, p.id, Role::Enemy);
            lemma_remove_id_count(cur, p.id, Role::Player);
            if has_id_role(cur, p.id, Role::Enemy) {
                lemma_distinct_role_unique(cur, p.id, Role::Player, Role::Enemy);
            }
        }
        self.registry.destroy(p.id);
        self.player_state.kill_at_time(now_ms);
    }
}

} // verus!
