use vstd::prelude::*;
use crate::geom::Vec2;
use crate::geom::abs_v;
use crate::geom::COORD_LIMIT;
use crate::geom::SIZE_LIMIT;
use crate::formation::Formation;
use crate::formation::formation_wf;

verus! {

/// The role an entity plays in the simulation.
#[derive(Clone, Copy, PartialEq, Eq, Structural, Debug)]
pub enum Role {
    Player,
    PlayerBullet,
    Enemy,
    EnemyBullet,
}

/// Largest speed the simulation stores, in milliunits per second (2^20).
pub const SPEED_LIMIT: i64 = 1048576;

/// A live simulation entity: identifier, center position, collision
/// extent, scalar speed, role tag, and (for formation enemies only) the
/// flight-path descriptor with its private phase.
#[derive(Clone, Copy, Debug)]
pub struct Entity {
    pub id: u64,
    pub pos: Vec2,
    pub size: Vec2,
    pub speed: i64,
    pub role: Role,
    pub formation: Option<Formation>,
}

pub open spec fn entity_wf(e: Entity) -> bool {
    &&& abs_v(e.pos.x as int) <= COORD_LIMIT
    &&& abs_v(e.pos.y as int) <= COORD_LIMIT
    &&& 0 <= e.size.x <= SIZE_LIMIT
    &&& 0 <= e.size.y <= SIZE_LIMIT
    &&& 0 < e.speed <= SPEED_LIMIT
    &&& (e.role is Enemy ==> e.formation is Some && formation_wf(e.formation.unwrap()))
    &&& (!(e.role is Enemy) ==> e.formation is None)
}

pub open spec fn ids_distinct(s: Seq<Entity>) -> bool {
    forall|i: int, j: int| 0 <= i < j < s.len() ==> s[i].id != s[j].id
}

pub open spec fn all_wf(s: Seq<Entity>) -> bool {
    forall|i: int| 0 <= i < s.len() ==> entity_wf(#[trigger] s[i])
}

pub open spec fn ids_below(s: Seq<Entity>, n: u64) -> bool {
    forall|i: int| 0 <= i < s.len() ==> (#[trigger] s[i]).id < n
}

pub open spec fn contains_id(s: Seq<Entity>, id: u64) -> bool {
    exists|i: int| 0 <= i < s.len() && (#[trigger] s[i]).id == id
}

pub open spec fn has_id_role(s: Seq<Entity>, id: u64, r: Role) -> bool {
    exists|i: int| 0 <= i < s.len() && (#[trigger] s[i]).id == id && s[i].role == r
}

/// The subsequence of entities with this role, in registry order.
pub open spec fn filter_role(s: Seq<Entity>, r: Role) -> Seq<Entity>
    decreases s.len(),
{
    if s.len() == 0 {
        Seq::empty()
    } else {
        filter_role(s.drop_last(), r) + (if s.last().role == r {
            seq![s.last()]
        } else {
            Seq::empty()
        })
    }
}

pub open spec fn count_role(s: Seq<Entity>, r: Role) -> nat {
    filter_role(s, r).len()
}

/// The sequence with every entity of this identifier removed, order kept.
pub open spec fn remove_id(s: Seq<Entity>, id: u64) -> Seq<Entity>
    decreases s.len(),
{
    if s.len() == 0 {
        Seq::empty()
    } else {
        remove_id(s.drop_last(), id) + (if s.last().id == id {
            Seq::empty()
        } else {
            seq![s.last()]
        })
    }
}

pub proof fn lemma_filter_role_push(s: Seq<Entity>, x: Entity, r: Role)
    ensures
        filter_role(s.push(x), r) == filter_role(s, r) + (if x.role == r {
            seq![x]
        } else {
            Seq::<Entity>::empty()
        }),
{
    assert(s.push(x).drop_last() =~= s);
    assert(s.push(x).last() == x);
}

pub proof fn lemma_remove_id_push(s: Seq<Entity>, x: Entity, id: u64)
    ensures
        remove_id(s.push(x), id) == remove_id(s, id) + (if x.id == id {
            Seq::<Entity>::empty()
        } else {
            seq![x]
        }),
{
    assert(s.push(x).drop_last() =~= s);
    assert(s.push(x).last() == x);
}

/// Removing an identifier that is not present changes nothing.
pub proof fn lemma_remove_id_absent(s: Seq<Entity>, id: u64)
    requires
        !contains_id(s, id),
    ensures
        remove_id(s, id) == s,
    decreases s.len(),
{
    if s.len() > 0 {
        let t = s.drop_last();
        assert(!contains_id(t, id)) by {
            assert(forall|i: int| 0 <= i < t.len() ==> t[i] == s[i]);
        }
        lemma_remove_id_absent(t, id);
        assert(s.last().id != id);
        assert(remove_id(s, id) =~= s);
    } else {
        assert(remove_id(s, id) =~= s);
    }
}

/// Structure of removal: the result keeps ids distinct, only shrinks,
/// draws every element from the original, and no longer carries the
/// removed identifier.
pub proof fn lemma_remove_id_props(s: Seq<Entity>, id: u64)
    requires
        ids_distinct(s),
    ensures
        ids_distinct(remove_id(s, id)),
        remove_id(s, id).len() <= s.len(),
        forall|k: int|
            0 <= k < remove_id(s, id).len() ==> exists|i: int|
                0 <= i < s.len() && #[trigger] remove_id(s, id)[k] == s[i],
        !contains_id(remove_id(s, id), id),
    decreases s.len(),
{
    if s.len() > 0 {
        let t = s.drop_last();
        let x = s.last();
        assert(forall|i: int| 0 <= i < t.len() ==> t[i] == s[i]);
        assert(ids_distinct(t));
        lemma_remove_id_props(t, id);
        let rt = remove_id(t, id);
        let rs = remove_id(s, id);
        if x.id == id {
            assert(rs =~= rt);
        } else {
            assert(rs =~= rt.push(x));
            assert forall|k: int| 0 <= k < rs.len() implies exists|i: int|
                0 <= i < s.len() && #[trigger] rs[k] == s[i] by {
                if k < rt.len() {
                    let i = choose|i: int| 0 <= i < t.len() && rt[k] == t[i];
                    assert(rs[k] == s[i]);
                } else {
                    assert(rs[k] == s[s.len() - 1]);
                }
            }
            assert forall|i: int, j: int| 0 <= i < j < rs.len() implies rs[i].id != rs[j].id by {
                if j < rt.len() {
                    assert(rt[i].id != rt[j].id);
                } else {
                    let i0 = choose|i0: int| 0 <= i0 < t.len() && rt[i] == t[i0];
                    assert(s[i0].id != x.id);
                }
            }
            assert(!contains_id(rs, id)) by {
                assert(forall|k: int| 0 <= k < rt.len() ==> rs[k] == rt[k]);
                assert(rs[rs.len() - 1].id != id);
                assert forall|k: int| 0 <= k < rs.len() implies (#[trigger] rs[k]).id != id by {
                    if k < rt.len() {
                        assert(!contains_id(rt, id));
                        assert(rt[k].id != id);
                    }
                }
            }
        }
    }
}

/// Destroying an identifier twice has the same effect as destroying it
/// once: removal is idempotent.
pub proof fn lemma_destroy_idempotent(s: Seq<Entity>, id: u64)
    requires
        ids_distinct(s),
    ensures
        remove_id(remove_id(s, id), id) == remove_id(s, id),
{
    lemma_remove_id_props(s, id);
    lemma_remove_id_absent(remove_id(s, id), id);
}

/// Removing one identifier changes the count of a role by exactly one
/// when an entity of that identifier and role is live, and not at all
/// otherwise.
pub proof fn lemma_remove_id_count(s: Seq<Entity>, id: u64, r: Role)
    requires
        ids_distinct(s),
    ensures
        count_role(remove_id(s, id), r) == count_role(s, r) - (if has_id_role(s, id, r) {
            1int
        } else {
            0int
        }),
    decreases s.len(),
{
    if s.len() > 0 {
        let t = s.drop_last();
        let x = s.last();
        assert(forall|i: int| 0 <= i < t.len() ==> t[i] == s[i]);
        assert(ids_distinct(t));
        lemma_remove_id_count(t, id, r);
        let rt = remove_id(t, id);
        let rs = remove_id(s, id);
        if x.id == id {
            assert(rs =~= rt);
            assert(!contains_id(t, id)) by {
                if contains_id(t, id) {
                    let i = choose|i: int| 0 <= i < t.len() && (#[trigger] t[i]).id == id;
                    assert(s[i].id != s[s.len() - 1].id);
                }
            }
            assert(!has_id_role(t, id, r)) by {
                if has_id_role(t, id, r) {
                    let i = choose|i: int|
                        0 <= i < t.len() && (#[trigger] t[i]).id == id && t[i].role == r;
                    assert(contains_id(t, id));
                }
            }
            lemma_remove_id_absent(t, id);
            if x.role == r {
                assert(has_id_role(s, id, r)) by {
                    assert(s[s.len() - 1].id == id && s[s.len() - 1].role == r);
                }
                assert(count_role(s, r) == count_role(t, r) + 1);
            } else {
                assert(!has_id_role(s, id, r)) by {
                    if has_id_role(s, id, r) {
                        let i = choose|i: int|
                            0 <= i < s.len() && (#[trigger] s[i]).id == id && s[i].role == r;
                        assert(i < t.len() ==> contains_id(t, id));
                    }
                }
                assert(count_role(s, r) == count_role(t, r));
            }
        } else {
            assert(rs =~= rt.push(x));
            assert(has_id_role(s, id, r) == has_id_role(t, id, r)) by {
                if has_id_role(s, id, r) {
                    let i = choose|i: int|
                        0 <= i < s.len() && (#[trigger] s[i]).id == id && s[i].role == r;
                    assert(i < t.len());
                    assert(t[i].id == id && t[i].role == r);
                }
                if has_id_role(t, id, r) {
                    let i = choose|i: int|
                        0 <= i < t.len() && (#[trigger] t[i]).id == id && t[i].role == r;
                    assert(s[i].id == id && s[i].role == r);
                }
            }
            if x.role == r {
                assert(count_role(s, r) == count_role(t, r) + 1);
                assert(count_role(rs, r) == count_role(rt, r) + 1) by {
                    assert(rs =~= rt.push(x));
                    lemma_filter_role_push(rt, x, r);
                }
            } else {
                assert(count_role(s, r) == count_role(t, r));
                assert(count_role(rs, r) == count_role(rt, r)) by {
                    assert(rs =~= rt.push(x));
                    lemma_filter_role_push(rt, x, r);
                }
            }
        }
    }
}

/// Removing one identifier leaves the presence of every other untouched.
pub proof fn lemma_remove_id_other(s: Seq<Entity>, id: u64, id2: u64, r: Role)
    requires
        id != id2,
    ensures
        has_id_role(remove_id(s, id), id2, r) == has_id_role(s, id2, r),
        contains_id(remove_id(s, id), id2) == contains_id(s, id2),
    decreases s.len(),
{
    if s.len() > 0 {
        let t = s.drop_last();
        let x = s.last();
        assert(forall|i: int| 0 <= i < t.len() ==> t[i] == s[i]);
        lemma_remove_id_other(t, id, id2, r);
        let rt = remove_id(t, id);
        let rs = remove_id(s, id);
        assert(has_id_role(t, id2, r) ==> has_id_role(s, id2, r)) by {
            if has_id_role(t, id2, r) {
                let i = choose|i: int|
                    0 <= i < t.len() && (#[trigger] t[i]).id == id2 && t[i].role == r;
                assert(s[i].id == id2 && s[i].role == r);
            }
        }
        assert(contains_id(t, id2) ==> contains_id(s, id2)) by {
            if contains_id(t, id2) {
                let i = choose|i: int| 0 <= i < t.len() && (#[trigger] t[i]).id == id2;
                assert(s[i].id == id2);
            }
        }
        if x.id == id {
            assert(rs =~= rt);
            assert(has_id_role(s, id2, r) ==> has_id_role(t, id2, r)) by {
                if has_id_role(s, id2, r) {
                    let i = choose|i: int|
                        0 <= i < s.len() && (#[trigger] s[i]).id == id2 && s[i].role == r;
                    assert(i < t.len());
                }
            }
            assert(contains_id(s, id2) ==> contains_id(t, id2)) by {
                if contains_id(s, id2) {
                    let i = choose|i: int| 0 <= i < s.len() && (#[trigger] s[i]).id == id2;
                    assert(i < t.len());
                }
            }
        } else {
            assert(rs =~= rt.push(x));
            assert(rs[rs.len() - 1] == x);
            assert(forall|k: int| 0 <= k < rt.len() ==> rs[k] == rt[k]);
            if has_id_role(s, id2, r) {
                let i = choose|i: int|
                    0 <= i < s.len() && (#[trigger] s[i]).id == id2 && s[i].role == r;
                if i < t.len() {
                    assert(has_id_role(t, id2, r));
                    let k = choose|k: int|
                        0 <= k < rt.len() && (#[trigger] rt[k]).id == id2 && rt[k].role == r;
                    assert(rs[k].id == id2 && rs[k].role == r);
                } else {
                    assert(rs[rs.len() - 1].id == id2 && rs[rs.len() - 1].role == r);
                }
                assert(has_id_role(rs, id2, r));
            }
            if has_id_role(rs, id2, r) {
                let k = choose|k: int|
                    0 <= k < rs.len() && (#[trigger] rs[k]).id == id2 && rs[k].role == r;
                if k < rt.len() {
                    assert(has_id_role(rt, id2, r));
                    let i = choose|i: int|
                        0 <= i < t.len() && (#[trigger] t[i]).id == id2 && t[i].role == r;
                    assert(s[i].id == id2 && s[i].role == r);
                    assert(has_id_role(s, id2, r));
                } else {
                    assert(s[s.len() - 1].id == id2 && s[s.len() - 1].role == r);
                    assert(has_id_role(s, id2, r));
                }
            }
            if contains_id(s, id2) {
                let i = choose|i: int| 0 <= i < s.len() && (#[trigger] s[i]).id == id2;
                if i < t.len() {
                    assert(contains_id(t, id2));
                    let k = choose|k: int| 0 <= k < rt.len() && (#[trigger] rt[k]).id == id2;
                    assert(rs[k].id == id2);
                } else {
                    assert(rs[rs.len() - 1].id == id2);
                }
                assert(contains_id(rs, id2));
            }
            if contains_id(rs, id2) {
                let k = choose|k: int| 0 <= k < rs.len() && (#[trigger] rs[k]).id == id2;
                if k < rt.len() {
                    assert(contains_id(rt, id2));
                    let i = choose|i: int| 0 <= i < t.len() && (#[trigger] t[i]).id == id2;
                    assert(s[i].id == id2);
                    assert(contains_id(s, id2));
                } else {
                    assert(s[s.len() - 1].id == id2);
                    assert(contains_id(s, id2));
                }
            }
        }
    }
}

/// Elements of the role filter: each carries the role, each comes from
/// the original sequence, distinct identifiers stay distinct, and the
/// filter never grows.
pub proof fn lemma_filter_role_props(s: Seq<Entity>, r: Role)
    ensures
        forall|k: int|
            0 <= k < filter_role(s, r).len() ==> (#[trigger] filter_role(s, r)[k]).role == r,
        forall|k: int|
            0 <= k < filter_role(s, r).len() ==> exists|i: int|
                0 <= i < s.len() && #[trigger] filter_role(s, r)[k] == s[i],
        ids_distinct(s) ==> ids_distinct(filter_role(s, r)),
        filter_role(s, r).len() <= s.len(),
    decreases s.len(),
{
    if s.len() > 0 {
        let t = s.drop_last();
        let x = s.last();
        assert(forall|i: int| 0 <= i < t.len() ==> t[i] == s[i]);
        lemma_filter_role_props(t, r);
        let ft = filter_role(t, r);
        let fs = filter_role(s, r);
        if x.role == r {
            assert(fs =~= ft.push(x));
            assert forall|k: int| 0 <= k < fs.len() implies exists|i: int|
                0 <= i < s.len() && #[trigger] fs[k] == s[i] by {
                if k < ft.len() {
                    let i = choose|i: int| 0 <= i < t.len() && ft[k] == t[i];
                    assert(fs[k] == s[i]);
                } else {
                    assert(fs[k] == s[s.len() - 1]);
                }
            }
            if ids_distinct(s) {
                assert(ids_distinct(t));
                assert forall|i: int, j: int| 0 <= i < j < fs.len() implies fs[i].id
                    != fs[j].id by {
                    if j < ft.len() {
                        assert(ft[i].id != ft[j].id);
                    } else {
                        let i0 = choose|i0: int| 0 <= i0 < t.len() && ft[i] == t[i0];
                        assert(s[i0].id != x.id);
                    }
                }
            }
        } else {
            assert(fs =~= ft);
        }
    }
}

/// Sequences that agree pointwise on roles have the same role counts.
pub proof fn lemma_count_role_pointwise(s1: Seq<Entity>, s2: Seq<Entity>, r: Role)
    requires
        s1.len() == s2.len(),
        forall|i: int| 0 <= i < s1.len() ==> s1[i].role == s2[i].role,
    ensures
        count_role(s1, r) == count_role(s2, r),
    decreases s1.len(),
{
    if s1.len() > 0 {
        let t1 = s1.drop_last();
        let t2 = s2.drop_last();
        assert(forall|i: int| 0 <= i < t1.len() ==> t1[i] == s1[i] && t2[i] == s2[i]);
        lemma_count_role_pointwise(t1, t2, r);
        assert(s1.last().role == s2.last().role);
    }
}

/// With distinct identifiers, one identifier names entities of one role
/// only.
pub proof fn lemma_distinct_role_unique(s: Seq<Entity>, id: u64, r1: Role, r2: Role)
    requires
        ids_distinct(s),
        has_id_role(s, id, r1),
        has_id_role(s, id, r2),
    ensures
        r1 == r2,
{
    let i = choose|i: int| 0 <= i < s.len() && (#[trigger] s[i]).id == id && s[i].role == r1;
    let j = choose|j: int| 0 <= j < s.len() && (#[trigger] s[j]).id == id && s[j].role == r2;
    if i < j {
        assert(s[i].id != s[j].id);
    } else if j < i {
        assert(s[j].id != s[i].id);
    }
}

/// The sole owner of live entities. Other components refer to entities by
/// identifier only, so a destruction can never dangle.
pub struct Registry {
    pub entities: Vec<Entity>,
    pub next_id: u64,
}

impl Registry {
    pub open spec fn wf(self) -> bool {
        &&& ids_distinct(self.entities@)
        &&& all_wf(self.entities@)
        &&& ids_below(self.entities@, self.next_id)
    }
}

impl Default for Registry {
    fn default() -> (r: Self)
        ensures
            r.wf(),
            r.entities@.len() == 0,
            r.next_id == 1,
    {
        Registry { entities: Vec::new(), next_id: 1 }
    }
}

impl Registry {
    /// Creates a new entity and hands back its fresh, never-reused
    /// identifier.
    pub fn create(
        &mut self,
        role: Role,
        pos: Vec2,
        size: Vec2,
        speed: i64,
        formation: Option<Formation>,
    ) -> (id: u64)
        requires
            old(self).wf(),
            old(self).next_id < u64::MAX,
            entity_wf(
                (Entity { id: old(self).next_id, pos, size, speed, role, formation }),
            ),
        ensures
            final(self).wf(),
            id == old(self).next_id,
            final(self).next_id == old(self).next_id + 1,
            final(self).entities@ == old(self).entities@.push(
                (Entity { id, pos, size, speed, role, formation }),
            ),
    {
        let id = self.next_id;
        self.next_id = self.next_id + 1;
        let e = Entity { id, pos, size, speed, role, formation };
        self.entities.push(e);
        proof {
            let s = self.entities@;
            let olds = old(self).entities@;
            assert(forall|i: int| 0 <= i < olds.len() ==> s[i] == olds[i]);
            assert forall|i: int, j: int| 0 <= i < j < s.len() implies s[i].id != s[j].id by {
                if j < olds.len() {
                    assert(olds[i].id != olds[j].id);
                } else {
                    assert(olds[i].id < old(self).next_id);
                }
            }
            assert forall|i: int| 0 <= i < s.len() implies entity_wf(#[trigger] s[i]) by {
                if i < olds.len() {
                    assert(entity_wf(olds[i]));
                }
            }
            assert forall|i: int| 0 <= i < s.len() implies (#[trigger] s[i]).id < self.next_id by {
                if i < olds.len() {
                    assert(olds[i].id < old(self).next_id);
                }
            }
        }
        id
    }

    /// Removes the entity with this identifier if it is live; destroying
    /// an already-destroyed identifier is a no-op, not an error.
    pub fn destroy(&mut self, id: u64)
        requires
            old(self).wf(),
        ensures
            final(self).wf(),
            final(self).next_id == old(self).next_id,
            final(self).entities@ == remove_id(old(self).entities@, id),
    {
        let ghost olds = self.entities@;
        let n = self.entities.len();
        let mut out: Vec<Entity> = Vec::new();
        let mut i: usize = 0;
        while i < n
            invariant
                i <= n,
                n == self.entities@.len(),
                self.entities@ == olds,
                out@ == remove_id(olds.take(i as int), id),
            decreases n - i,
        {
            let e = self.entities[i];
            proof {
                assert(olds.take(i as int + 1) =~= olds.take(i as int).push(olds[i as int]));
                lemma_remove_id_push(olds.take(i as int), olds[i as int], id);
            }
            if e.id != id {
                out.push(e);
            }
            i = i + 1;
        }
        proof {
            assert(olds.take(n as int) =~= olds);
        }
        self.entities = out;
        proof {
            lemma_remove_id_props(olds, id);
            let rs = remove_id(olds, id);
            assert forall|k: int| 0 <= k < rs.len() implies entity_wf(#[trigger] rs[k]) by {
                let i0 = choose|i0: int| 0 <= i0 < olds.len() && rs[k] == olds[i0];
                assert(entity_wf(olds[i0]));
            }
            assert forall|k: int| 0 <= k < rs.len() implies (#[trigger] rs[k]).id
                < self.next_id by {
                let i0 = choose|i0: int| 0 <= i0 < olds.len() && rs[k] == olds[i0];
                assert(olds[i0].id < self.next_id);
            }
        }
    }

    /// A snapshot of the entity with this identifier, if it is live.
    pub fn get(&self, id: u64) -> (r: Option<Entity>)
        ensures
            match r {
                Option::Some(e) => exists|i: int|
                    0 <= i < self.entities@.len() && #[trigger] self.entities@[i] == e && e.id
                        == id,
                Option::None => !contains_id(self.entities@, id),
            },
    {
        let n = self.entities.len();
        let mut i: usize = 0;
        while i < n
            invariant
                i <= n,
                n == self.entities@.len(),
                forall|j: int| 0 <= j < i ==> (#[trigger] self.entities@[j]).id != id,
            decreases n - i,
        {
            let e = self.entities[i];
            if e.id == id {
                return Some(e);
            }
            i = i + 1;
        }
        None
    }

    /// Snapshots of all live entities of one role, in registry order.
    pub fn each(&self, role: Role) -> (r: Vec<Entity>)
        ensures
            r@ == filter_role(self.entities@, role),
    {
        let s = &self.entities;
        let n = s.len();
        let mut out: Vec<Entity> = Vec::new();
        let mut i: usize = 0;
        while i < n
            invariant
                i <= n,
                n == s@.len(),
                s@ == self.entities@,
                out@ == filter_role(s@.take(i as int), role),
            decreases n - i,
        {
            let e = s[i];
            proof {
                assert(s@.take(i as int + 1) =~= s@.take(i as int).push(s@[i as int]));
                lemma_filter_role_push(s@.take(i as int), s@[i as int], role);
            }
            if e.role == role {
                out.push(e);
            }
            i = i + 1;
        }
        proof {
            assert(s@.take(n as int) =~= s@);
        }
        out
    }
}

} // verus!
