use vstd::prelude::*;
use crate::geom::WinSize;
use crate::geom::win_wf;
use crate::fixmath::atan2_mrad;
use crate::fixmath::atan2_mrad_s;
use crate::fixmath::div_u;
use crate::rng::coin_flip;
use crate::rng::pick_in_range;

verus! {

/// How many enemies share one formation before a new one is drawn.
pub const FORMATION_SIZE: u32 = 3;

/// A flight-path descriptor shared by a batch of enemies: a start point on
/// a side edge, an offset center for the arc, an ellipse radius pair, and
/// a running angle in milliradians that each member advances on its own.
#[derive(Clone, Copy, PartialEq, Eq, Structural, Debug)]
pub struct Formation {
    pub start_x: i64,
    pub start_y: i64,
    pub offset_x: i64,
    pub offset_y: i64,
    pub radius_x: i64,
    pub radius_y: i64,
    pub angle: i64,
    pub id: u32,
}

pub open spec fn formation_wf(f: Formation) -> bool {
    &&& -1048576 <= f.start_x <= 1048576
    &&& -1048576 <= f.start_y <= 1048576
    &&& -1048576 <= f.offset_x <= 1048576
    &&& 0 <= f.offset_y <= 1048576
    &&& 80000 <= f.radius_x < 150000
    &&& f.radius_y == 100000
    &&& -6284 < f.angle < 6284
}

/// Process-wide generator state: a sequence counter for formation
/// identity, the formation the current batch shares, and how many
/// enemies have been assigned to it.
pub struct FormationMaker {
    pub seq_id: u32,
    pub current: Option<Formation>,
    pub current_members: u32,
}

pub open spec fn maker_wf(m: FormationMaker) -> bool {
    match m.current {
        Option::None => m.current_members == 0,
        Option::Some(f) => formation_wf(f) && 1 <= m.current_members <= FORMATION_SIZE,
    }
}

/// A formation batch never exceeds `FORMATION_SIZE` members: the
/// generator's invariant bounds the membership count, and `make` starts a
/// fresh batch of one the moment a full batch is asked for another
/// member.
pub proof fn lemma_formation_batch_cap(m: FormationMaker)
    requires
        maker_wf(m),
    ensures
        m.current_members <= FORMATION_SIZE,
{
}

impl Default for FormationMaker {
    fn default() -> (r: Self)
        ensures
            r.seq_id == 0,
            r.current is None,
            r.current_members == 0,
    {
        FormationMaker { seq_id: 0, current: None, current_members: 0 }
    }
}

impl FormationMaker {
    /// Hands the current formation out again while its batch has room, and
    /// draws a brand-new randomized one when there is none or the batch is
    /// full. A batch therefore never exceeds `FORMATION_SIZE` members.
    pub fn make(&mut self, win: &WinSize) -> (f: Formation)
        requires
            maker_wf(*old(self)),
            win_wf(*win),
            old(self).seq_id < u32::MAX,
        ensures
            maker_wf(*final(self)),
            final(self).current == Some(f),
            formation_wf(f),
            (old(self).current is Some && old(self).current_members < FORMATION_SIZE) ==> ({
                &&& f == old(self).current.unwrap()
                &&& final(self).current_members == old(self).current_members + 1
                &&& final(self).seq_id == old(self).seq_id
            }),
            (old(self).current is None || old(self).current_members >= FORMATION_SIZE) ==> ({
                &&& final(self).current_members == 1
                &&& final(self).seq_id == old(self).seq_id + 1
                &&& f.id == old(self).seq_id + 1
                &&& (f.start_x == win.w as int / 2 || f.start_x == -(win.w as int / 2))
                &&& -(win.h as int / 2 - 100000) <= f.start_y < win.h as int / 2 - 100000
                &&& -(win.w as int / 4) <= f.offset_x < win.w as int / 4
                &&& 0 <= f.offset_y < win.h as int / 2 - 100000
                &&& 80000 <= f.radius_x < 150000
                &&& f.radius_y == 100000
                &&& f.angle == atan2_mrad_s(
                    f.start_y - f.offset_x as int,
                    f.start_x - f.offset_y as int,
                )
            }),
    {
        if self.current.is_some() && self.current_members < FORMATION_SIZE {
            self.current_members = self.current_members + 1;
            self.current.unwrap()
        } else {
            let h: i64 = div_u(win.h, 2) - 100000;
            let w4: i64 = div_u(win.w, 4);
            let half_w: i64 = div_u(win.w, 2);
            let x: i64 = if coin_flip() {
                half_w
            } else {
                -half_w
            };
            let y: i64 = pick_in_range(-h, h);
            let ox: i64 = pick_in_range(-w4, w4);
            let oy: i64 = pick_in_range(0, h);
            let rx: i64 = pick_in_range(80000, 150000);
            let angle: i64 = atan2_mrad(y - ox, x - oy);
            self.seq_id = self.seq_id + 1;
            let f = Formation {
                start_x: x,
                start_y: y,
                offset_x: ox,
                offset_y: oy,
                radius_x: rx,
                radius_y: 100000,
                angle,
                id: self.seq_id,
            };
            self.current = Some(f);
            self.current_members = 1;
            f
        }
    }
}

} // verus!
