use vstd::prelude::*;
use crate::geom::Pos;
use crate::world::{Entity, Vel, World};

verus! {

/// The rectangle that bouncing entities stay in, and what happens at its x edges.
#[derive(Clone, Copy, Debug, PartialEq, Eq, Structural)]
pub struct Bounds {
    pub min_x: i64,
    pub max_x: i64,
    pub min_y: i64,
    pub max_y: i64,
    /// Put an entity that left through an x edge back on that edge.
    pub clamp_on_bounce: bool,
}

pub open spec fn in_i64(v: int) -> bool {
    i64::MIN <= v <= i64::MAX
}

pub open spec fn outside(v: int, lo: int, hi: int) -> bool {
    v < lo || v > hi
}

/// The move of one entity over `dt` milliseconds can be carried out in `i64`.
pub open spec fn motion_fits(e: Entity, dt: u32) -> bool {
    match e.vel {
        None => true,
        Some(v) => in_i64(e.pos.x + v.x * dt) && in_i64(e.pos.y + v.y * dt) && v.x != i64::MIN
            && v.y != i64::MIN,
    }
}

/// One tick of motion: move by velocity, then reflect off the bounds.
pub open spec fn bounce_entity(e: Entity, b: Bounds, dt: u32) -> Entity {
    match e.vel {
        None => e,
        Some(v) => {
            let x1 = e.pos.x + v.x * dt;
            let y1 = e.pos.y + v.y * dt;
            let xo = outside(x1, b.min_x as int, b.max_x as int);
            let yo = outside(y1, b.min_y as int, b.max_y as int);
            let nx = if xo && b.clamp_on_bounce {
                if x1 < b.min_x { b.min_x as int } else { b.max_x as int }
            } else {
                x1
            };
            Entity {
                pos: Pos { x: nx as i64, y: y1 as i64 },
                vel: Some(Vel { x: (if xo { -v.x } else { v.x as int }) as i64, y: (if yo { -v.y } else { v.y as int }) as i64 }),
                bob: e.bob || xo,
                flip_x: e.flip_x != xo,
                flip_y: e.flip_y != yo,
                ..e
            }
        },
    }
}

pub open spec fn bounce_all(s: Seq<Entity>, b: Bounds, dt: u32) -> Seq<Entity> {
    Seq::new(s.len(), |i: int| bounce_entity(s[i], b, dt))
}

pub open spec fn all_motion_fits(s: Seq<Entity>, dt: u32) -> bool {
    forall|i: int| 0 <= i < s.len() ==> motion_fits(#[trigger] s[i], dt)
}

/// The vertical offset of a bobbing entity can be applied in `i64`.
pub open spec fn bob_fits(s: Seq<Entity>, offset: i64) -> bool {
    forall|i: int| 0 <= i < s.len() && (#[trigger] s[i]).bob ==> in_i64(s[i].pos.y + offset)
}

pub open spec fn bob_entity(e: Entity, offset: i64) -> Entity {
    if e.bob {
        Entity { pos: Pos { y: (e.pos.y + offset) as i64, ..e.pos }, ..e }
    } else {
        e
    }
}

pub open spec fn bob_all(s: Seq<Entity>, offset: i64) -> Seq<Entity> {
    Seq::new(s.len(), |i: int| bob_entity(s[i], offset))
}

pub(crate) fn bounce_one(e: Entity, b: Bounds, dt: u32) -> (r: Entity)
    requires
        motion_fits(e, dt),
    ensures
        r == bounce_entity(e, b, dt),
{
    match e.vel {
        None => e,
        Some(v) => {
            proof {
                assert(-(0x8000_0000_0000_0000int) * 0xffff_ffffint <= v.x * dt <= 0x7fff_ffff_ffff_ffffint * 0xffff_ffffint) by (nonlinear_arith)
                    requires i64::MIN <= v.x <= i64::MAX, 0 <= dt <= u32::MAX;
                assert(-(0x8000_0000_0000_0000int) * 0xffff_ffffint <= v.y * dt <= 0x7fff_ffff_ffff_ffffint * 0xffff_ffffint) by (nonlinear_arith)
                    requires i64::MIN <= v.y <= i64::MAX, 0 <= dt <= u32::MAX;
            }
            let x1: i128 = e.pos.x as i128 + (v.x as i128) * (dt as i128);
            let y1: i128 = e.pos.y as i128 + (v.y as i128) * (dt as i128);
            let xo = x1 < b.min_x as i128 || x1 > b.max_x as i128;
            let yo = y1 < b.min_y as i128 || y1 > b.max_y as i128;
            let nx: i64 = if xo && b.clamp_on_bounce {
                if x1 < b.min_x as i128 { b.min_x } else { b.max_x }
            } else {
                x1 as i64
            };
            Entity {
                pos: Pos { x: nx, y: y1 as i64 },
                vel: Some(Vel { x: if xo { -v.x } else { v.x }, y: if yo { -v.y } else { v.y } }),
                bob: e.bob || xo,
                flip_x: e.flip_x != xo,
                flip_y: e.flip_y != yo,
                ..e
            }
        },
    }
}

impl World {
    /// Advances every entity that has a velocity and reflects it off `b`.
    pub fn move_bounce(&mut self, b: Bounds, dt: u32)
        requires
            old(self).wf(),
            all_motion_fits(old(self).entities@, dt),
        ensures
            final(self).wf(),
            final(self).next_id == old(self).next_id,
            final(self).entities@ == bounce_all(old(self).entities@, b, dt),
    {
        let ghost s0 = self.entities@;
        let mut i: usize = 0;
        while i < self.entities.len()
            invariant
                s0 == old(self).entities@,
                self.next_id == old(self).next_id,
                self.entities@.len() == s0.len(),
                i <= s0.len(),
                all_motion_fits(s0, dt),
                forall|j: int| 0 <= j < i ==> self.entities@[j] == bounce_entity(s0[j], b, dt),
                forall|j: int| i <= j < s0.len() ==> self.entities@[j] == s0[j],
            decreases s0.len() - i,
        {
            let e = bounce_one(self.entities[i], b, dt);
            self.entities.set(i, e);
            i = i + 1;
        }
        assert(self.entities@ =~= bounce_all(s0, b, dt));
    }

    /// Adds `offset` to the y coordinate of every entity that bobs.
    pub fn apply_bob(&mut self, offset: i64)
        requires
            old(self).wf(),
            bob_fits(old(self).entities@, offset),
        ensures
            final(self).wf(),
            final(self).next_id == old(self).next_id,
            final(self).entities@ == bob_all(old(self).entities@, offset),
    {
        let ghost s0 = self.entities@;
        let mut i: usize = 0;
        while i < self.entities.len()
            invariant
                s0 == old(self).entities@,
                self.next_id == old(self).next_id,
                self.entities@.len() == s0.len(),
                i <= s0.len(),
                bob_fits(s0, offset),
                forall|j: int| 0 <= j < i ==> self.entities@[j] == bob_entity(s0[j], offset),
                forall|j: int| i <= j < s0.len() ==> self.entities@[j] == s0[j],
            decreases s0.len() - i,
        {
            let e = self.entities[i];
            if e.bob {
                assert(in_i64(s0[i as int].pos.y + offset));
                let moved = Entity { pos: Pos { y: e.pos.y + offset, ..e.pos }, ..e };
                self.entities.set(i, moved);
            }
            i = i + 1;
        }
        assert(self.entities@ =~= bob_all(s0, offset));
    }
}

} // verus!
