use vstd::prelude::*;
use crate::geom::{Pos, boxes_overlap, size_or_unit, effective_size, overlaps};
use crate::motion::in_i64;
use crate::world::{Entity, Tag, World, sole_player, ids_increasing, ids_below, only_player_dies};

verus! {

/// Which keys are held during a tick.
#[derive(Clone, Copy, Debug, PartialEq, Eq, Structural)]
pub struct Keys {
    pub right: bool,
    pub left: bool,
    pub up: bool,
    pub down: bool,
    /// The key that ends a game at once.
    pub quit: bool,
}

/// The client rectangle of the window, from (0, 0) to (width, height), in sub-units.
#[derive(Clone, Copy, Debug, PartialEq, Eq, Structural)]
pub struct Window {
    pub width: i64,
    pub height: i64,
}

/// Numerator and denominator of the rational used for 1/sqrt(2) on a diagonal.
pub const DIAG_NUM: u64 = 7071068;
pub const DIAG_DEN: u64 = 10000000;

pub open spec fn key_axis(plus: bool, minus: bool) -> int {
    (if plus { 1int } else { 0int }) - (if minus { 1int } else { 0int })
}

/// The distance covered along one axis by a diagonal move of length `step`.
pub open spec fn diag_step(step: int) -> int {
    step * DIAG_NUM / DIAG_DEN as int
}

/// Displacement from the held keys: unit intent, scaled by `speed * dt`; diagonals are
/// shortened so that the move keeps its length.
pub open spec fn key_displacement(k: Keys, speed: u32, dt: u32) -> (int, int) {
    let ix = key_axis(k.right, k.left);
    let iy = key_axis(k.up, k.down);
    let step = speed * dt;
    if ix == 0 && iy == 0 {
        (0, 0)
    } else if ix != 0 && iy != 0 {
        (ix * diag_step(step), iy * diag_step(step))
    } else {
        (ix * step, iy * step)
    }
}

pub open spec fn keys_fit(p: Pos, k: Keys, speed: u32, dt: u32) -> bool {
    in_i64(p.x + key_displacement(k, speed, dt).0) && in_i64(p.y + key_displacement(k, speed, dt).1)
}

pub open spec fn moved_by_keys(e: Entity, k: Keys, speed: u32, dt: u32) -> Entity {
    Entity {
        pos: Pos {
            x: (e.pos.x + key_displacement(k, speed, dt).0) as i64,
            y: (e.pos.y + key_displacement(k, speed, dt).1) as i64,
        },
        ..e
    }
}

/// `v` first raised to `lo`, then lowered to `hi`.
pub open spec fn clamp_spec(v: int, lo: int, hi: int) -> int {
    let a = if v < lo { lo } else { v };
    if a > hi { hi } else { a }
}

/// The player moved so that its box stays in the window.
pub open spec fn confined(e: Entity, w: Window) -> Entity {
    let sz = size_or_unit(e.size);
    let hw = sz.w / 2;
    let hh = sz.h / 2;
    Entity {
        pos: Pos {
            x: clamp_spec(e.pos.x as int, hw as int, w.width - hw) as i64,
            y: clamp_spec(e.pos.y as int, hh as int, w.height - hh) as i64,
        },
        ..e
    }
}

/// `e` is a peep whose box overlaps the player's.
pub open spec fn picked(e: Entity, p: Entity) -> bool {
    e.tag == Tag::Peep && boxes_overlap(p.pos, size_or_unit(p.size), e.pos, size_or_unit(e.size))
}

/// `e` is a wall whose box overlaps the player's.
pub open spec fn hits_wall(e: Entity, p: Entity) -> bool {
    e.tag == Tag::Wall && boxes_overlap(p.pos, size_or_unit(p.size), e.pos, size_or_unit(e.size))
}

/// What the pickup check leaves: every entity but the peeps that overlap `p`, in order.
pub open spec fn unpicked(s: Seq<Entity>, p: Entity) -> Seq<Entity>
    decreases s.len(),
{
    if s.len() == 0 {
        s
    } else {
        let r = unpicked(s.drop_last(), p);
        if picked(s.last(), p) { r } else { r.push(s.last()) }
    }
}

/// Number of peeps that overlap `p`.
pub open spec fn count_picked(s: Seq<Entity>, p: Entity) -> nat
    decreases s.len(),
{
    if s.len() == 0 {
        0
    } else {
        count_picked(s.drop_last(), p) + if picked(s.last(), p) { 1nat } else { 0nat }
    }
}

pub open spec fn wall_hit(s: Seq<Entity>, p: Entity) -> bool {
    exists|i: int| 0 <= i < s.len() && hits_wall(#[trigger] s[i], p)
}

/// The player at `pi` marked dead when some wall overlaps it.
pub open spec fn after_walls(s: Seq<Entity>, pi: int) -> Seq<Entity> {
    s.update(pi, Entity { dead: s[pi].dead || wall_hit(s, s[pi]), ..s[pi] })
}

fn key_step(plus: bool, minus: bool) -> (r: i64)
    ensures
        r == key_axis(plus, minus),
{
    (if plus { 1i64 } else { 0i64 }) - (if minus { 1i64 } else { 0i64 })
}

/// The displacement that the held keys give over `dt` milliseconds at `speed`.
pub fn displacement(k: Keys, speed: u32, dt: u32) -> (r: (i128, i128))
    ensures
        r.0 == key_displacement(k, speed, dt).0,
        r.1 == key_displacement(k, speed, dt).1,
        -(u64::MAX as int) <= r.0 <= u64::MAX,
        -(u64::MAX as int) <= r.1 <= u64::MAX,
{
    let ix = key_step(k.right, k.left);
    let iy = key_step(k.up, k.down);
    proof {
        assert(0 <= speed * dt <= 0xffff_ffffint * 0xffff_ffffint) by (nonlinear_arith)
            requires 0 <= speed <= u32::MAX, 0 <= dt <= u32::MAX;
    }
    let step: u64 = (speed as u64) * (dt as u64);
    if ix == 0 && iy == 0 {
        (0, 0)
    } else if ix != 0 && iy != 0 {
        proof {
            assert(0 <= step * DIAG_NUM <= 0xffff_ffff_ffff_ffffint * 7071068) by (nonlinear_arith)
                requires 0 <= step <= u64::MAX;
        }
        let d: u128 = (step as u128) * (DIAG_NUM as u128) / (DIAG_DEN as u128);
        proof {
            assert(d <= step) by (nonlinear_arith)
                requires d == step * 7071068 / 10000000int, step >= 0;
        }
        (scaled(ix, d as u64), scaled(iy, d as u64))
    } else {
        (scaled(ix, step), scaled(iy, step))
    }
}

fn scaled(unit: i64, m: u64) -> (r: i128)
    requires
        -1 <= unit <= 1,
    ensures
        r == unit * m,
        -(m as int) <= r <= m,
{
    if unit == 0 {
        0
    } else if unit > 0 {
        assert(unit == 1);
        m as i128
    } else {
        assert(unit == -1);
        -(m as i128)
    }
}

fn clamp_i64(v: i64, lo: i64, hi: i64) -> (r: i64)
    ensures
        r == clamp_spec(v as int, lo as int, hi as int),
{
    let a = if v < lo { lo } else { v };
    if a > hi { hi } else { a }
}

impl World {
    /// Moves the player at `pi` by the displacement of the held keys.
    pub fn move_with_keys(&mut self, pi: usize, k: Keys, speed: u32, dt: u32)
        requires
            old(self).wf(),
            sole_player(old(self).entities@, pi as int),
            keys_fit(old(self).entities@[pi as int].pos, k, speed, dt),
        ensures
            final(self).wf(),
            final(self).next_id == old(self).next_id,
            final(self).entities@ == old(self).entities@.update(
                pi as int,
                moved_by_keys(old(self).entities@[pi as int], k, speed, dt),
            ),
    {
        let (dx, dy) = displacement(k, speed, dt);
        let e = self.entities[pi];
        let moved = Entity {
            pos: Pos { x: (e.pos.x as i128 + dx) as i64, y: (e.pos.y as i128 + dy) as i64 },
            ..e
        };
        self.entities.set(pi, moved);
    }

    /// Clamps the player at `pi` so that its box stays inside `w`.
    pub fn confine_to_window(&mut self, pi: usize, w: Window)
        requires
            old(self).wf(),
            sole_player(old(self).entities@, pi as int),
        ensures
            final(self).wf(),
            final(self).next_id == old(self).next_id,
            final(self).entities@ == old(self).entities@.update(
                pi as int,
                confined(old(self).entities@[pi as int], w),
            ),
    {
        let e = self.entities[pi];
        let sz = effective_size(e.size);
        let hw: i64 = (sz.w / 2) as i64;
        let hh: i64 = (sz.h / 2) as i64;
        let x2: i128 = w.width as i128 - hw as i128;
        let y2: i128 = w.height as i128 - hh as i128;
        let x1: i64 = if e.pos.x < hw { hw } else { e.pos.x };
        let y1: i64 = if e.pos.y < hh { hh } else { e.pos.y };
        let nx: i64 = if x1 as i128 > x2 { x2 as i64 } else { x1 };
        let ny: i64 = if y1 as i128 > y2 { y2 as i64 } else { y1 };
        let moved = Entity { pos: Pos { x: nx, y: ny }, ..e };
        self.entities.set(pi, moved);
    }

    /// Removes every peep whose box overlaps the player's; returns the player's new index.
    pub fn check_for_pickup_collisions(&mut self, pi: usize) -> (r: usize)
        requires
            old(self).wf(),
            sole_player(old(self).entities@, pi as int),
        ensures
            final(self).wf(),
            final(self).next_id == old(self).next_id,
            final(self).entities@ == unpicked(
                old(self).entities@,
                old(self).entities@[pi as int],
            ),
            sole_player(final(self).entities@, r as int),
            final(self).entities@[r as int] == old(self).entities@[pi as int],
    {
        let ghost s0 = self.entities@;
        let p = self.entities[pi];
        let ps = effective_size(p.size);
        let mut out: Vec<Entity> = Vec::new();
        let mut np: usize = 0;
        let mut i: usize = 0;
        while i < self.entities.len()
            invariant
                s0 == old(self).entities@,
                self.entities@ == s0,
                old(self).wf(),
                self.next_id == old(self).next_id,
                p == s0[pi as int],
                ps == size_or_unit(p.size),
                sole_player(s0, pi as int),
                i <= s0.len(),
                out@ == unpicked(s0.subrange(0, i as int), p),
                i > pi ==> np < out@.len() && out@[np as int] == p,
                forall|k: int| 0 <= k < out@.len() && k != np ==> #[trigger] out@[k].tag != Tag::Player,
                i <= pi ==> np == 0 && forall|k: int| 0 <= k < out@.len() ==> #[trigger] out@[k].tag != Tag::Player,
                out@.len() <= i,
                ids_increasing(out@),
                forall|k: int, j: int| 0 <= k < out@.len() && i <= j < s0.len() ==> out@[k].id < s0[j].id,
                ids_below(out@, self.next_id),
                only_player_dies(out@),
            decreases s0.len() - i,
        {
            let e = self.entities[i];
            let hit = e.tag == Tag::Peep && overlaps(p.pos, ps, e.pos, effective_size(e.size));
            assert(s0.subrange(0, i + 1).drop_last() =~= s0.subrange(0, i as int));
            if !hit {
                if i == pi {
                    np = out.len();
                }
                out.push(e);
            }
            i = i + 1;
        }
        assert(s0.subrange(0, i as int) =~= s0);
        self.entities = out;
        np
    }

    /// Marks the player at `pi` dead when its box overlaps any wall's.
    pub fn check_for_wall_collisions(&mut self, pi: usize)
        requires
            old(self).wf(),
            sole_player(old(self).entities@, pi as int),
        ensures
            final(self).wf(),
            final(self).next_id == old(self).next_id,
            final(self).entities@ == after_walls(old(self).entities@, pi as int),
    {
        let ghost s0 = self.entities@;
        let p = self.entities[pi];
        let ps = effective_size(p.size);
        let mut hit = false;
        let mut i: usize = 0;
        while i < self.entities.len()
            invariant
                self.entities@ == s0,
                s0 == old(self).entities@,
                p == s0[pi as int],
                ps == size_or_unit(p.size),
                0 <= pi < s0.len(),
                i <= s0.len(),
                hit <==> exists|j: int| 0 <= j < i && hits_wall(#[trigger] s0[j], p),
            decreases s0.len() - i,
        {
            let e = self.entities[i];
            if e.tag == Tag::Wall && overlaps(p.pos, ps, e.pos, effective_size(e.size)) {
                assert(hits_wall(s0[i as int], p));
                hit = true;
            }
            i = i + 1;
        }
        if hit {
            let dead = Entity { dead: true, ..p };
            self.entities.set(pi, dead);
        }
        assert(self.entities@ =~= after_walls(s0, pi as int));
    }
}

} // verus!
