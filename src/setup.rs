use vstd::prelude::*;
use rand::Rng;
use rand::rngs::StdRng;
use crate::geom::{Pos, Size};
use crate::player::Window;
use crate::world::{Entity, GameError, Tag, Vel, World};

verus! {

#[verifier::external_type_specification]
#[verifier::external_body]
pub struct ExStdRng(rand::rngs::StdRng);

/// Relies on rand's `Rng::gen_range` over `0..n` on a `StdRng`: the value lies in the range.
/// It panics on an empty range, which `requires` leaves out.
#[verifier::external_body]
fn draw_below(rng: &mut StdRng, n: u64) -> (r: u64)
    requires
        n > 0,
    ensures
        r < n,
{
    rng.gen_range(0..n)
}

/// Largest window side that a layout accepts, in sub-units.
pub const MAX_SIDE: i64 = 0x100_0000_0000;

/// Side of a player or peep sprite, in sub-units.
pub const SPRITE_SIDE: u32 = 50000;
/// Width and height of a wall, and the grid that walls snap to, in sub-units.
pub const WALL_W: u32 = 100000;
pub const WALL_H: u32 = 50000;
pub const GRID_X: i64 = 100000;
pub const GRID_Y: i64 = 150000;
/// Offsets of a wall from its grid cell's corner, in sub-units.
pub const WALL_DX: i64 = 50000;
pub const WALL_DY: i64 = 25000;
/// How far above the window's centre the player starts, in sub-units.
pub const PLAYER_LIFT: i64 = 50000;
/// Draw orders.
pub const Z_SPRITE: i64 = 1000;
pub const Z_WALL: i64 = 100;

/// How a game's entities are laid out when it starts.
#[derive(Clone, Copy, Debug, PartialEq, Eq, Structural)]
pub struct SetupConfig {
    pub window: Window,
    pub num_peeps: u32,
    /// The first `num_still` peeps never move.
    pub num_still: u32,
    pub num_walls: u32,
    /// Peep speeds lie in `min_speed..max_speed`, in sub-units per millisecond.
    pub min_speed: u32,
    pub max_speed: u32,
}

impl SetupConfig {
    /// The window has an area that fits the layout, and moving peeps have a speed range.
    pub open spec fn valid(&self) -> bool {
        0 < self.window.width <= MAX_SIDE && 0 < self.window.height <= MAX_SIDE
            && (self.num_still < self.num_peeps ==> self.min_speed < self.max_speed)
    }

    pub fn validate(&self) -> (r: Result<(), GameError>)
        ensures
            r is Ok <==> self.valid(),
            r matches Err(e) ==> e == GameError::Configuration,
    {
        if 0 < self.window.width && self.window.width <= MAX_SIDE && 0 < self.window.height
            && self.window.height <= MAX_SIDE && (self.num_still >= self.num_peeps
            || self.min_speed < self.max_speed) {
            Ok(())
        } else {
            Err(GameError::Configuration)
        }
    }
}

pub open spec fn sprite_size() -> Size {
    Size { w: SPRITE_SIDE, h: SPRITE_SIDE }
}

pub open spec fn abs(v: int) -> int {
    if v < 0 { -v } else { v }
}

/// The larger of the two components' magnitudes.
pub open spec fn speed_of(v: Vel) -> int {
    if abs(v.x as int) >= abs(v.y as int) { abs(v.x as int) } else { abs(v.y as int) }
}

pub open spec fn fresh(e: Entity, id: int, tag: Tag, z: i64, size: Size) -> bool {
    e.id == id && e.tag == tag && e.z == z && e.size == Some(size) && !e.bob && !e.dead
        && !e.flip_x && !e.flip_y
}

/// The player as a layout places it.
pub open spec fn player_spawn(e: Entity, c: SetupConfig) -> bool {
    fresh(e, 0, Tag::Player, Z_SPRITE, sprite_size()) && e.vel is None && e.pos == Pos {
        x: (c.window.width / 2) as i64,
        y: (c.window.height / 2 + PLAYER_LIFT) as i64,
    }
}

/// The `k`-th peep as a layout places it: somewhere in the window, still or moving.
pub open spec fn peep_spawn(e: Entity, c: SetupConfig, k: int) -> bool {
    fresh(e, 1 + k, Tag::Peep, Z_SPRITE, sprite_size()) && 0 <= e.pos.x < c.window.width && 0
        <= e.pos.y < c.window.height && if k < c.num_still {
        e.vel is None
    } else {
        e.vel matches Some(v) && c.min_speed <= speed_of(v) < c.max_speed
    }
}

/// The place of a wall in grid cell (`cx`, `cy`).
pub open spec fn grid_pos(cx: int, cy: int) -> Pos {
    Pos { x: (cx * GRID_X + WALL_DX) as i64, y: (cy * GRID_Y + WALL_DY) as i64 }
}

/// A wall as a layout places it: snapped to a grid cell that meets the window.
pub open spec fn wall_spawn(e: Entity, c: SetupConfig, id: int) -> bool {
    fresh(e, id, Tag::Wall, Z_WALL, Size { w: WALL_W, h: WALL_H }) && e.vel is None && exists|
        cx: int,
        cy: int,
    |
        0 <= cx <= c.window.width / GRID_X && 0 <= cy <= c.window.height / GRID_Y && e.pos
            == #[trigger] grid_pos(cx, cy)
}

/// The layout of a fresh game: the player first, then the peeps, then the walls.
pub open spec fn is_layout(s: Seq<Entity>, c: SetupConfig) -> bool {
    s.len() == 1 + c.num_peeps + c.num_walls && player_spawn(s[0], c) && (forall|k: int|
        0 <= k < c.num_peeps ==> peep_spawn(#[trigger] s[1 + k], c, k)) && (forall|k: int|
        1 + c.num_peeps <= k < s.len() ==> wall_spawn(#[trigger] s[k], c, k))
}

/// A velocity of magnitude `speed` (the larger component's), in a drawn direction.
fn draw_velocity(rng: &mut StdRng, speed: u32) -> (r: Vel)
    ensures
        speed_of(r) == speed,
{
    let axis = draw_below(rng, 2);
    let sign = draw_below(rng, 2);
    let other: i64 = draw_below(rng, 2 * (speed as u64) + 1) as i64 - speed as i64;
    let main: i64 = if sign == 0 { speed as i64 } else { -(speed as i64) };
    if axis == 0 {
        Vel { x: main, y: other }
    } else {
        Vel { x: other, y: main }
    }
}

/// Spawns the player, the peeps and the walls of a new game at drawn places.
pub fn game_setup(c: &SetupConfig, rng: &mut StdRng) -> (r: World)
    requires
        c.valid(),
    ensures
        r.wf(),
        r.next_id == r.entities@.len(),
        is_layout(r.entities@, *c),
{
    let mut w = World::new();
    let width = c.window.width;
    let height = c.window.height;
    w.spawn(
        Tag::Player,
        Pos { x: width / 2, y: height / 2 + PLAYER_LIFT },
        Z_SPRITE,
        Some(Size { w: SPRITE_SIDE, h: SPRITE_SIDE }),
        None,
    );
    assert(player_spawn(w.entities@[0], *c));
    let mut k: u32 = 0;
    while k < c.num_peeps
        invariant
            c.valid(),
            width == c.window.width,
            height == c.window.height,
            w.wf(),
            w.next_id == w.entities@.len(),
            k <= c.num_peeps,
            w.entities@.len() == 1 + k,
            player_spawn(w.entities@[0], *c),
            forall|j: int| 0 <= j < k ==> peep_spawn(#[trigger] w.entities@[1 + j], *c, j),
        decreases c.num_peeps - k,
    {
        let x = draw_below(rng, width as u64) as i64;
        let y = draw_below(rng, height as u64) as i64;
        let vel = if k < c.num_still {
            None
        } else {
            let speed = c.min_speed + draw_below(rng, (c.max_speed - c.min_speed) as u64) as u32;
            Some(draw_velocity(rng, speed))
        };
        let ghost before = w.entities@;
        w.spawn(Tag::Peep, Pos { x, y }, Z_SPRITE, Some(Size { w: SPRITE_SIDE, h: SPRITE_SIDE }), vel);
        assert forall|j: int| 0 <= j < k + 1 implies peep_spawn(#[trigger] w.entities@[1 + j], *c, j) by {
            if j < k {
                assert(w.entities@[1 + j] == before[1 + j]);
            }
        }
        k = k + 1;
    }
    let cells_x: u64 = (width / GRID_X) as u64 + 1;
    let cells_y: u64 = (height / GRID_Y) as u64 + 1;
    let mut n: u32 = 0;
    while n < c.num_walls
        invariant
            c.valid(),
            width == c.window.width,
            height == c.window.height,
            w.wf(),
            w.next_id == w.entities@.len(),
            n <= c.num_walls,
            cells_x == c.window.width / GRID_X + 1,
            cells_y == c.window.height / GRID_Y + 1,
            w.entities@.len() == 1 + c.num_peeps + n,
            player_spawn(w.entities@[0], *c),
            forall|j: int| 0 <= j < c.num_peeps ==> peep_spawn(#[trigger] w.entities@[1 + j], *c, j),
            forall|j: int|
                1 + c.num_peeps <= j < w.entities@.len() ==> wall_spawn(#[trigger] w.entities@[j], *c, j),
        decreases c.num_walls - n,
    {
        let cx = draw_below(rng, cells_x) as i64;
        let cy = draw_below(rng, cells_y) as i64;
        let ghost before = w.entities@;
        let id = w.spawn(
            Tag::Wall,
            Pos { x: cx * GRID_X + WALL_DX, y: cy * GRID_Y + WALL_DY },
            Z_WALL,
            Some(Size { w: WALL_W, h: WALL_H }),
            None,
        );
        assert(w.entities@[id as int].pos == grid_pos(cx as int, cy as int));
        assert(wall_spawn(w.entities@[id as int], *c, id as int));
        assert forall|j: int| 0 <= j < c.num_peeps implies peep_spawn(#[trigger] w.entities@[1 + j], *c, j) by {
            assert(w.entities@[1 + j] == before[1 + j]);
        }
        assert forall|j: int| 1 + c.num_peeps <= j < w.entities@.len() implies wall_spawn(#[trigger] w.entities@[j], *c, j) by {
            if j < before.len() {
                assert(w.entities@[j] == before[j]);
            }
        }
        n = n + 1;
    }
    w
}

} // verus!
