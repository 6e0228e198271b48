use vstd::prelude::*;
use crate::game::{GameState, Rules, TickInput, next_state, moved, systems_after, player_idx, keyed, walled};
use crate::geom::{Pos, Size, boxes_overlap, size_or_unit};
use crate::player::{moved_by_keys, hits_wall, wall_hit};
use crate::motion::{Bounds, bounce_entity, motion_fits, outside};
use crate::player::{picked, unpicked, count_picked};
use crate::setup::abs;
use crate::world::{Entity, Tag, count_tag, ids_increasing, sole_player};

verus! {

/// The step of `e` over `dt` leaves the x bounds, so its horizontal velocity is reversed.
pub open spec fn crosses_x(e: Entity, b: Bounds, dt: u32) -> bool {
    e.vel matches Some(v) && outside(e.pos.x + v.x * dt, b.min_x as int, b.max_x as int)
}

/// Horizontal reflection happens once per crossing: an entity inside the x bounds that
/// crosses one has its x velocity negated and its horizontal flip toggled, and the next
/// tick with the same delta does not reflect it again. Where reflection puts the entity
/// back on the edge, this needs a step no longer than the span between the bounds.
pub proof fn lemma_reflect_once(e: Entity, b: Bounds, dt: u32)
    requires
        e.vel is Some,
        b.min_x <= e.pos.x <= b.max_x,
        motion_fits(e, dt),
        motion_fits(bounce_entity(e, b, dt), dt),
        b.clamp_on_bounce ==> abs(e.vel->0.x as int) * dt <= b.max_x - b.min_x,
    ensures
        bounce_entity(e, b, dt).vel->0.x == if crosses_x(e, b, dt) {
            -e.vel->0.x
        } else {
            e.vel->0.x as int
        },
        bounce_entity(e, b, dt).flip_x == (e.flip_x != crosses_x(e, b, dt)),
        crosses_x(e, b, dt) ==> !crosses_x(bounce_entity(e, b, dt), b, dt),
{
    let v = e.vel->0;
    let e1 = bounce_entity(e, b, dt);
    let x1 = e.pos.x + v.x * dt;
    if crosses_x(e, b, dt) {
        assert((-v.x) * dt == -(v.x * dt)) by (nonlinear_arith);
        if b.clamp_on_bounce {
            if x1 > b.max_x {
                assert(v.x * dt > 0);
                assert(v.x > 0) by (nonlinear_arith)
                    requires v.x * dt > 0, dt >= 0;
                assert(abs(v.x as int) * dt == v.x * dt);
            } else {
                assert(v.x * dt < 0);
                assert(v.x < 0) by (nonlinear_arith)
                    requires v.x * dt < 0, dt >= 0;
                assert(abs(v.x as int) * dt == (-v.x) * dt);
            }
        }
        assert(e1.vel->0.x == -v.x);
    }
}

/// Every element of what the pickup check keeps is an element of the input.
pub proof fn lemma_unpicked_from(s: Seq<Entity>, p: Entity)
    ensures
        unpicked(s, p).len() <= s.len(),
        forall|j: int|
            0 <= j < unpicked(s, p).len() ==> exists|k: int|
                0 <= k < s.len() && #[trigger] unpicked(s, p)[j] == s[k],
    decreases s.len(),
{
    if s.len() > 0 {
        let d = s.drop_last();
        lemma_unpicked_from(d, p);
        assert forall|j: int| 0 <= j < unpicked(s, p).len() implies exists|k: int|
            0 <= k < s.len() && #[trigger] unpicked(s, p)[j] == s[k] by {
            if j < unpicked(d, p).len() {
                let k = choose|k: int| 0 <= k < d.len() && unpicked(d, p)[j] == d[k];
                assert(unpicked(s, p)[j] == s[k]);
            } else {
                assert(unpicked(s, p)[j] == s[s.len() - 1]);
            }
        }
    }
}

/// Every entity that is not a picked peep is kept.
pub proof fn lemma_unpicked_keeps(s: Seq<Entity>, p: Entity)
    ensures
        forall|k: int|
            0 <= k < s.len() && !picked(#[trigger] s[k], p) ==> exists|j: int|
                0 <= j < unpicked(s, p).len() && unpicked(s, p)[j] == s[k],
    decreases s.len(),
{
    if s.len() > 0 {
        let d = s.drop_last();
        lemma_unpicked_keeps(d, p);
        assert forall|k: int| 0 <= k < s.len() && !picked(#[trigger] s[k], p) implies exists|j: int|
            0 <= j < unpicked(s, p).len() && unpicked(s, p)[j] == s[k] by {
            if k < d.len() {
                assert(d[k] == s[k]);
                let j = choose|j: int| 0 <= j < unpicked(d, p).len() && unpicked(d, p)[j] == d[k];
                assert(unpicked(s, p)[j] == s[k]);
            } else {
                assert(unpicked(s, p)[unpicked(d, p).len() as int] == s[k]);
            }
        }
    }
}

/// The pickup check keeps identifiers in increasing order.
pub proof fn lemma_unpicked_ids(s: Seq<Entity>, p: Entity)
    requires
        ids_increasing(s),
    ensures
        ids_increasing(unpicked(s, p)),
    decreases s.len(),
{
    if s.len() > 0 {
        let d = s.drop_last();
        lemma_unpicked_ids(d, p);
        lemma_unpicked_from(d, p);
        if !picked(s.last(), p) {
            let u = unpicked(s, p);
            assert forall|i: int, j: int| 0 <= i < j < u.len() implies u[i].id < u[j].id by {
                if j == u.len() - 1 {
                    let k = choose|k: int| 0 <= k < d.len() && unpicked(d, p)[i] == d[k];
                    assert(s[k] == d[k]);
                } else {
                    assert(u[i] == unpicked(d, p)[i]);
                }
            }
        }
    }
}

/// The pickup check lowers the number of peeps by exactly the number of peeps that
/// overlap the player, and so never raises it.
pub proof fn lemma_pickup_count(s: Seq<Entity>, p: Entity)
    ensures
        count_tag(unpicked(s, p), Tag::Peep) + count_picked(s, p) == count_tag(s, Tag::Peep),
        count_tag(unpicked(s, p), Tag::Peep) <= count_tag(s, Tag::Peep),
    decreases s.len(),
{
    if s.len() > 0 {
        let d = s.drop_last();
        lemma_pickup_count(d, p);
        if !picked(s.last(), p) {
            assert(unpicked(s, p).drop_last() =~= unpicked(d, p));
        }
    }
}

/// From the splash screen, an expired countdown always leads into play, and an
/// unexpired one always stays on the splash screen.
pub proof fn lemma_splash_expiry(over: bool)
    ensures
        next_state(GameState::Splash, true, over) == GameState::InGame,
        next_state(GameState::Splash, false, over) == GameState::Splash,
{
}

/// Position for position, `b` keeps the identifiers of `a` and every marker that `a` has.
pub open spec fn markers_kept(a: Seq<Entity>, b: Seq<Entity>) -> bool {
    a.len() == b.len() && forall|i: int|
        0 <= i < a.len() ==> (#[trigger] b[i]).id == a[i].id && (a[i].bob ==> b[i].bob) && (
        a[i].dead ==> b[i].dead) && b[i].tag == a[i].tag
}

proof fn lemma_moved_keeps(s: Seq<Entity>, r: Rules, t: TickInput)
    ensures
        markers_kept(s, moved(s, r, t)),
{
}

proof fn lemma_keys_keep(s: Seq<Entity>, r: Rules, t: TickInput)
    ensures
        markers_kept(s, keyed(s, r, t)),
{
    let s2 = moved(s, r, t);
    let s3 = keyed(s, r, t);
    lemma_moved_keeps(s, r, t);
    assert forall|i: int| 0 <= i < s.len() implies (#[trigger] s3[i]).id == s[i].id && (s[i].bob
        ==> s3[i].bob) && (s[i].dead ==> s3[i].dead) && s3[i].tag == s[i].tag by {
        assert(s2[i].id == s[i].id);
    }
}

proof fn lemma_walls_keep(s4: Seq<Entity>, r: Rules, qi: int)
    ensures
        markers_kept(s4, walled(s4, r, qi)),
{
}

/// Markers are never taken away by a tick: an entity that bobs, or is dead, before a tick
/// still bobs, or is still dead, after it, for as long as it exists.
pub proof fn lemma_markers_sticky(s: Seq<Entity>, r: Rules, t: TickInput)
    requires
        ids_increasing(s),
    ensures
        forall|i: int, j: int|
            0 <= i < s.len() && 0 <= j < systems_after(s, r, t).len() && #[trigger] s[i].id
                == #[trigger] systems_after(s, r, t)[j].id ==> (s[i].bob ==> systems_after(
                s,
                r,
                t,
            )[j].bob) && (s[i].dead ==> systems_after(s, r, t)[j].dead),
        markers_kept(s, moved(s, r, t)),
{
    let s3 = keyed(s, r, t);
    let p = s3[player_idx(moved(s, r, t))];
    let s4 = unpicked(s3, p);
    let qi = player_idx(s4);
    let out = systems_after(s, r, t);
    lemma_moved_keeps(s, r, t);
    lemma_keys_keep(s, r, t);
    lemma_unpicked_from(s3, p);
    lemma_walls_keep(s4, r, qi);
    assert forall|i: int, j: int|
        0 <= i < s.len() && 0 <= j < out.len() && #[trigger] s[i].id == #[trigger] out[j].id implies (s[i].bob
        ==> out[j].bob) && (s[i].dead ==> out[j].dead) by {
        assert(out[j].id == s4[j].id);
        let k = choose|k: int| 0 <= k < s3.len() && s4[j] == s3[k];
        assert(s3[k].id == s[k].id);
        if i != k {
            if i < k {
                assert(s[i].id < s[k].id);
            } else {
                assert(s[k].id < s[i].id);
            }
        }
    }
}

/// The box of `inner` lies inside the box of `outer`.
pub open spec fn encloses(outer: Pos, os: Size, inner: Pos, is: Size) -> bool {
    2 * outer.x - os.w <= 2 * inner.x - is.w && 2 * inner.x + is.w <= 2 * outer.x + os.w && 2
        * outer.y - os.h <= 2 * inner.y - is.h && 2 * inner.y + is.h <= 2 * outer.y + os.h
}

/// A box of positive size inside another overlaps it.
pub proof fn lemma_enclosed_overlaps(outer: Pos, os: Size, inner: Pos, is: Size)
    requires
        encloses(outer, os, inner, is),
        is.w > 0,
        is.h > 0,
    ensures
        boxes_overlap(inner, is, outer, os),
{
}

/// A player of positive size that stands still inside a wall that stands still is dead
/// after one tick, whatever else the tick does.
proof fn lemma_still_player(s: Seq<Entity>, r: Rules, t: TickInput, pi: int, wi: int)
    requires
        ids_increasing(s),
        sole_player(s, pi),
        0 <= wi < s.len(),
        s[wi].vel is None,
        !s[wi].bob,
        s[pi].vel is None,
        !s[pi].bob,
        !t.keys.right && !t.keys.left && !t.keys.up && !t.keys.down,
    ensures
        player_idx(moved(s, r, t)) == pi,
        keyed(s, r, t)[pi] == s[pi],
        keyed(s, r, t)[wi] == s[wi],
        sole_player(keyed(s, r, t), pi),
        ids_increasing(keyed(s, r, t)),
{
    let s2 = moved(s, r, t);
    lemma_moved_keeps(s, r, t);
    assert(s2[pi] == s[pi]);
    assert(s2[wi] == s[wi]);
    assert(sole_player(s2, pi)) by {
        assert forall|j: int| 0 <= j < s2.len() && j != pi implies #[trigger] s2[j].tag
            != Tag::Player by {
            assert(s2[j].tag == s[j].tag);
        }
    }
    assert(player_idx(s2) == pi);
    let s3 = keyed(s, r, t);
    assert(s3 == s2.update(pi, moved_by_keys(s2[pi], t.keys, r.player_speed, t.dt)));
    lemma_keys_keep(s, r, t);
    assert forall|i: int, j: int| 0 <= i < j < s3.len() implies s3[i].id < s3[j].id by {
        assert(s3[i].id == s[i].id && s3[j].id == s[j].id);
    }
    assert forall|j: int| 0 <= j < s3.len() && j != pi implies #[trigger] s3[j].tag != Tag::Player by {
        assert(s3[j].tag == s[j].tag);
    }
}

proof fn lemma_unpicked_sole(s3: Seq<Entity>, p: Entity, pi: int) -> (qi: int)
    requires
        ids_increasing(s3),
        sole_player(s3, pi),
        !picked(s3[pi], p),
    ensures
        sole_player(unpicked(s3, p), qi),
        unpicked(s3, p)[qi] == s3[pi],
{
    let s4 = unpicked(s3, p);
    lemma_unpicked_keeps(s3, p);
    lemma_unpicked_from(s3, p);
    lemma_unpicked_ids(s3, p);
    let qi = choose|j: int| 0 <= j < s4.len() && s4[j] == s3[pi];
    assert forall|j: int| 0 <= j < s4.len() && j != qi implies #[trigger] s4[j].tag
        != Tag::Player by {
        let k = choose|k: int| 0 <= k < s3.len() && s4[j] == s3[k];
        if s4[j].tag == Tag::Player {
            assert(k == pi);
            if j < qi {
                assert(s4[j].id < s4[qi].id);
            } else {
                assert(s4[qi].id < s4[j].id);
            }
        }
    }
    qi
}

/// A player of positive size that stands still inside a wall that stands still is dead
/// after one tick, whatever else the tick does.
pub proof fn lemma_enclosing_wall_kills(s: Seq<Entity>, r: Rules, t: TickInput, pi: int, wi: int)
    requires
        ids_increasing(s),
        sole_player(s, pi),
        0 <= wi < s.len(),
        s[wi].tag == Tag::Wall,
        s[wi].vel is None,
        !s[wi].bob,
        s[pi].vel is None,
        !s[pi].bob,
        !t.keys.right && !t.keys.left && !t.keys.up && !t.keys.down,
        size_or_unit(s[pi].size).w > 0 && size_or_unit(s[pi].size).h > 0,
        encloses(s[wi].pos, size_or_unit(s[wi].size), s[pi].pos, size_or_unit(s[pi].size)),
    ensures
        exists|j: int|
            0 <= j < systems_after(s, r, t).len() && (#[trigger] systems_after(s, r, t)[j]).tag
                == Tag::Player && systems_after(s, r, t)[j].dead,
{
    lemma_still_player(s, r, t, pi, wi);
    let s3 = keyed(s, r, t);
    let p = s3[pi];
    let s4 = unpicked(s3, p);
    assert(!picked(s3[wi], p));
    let qi = lemma_unpicked_sole(s3, p, pi);
    lemma_unpicked_keeps(s3, p);
    let wj = choose|j: int| 0 <= j < s4.len() && s4[j] == s3[wi];
    assert(player_idx(s4) == qi);
    lemma_enclosed_overlaps(s[wi].pos, size_or_unit(s[wi].size), s[pi].pos, size_or_unit(s[pi].size));
    assert(hits_wall(s4[wj], s4[qi]));
    assert(wall_hit(s4, s4[qi]));
    let out = systems_after(s, r, t);
    assert(out[qi].tag == Tag::Player && out[qi].dead);
}

proof fn lemma_count_same_tags(a: Seq<Entity>, b: Seq<Entity>)
    requires
        a.len() == b.len(),
        forall|i: int| 0 <= i < a.len() ==> (#[trigger] b[i]).tag == a[i].tag,
    ensures
        count_tag(a, Tag::Peep) == count_tag(b, Tag::Peep),
    decreases a.len(),
{
    if a.len() > 0 {
        lemma_count_same_tags(a.drop_last(), b.drop_last());
    }
}

/// Over a tick the number of peeps falls by exactly the number of peeps that overlap the
/// player after it has moved, and never rises.
pub proof fn lemma_tick_peep_count(s: Seq<Entity>, r: Rules, t: TickInput)
    ensures
        count_tag(systems_after(s, r, t), Tag::Peep) + count_picked(
            keyed(s, r, t),
            keyed(s, r, t)[player_idx(moved(s, r, t))],
        ) == count_tag(s, Tag::Peep),
        count_tag(systems_after(s, r, t), Tag::Peep) <= count_tag(s, Tag::Peep),
{
    let s3 = keyed(s, r, t);
    let p = s3[player_idx(moved(s, r, t))];
    let s4 = unpicked(s3, p);
    lemma_keys_keep(s, r, t);
    lemma_count_same_tags(s, s3);
    lemma_pickup_count(s3, p);
    lemma_walls_keep(s4, r, player_idx(s4));
    lemma_count_same_tags(s4, systems_after(s, r, t));
    lemma_pickup_count(s3, p);
}

} // verus!
