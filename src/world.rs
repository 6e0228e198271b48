use vstd::prelude::*;
use crate::geom::{Pos, Size};

verus! {

/// What an entity is; assigned at spawn and never changed.
#[derive(Clone, Copy, Debug, PartialEq, Eq, Structural)]
pub enum Tag {
    Player,
    Peep,
    Wall,
}

/// Velocity in sub-units per millisecond (equivalently, world units per second).
#[derive(Clone, Copy, Debug, PartialEq, Eq, Structural)]
pub struct Vel {
    pub x: i64,
    pub y: i64,
}

/// One simulated entity, as the store holds it.
#[derive(Clone, Copy, Debug, PartialEq, Eq)]
pub struct Entity {
    pub id: u64,
    pub tag: Tag,
    pub pos: Pos,
    /// Draw order only; the simulation never reads it.
    pub z: i64,
    pub size: Option<Size>,
    pub vel: Option<Vel>,
    pub bob: bool,
    pub dead: bool,
    pub flip_x: bool,
    pub flip_y: bool,
}

/// Failures of the simulation.
#[derive(Clone, Copy, Debug, PartialEq, Eq, Structural)]
pub enum GameError {
    /// A spawn configuration lacks a usable area or speed range.
    Configuration,
    /// A system that works on the player found no player, or more than one.
    MissingSingleton,
    /// A tick would carry a coordinate or a velocity beyond the range of `i64`.
    OutOfRange,
}

/// The entity store: entities in spawn order, with increasing identifiers.
pub struct World {
    pub entities: Vec<Entity>,
    pub next_id: u64,
}

pub open spec fn ids_increasing(s: Seq<Entity>) -> bool {
    forall|i: int, j: int| 0 <= i < j < s.len() ==> s[i].id < s[j].id
}

pub open spec fn ids_below(s: Seq<Entity>, bound: u64) -> bool {
    forall|i: int| 0 <= i < s.len() ==> s[i].id < bound
}

pub open spec fn only_player_dies(s: Seq<Entity>) -> bool {
    forall|i: int| 0 <= i < s.len() && #[trigger] s[i].dead ==> s[i].tag == Tag::Player
}

/// `i` is the index of the one player in `s`.
pub open spec fn sole_player(s: Seq<Entity>, i: int) -> bool {
    0 <= i < s.len() && s[i].tag == Tag::Player && forall|j: int|
        0 <= j < s.len() && j != i ==> #[trigger] s[j].tag != Tag::Player
}

pub open spec fn has_sole_player(s: Seq<Entity>) -> bool {
    exists|i: int| sole_player(s, i)
}

pub open spec fn count_tag(s: Seq<Entity>, t: Tag) -> nat
    decreases s.len(),
{
    if s.len() == 0 {
        0
    } else {
        count_tag(s.drop_last(), t) + if s.last().tag == t { 1nat } else { 0nat }
    }
}

impl World {
    pub open spec fn wf(&self) -> bool {
        ids_increasing(self.entities@) && ids_below(self.entities@, self.next_id)
            && only_player_dies(self.entities@)
    }

    pub fn new() -> (r: World)
        ensures
            r.wf(),
            r.entities@.len() == 0,
            r.next_id == 0,
    {
        World { entities: Vec::new(), next_id: 0 }
    }

    /// Adds a fresh entity and returns its identifier.
    pub fn spawn(
        &mut self,
        tag: Tag,
        pos: Pos,
        z: i64,
        size: Option<Size>,
        vel: Option<Vel>,
    ) -> (r: u64)
        requires
            old(self).wf(),
            old(self).next_id < u64::MAX,
        ensures
            final(self).wf(),
            r == old(self).next_id,
            final(self).next_id == old(self).next_id + 1,
            final(self).entities@ == old(self).entities@.push(
                (Entity {
                    id: r,
                    tag,
                    pos,
                    z,
                    size,
                    vel,
                    bob: false,
                    dead: false,
                    flip_x: false,
                    flip_y: false,
                }),
            ),
    {
        let id = self.next_id;
        self.entities.push(
            Entity {
                id,
                tag,
                pos,
                z,
                size,
                vel,
                bob: false,
                dead: false,
                flip_x: false,
                flip_y: false,
            },
        );
        self.next_id = id + 1;
        id
    }

    /// Removes every entity at once, as when a screen is torn down.
    pub fn despawn_all(&mut self)
        requires
            old(self).wf(),
        ensures
            final(self).wf(),
            final(self).entities@.len() == 0,
            final(self).next_id == old(self).next_id,
    {
        self.entities = Vec::new();
    }

    pub fn len(&self) -> (r: usize)
        ensures
            r == self.entities@.len(),
    {
        self.entities.len()
    }

    /// Number of entities with tag `t`.
    pub fn count(&self, t: Tag) -> (r: usize)
        ensures
            r == count_tag(self.entities@, t),
    {
        let mut n: usize = 0;
        let mut i: usize = 0;
        while i < self.entities.len()
            invariant
                i <= self.entities@.len(),
                n == count_tag(self.entities@.subrange(0, i as int), t),
                n <= i,
            decreases self.entities@.len() - i,
        {
            assert(self.entities@.subrange(0, i + 1).drop_last() =~= self.entities@.subrange(
                0,
                i as int,
            ));
            if self.entities[i].tag == t {
                n = n + 1;
            }
            i = i + 1;
        }
        assert(self.entities@.subrange(0, i as int) =~= self.entities@);
        n
    }

    /// Index of the one player; fails when there is none or more than one.
    pub fn player_index(&self) -> (r: Result<usize, GameError>)
        ensures
            r is Ok <==> has_sole_player(self.entities@),
            r matches Ok(i) ==> sole_player(self.entities@, i as int),
            r matches Err(e) ==> e == GameError::MissingSingleton,
    {
        let mut found: Option<usize> = None;
        let mut i: usize = 0;
        while i < self.entities.len()
            invariant
                i <= self.entities@.len(),
                match found {
                    None => forall|j: int| 0 <= j < i ==> #[trigger] self.entities@[j].tag != Tag::Player,
                    Some(k) => k < i && self.entities@[k as int].tag == Tag::Player && forall|j: int|
                        0 <= j < i && j != k ==> #[trigger] self.entities@[j].tag != Tag::Player,
                },
            decreases self.entities@.len() - i,
        {
            if self.entities[i].tag == Tag::Player {
                match found {
                    None => {
                        found = Some(i);
                    },
                    Some(k) => {
                        proof {
                            assert forall|m: int| !sole_player(self.entities@, m) by {
                                if sole_player(self.entities@, m) {
                                    if m == k {
                                        assert(self.entities@[i as int].tag != Tag::Player);
                                    } else {
                                        assert(self.entities@[k as int].tag != Tag::Player);
                                    }
                                }
                            }
                        }
                        return Err(GameError::MissingSingleton);
                    },
                }
            }
            i = i + 1;
        }
        match found {
            None => {
                proof {
                    assert forall|m: int| !sole_player(self.entities@, m) by {
                        if sole_player(self.entities@, m) {
                            assert(self.entities@[m].tag != Tag::Player);
                        }
                    }
                }
                Err(GameError::MissingSingleton)
            },
            Some(k) => {
                assert(sole_player(self.entities@, k as int));
                Ok(k)
            },
        }
    }
}

} // verus!
