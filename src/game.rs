use vstd::prelude::*;
use rand::rngs::StdRng;
use crate::motion::{Bounds, bounce_all, bob_all, bounce_entity, bob_entity, motion_fits, in_i64, bounce_one};
use crate::player::{Keys, Window, keys_fit, moved_by_keys, unpicked, after_walls, confined, displacement};
use crate::setup::{SetupConfig, game_setup, is_layout};
use crate::world::{Entity, GameError, Tag, World, count_tag, sole_player, has_sole_player};

verus! {

/// Which screen is active; each decides which systems run.
#[derive(Clone, Copy, Debug, PartialEq, Eq, Structural, Hash)]
pub enum GameState {
    Splash,
    MainMenu,
    InGame,
}

impl Default for GameState {
    /// A process starts on the splash screen.
    fn default() -> (r: GameState)
        ensures
            r == GameState::Splash,
    {
        GameState::Splash
    }
}

/// A one-shot countdown, in milliseconds.
#[derive(Clone, Copy, Debug, PartialEq, Eq, Structural)]
pub struct SplashTimer {
    pub elapsed: u64,
    pub duration: u64,
}

impl SplashTimer {
    pub open spec fn finished(&self) -> bool {
        self.elapsed >= self.duration
    }

    pub fn new(duration: u64) -> (r: SplashTimer)
        ensures
            r.elapsed == 0,
            r.duration == duration,
    {
        SplashTimer { elapsed: 0, duration }
    }

    /// Advances by `dt`, stopping at the duration; returns whether the countdown has expired.
    pub fn tick(&mut self, dt: u32) -> (r: bool)
        ensures
            final(self).duration == old(self).duration,
            final(self).elapsed == if old(self).elapsed + dt >= old(self).duration {
                old(self).duration as int
            } else {
                old(self).elapsed + dt
            },
            r == final(self).finished(),
            r <==> old(self).elapsed + dt >= old(self).duration,
    {
        if self.elapsed >= self.duration || self.duration - self.elapsed <= dt as u64 {
            self.elapsed = self.duration;
        } else {
            self.elapsed = self.elapsed + dt as u64;
        }
        self.elapsed >= self.duration
    }
}

/// The fixed rules of a game's ticks.
#[derive(Clone, Copy, Debug, PartialEq, Eq, Structural)]
pub struct Rules {
    pub bounds: Bounds,
    pub window: Window,
    /// Player speed, in sub-units per millisecond.
    pub player_speed: u32,
    /// Keep the player's box inside the window.
    pub confine: bool,
}

/// What one tick brings from outside.
#[derive(Clone, Copy, Debug, PartialEq, Eq, Structural)]
pub struct TickInput {
    /// Time since the previous tick, in milliseconds.
    pub dt: u32,
    pub keys: Keys,
    /// The vertical offset that bobbing entities get this tick, in sub-units.
    pub bob_offset: i64,
}

/// The arithmetic of one tick on `e` stays within `i64`.
pub open spec fn entity_tick_fits(e: Entity, r: Rules, t: TickInput) -> bool {
    let e1 = bounce_entity(e, r.bounds, t.dt);
    let e2 = bob_entity(e1, t.bob_offset);
    motion_fits(e, t.dt) && (e1.bob ==> in_i64(e1.pos.y + t.bob_offset)) && (e.tag == Tag::Player
        ==> keys_fit(e2.pos, t.keys, r.player_speed, t.dt))
}

pub open spec fn tick_fits(s: Seq<Entity>, r: Rules, t: TickInput) -> bool {
    forall|i: int| 0 <= i < s.len() ==> entity_tick_fits(#[trigger] s[i], r, t)
}

/// Index of the one player, where there is one.
pub open spec fn player_idx(s: Seq<Entity>) -> int {
    choose|i: int| sole_player(s, i)
}

/// Motion, then bobbing: the systems that need no player.
pub open spec fn moved(s: Seq<Entity>, r: Rules, t: TickInput) -> Seq<Entity> {
    bob_all(bounce_all(s, r.bounds, t.dt), t.bob_offset)
}

/// A tick up to and including the player's move.
pub open spec fn keyed(s: Seq<Entity>, r: Rules, t: TickInput) -> Seq<Entity> {
    let s2 = moved(s, r, t);
    let pi = player_idx(s2);
    if 0 <= pi < s2.len() {
        s2.update(pi, moved_by_keys(s2[pi], t.keys, r.player_speed, t.dt))
    } else {
        s2
    }
}

/// The wall check and confinement, on the player at `qi`.
pub open spec fn walled(s4: Seq<Entity>, r: Rules, qi: int) -> Seq<Entity> {
    if 0 <= qi < s4.len() {
        let s5 = after_walls(s4, qi);
        if r.confine {
            s5.update(qi, confined(s5[qi], r.window))
        } else {
            s5
        }
    } else {
        s4
    }
}

/// The whole of one game tick, where the world has one player.
pub open spec fn systems_after(s: Seq<Entity>, r: Rules, t: TickInput) -> Seq<Entity> {
    let s3 = keyed(s, r, t);
    let s4 = unpicked(s3, s3[player_idx(moved(s, r, t))]);
    walled(s4, r, player_idx(s4))
}

pub open spec fn any_dead_player(s: Seq<Entity>) -> bool {
    exists|i: int| 0 <= i < s.len() && (#[trigger] s[i]).tag == Tag::Player && s[i].dead
}

/// A game ends when no peep is left, the player is dead, or quit is held.
pub open spec fn game_over(s: Seq<Entity>, k: Keys) -> bool {
    count_tag(s, Tag::Peep) == 0 || any_dead_player(s) || k.quit
}

/// The state that follows `st` in one tick.
pub open spec fn next_state(st: GameState, countdown_expired: bool, over: bool) -> GameState {
    match st {
        GameState::Splash => if countdown_expired { GameState::InGame } else { GameState::Splash },
        GameState::MainMenu => GameState::MainMenu,
        GameState::InGame => if over { GameState::Splash } else { GameState::InGame },
    }
}

/// The state machine of one tick, from the current state and this tick's events.
pub fn transition(st: GameState, countdown_expired: bool, over: bool) -> (r: GameState)
    ensures
        r == next_state(st, countdown_expired, over),
{
    match st {
        GameState::Splash => if countdown_expired { GameState::InGame } else { GameState::Splash },
        GameState::MainMenu => GameState::MainMenu,
        GameState::InGame => if over { GameState::Splash } else { GameState::InGame },
    }
}

fn entity_fits(e: Entity, r: Rules, t: TickInput) -> (ok: bool)
    ensures
        ok == entity_tick_fits(e, r, t),
{
    let fits = match e.vel {
        None => true,
        Some(v) => {
            proof {
                assert(-(0x8000_0000_0000_0000int) * 0xffff_ffffint <= v.x * t.dt <= 0x7fff_ffff_ffff_ffffint * 0xffff_ffffint) by (nonlinear_arith)
                    requires i64::MIN <= v.x <= i64::MAX, 0 <= t.dt <= u32::MAX;
                assert(-(0x8000_0000_0000_0000int) * 0xffff_ffffint <= v.y * t.dt <= 0x7fff_ffff_ffff_ffffint * 0xffff_ffffint) by (nonlinear_arith)
                    requires i64::MIN <= v.y <= i64::MAX, 0 <= t.dt <= u32::MAX;
            }
            let x1: i128 = e.pos.x as i128 + (v.x as i128) * (t.dt as i128);
            let y1: i128 = e.pos.y as i128 + (v.y as i128) * (t.dt as i128);
            i64::MIN as i128 <= x1 && x1 <= i64::MAX as i128 && i64::MIN as i128 <= y1 && y1
                <= i64::MAX as i128 && v.x != i64::MIN && v.y != i64::MIN
        },
    };
    if !fits {
        return false;
    }
    let e1 = bounce_one(e, r.bounds, t.dt);
    let by: i128 = e1.pos.y as i128 + t.bob_offset as i128;
    if e1.bob && (by < i64::MIN as i128 || by > i64::MAX as i128) {
        return false;
    }
    if e.tag != Tag::Player {
        return true;
    }
    let py: i128 = if e1.bob { by } else { e1.pos.y as i128 };
    let (dx, dy) = displacement(t.keys, r.player_speed, t.dt);
    let nx = e1.pos.x as i128 + dx;
    let ny = py + dy;
    i64::MIN as i128 <= nx && nx <= i64::MAX as i128 && i64::MIN as i128 <= ny && ny
        <= i64::MAX as i128
}

impl World {
    /// Whether a tick of `r` with input `t` stays within `i64` on this world.
    pub fn tick_in_range(&self, r: Rules, t: TickInput) -> (ok: bool)
        ensures
            ok == tick_fits(self.entities@, r, t),
    {
        let mut i: usize = 0;
        while i < self.entities.len()
            invariant
                i <= self.entities@.len(),
                forall|j: int| 0 <= j < i ==> entity_tick_fits(#[trigger] self.entities@[j], r, t),
            decreases self.entities@.len() - i,
        {
            if !entity_fits(self.entities[i], r, t) {
                return false;
            }
            i = i + 1;
        }
        true
    }

    /// Whether the game on this world is over.
    pub fn check_if_done(&self, k: Keys) -> (r: bool)
        ensures
            r == game_over(self.entities@, k),
    {
        let peeps = self.count(Tag::Peep);
        let mut dead = false;
        let mut i: usize = 0;
        while i < self.entities.len()
            invariant
                i <= self.entities@.len(),
                dead <==> exists|j: int|
                    0 <= j < i && (#[trigger] self.entities@[j]).tag == Tag::Player
                        && self.entities@[j].dead,
            decreases self.entities@.len() - i,
        {
            if self.entities[i].tag == Tag::Player && self.entities[i].dead {
                dead = true;
            }
            i = i + 1;
        }
        peeps == 0 || dead || k.quit
    }

    /// Runs one tick's systems in order: motion, bobbing, keys, pickups, walls, confinement.
    /// Without exactly one player, the systems after bobbing are skipped.
    pub fn run_systems(&mut self, r: Rules, t: TickInput) -> (res: Result<(), GameError>)
        requires
            old(self).wf(),
            tick_fits(old(self).entities@, r, t),
        ensures
            final(self).wf(),
            final(self).next_id == old(self).next_id,
            res is Ok <==> has_sole_player(old(self).entities@),
            res matches Ok(_) ==> final(self).entities@ == systems_after(old(self).entities@, r, t),
            res matches Err(e) ==> e == GameError::MissingSingleton && final(self).entities@
                == moved(old(self).entities@, r, t),
    {
        let ghost s0 = self.entities@;
        assert forall|i: int| 0 <= i < s0.len() implies motion_fits(#[trigger] s0[i], t.dt) by {
            assert(entity_tick_fits(s0[i], r, t));
        }
        self.move_bounce(r.bounds, t.dt);
        let ghost s1 = self.entities@;
        assert forall|i: int| 0 <= i < s1.len() && (#[trigger] s1[i]).bob implies in_i64(
            s1[i].pos.y + t.bob_offset,
        ) by {
            assert(entity_tick_fits(s0[i], r, t));
        }
        self.apply_bob(t.bob_offset);
        let ghost s2 = self.entities@;
        assert(s2 == moved(s0, r, t));
        assert forall|i: int| 0 <= i < s0.len() implies (#[trigger] s2[i]).tag == s0[i].tag by {}
        let pi = match self.player_index() {
            Ok(i) => i,
            Err(e) => {
                proof {
                    if has_sole_player(s0) {
                        let m = choose|m: int| sole_player(s0, m);
                        assert(sole_player(s2, m));
                    }
                }
                return Err(e);
            },
        };
        assert(sole_player(s0, pi as int)) by {
            assert forall|j: int| 0 <= j < s0.len() && j != pi implies #[trigger] s0[j].tag
                != Tag::Player by {
                assert(s2[j].tag == s0[j].tag);
            }
        }
        assert(player_idx(s2) == pi);
        assert(entity_tick_fits(s0[pi as int], r, t));
        self.move_with_keys(pi, t.keys, r.player_speed, t.dt);
        let ghost s3 = self.entities@;
        let qi = self.check_for_pickup_collisions(pi);
        let ghost s4 = self.entities@;
        assert(player_idx(s4) == qi);
        self.check_for_wall_collisions(qi);
        if r.confine {
            self.confine_to_window(qi, r.window);
        }
        Ok(())
    }
}

/// A game: the active screen, a transition that the next tick carries out, the splash
/// countdown, and the world of the current session.
pub struct Game {
    pub state: GameState,
    pub pending: Option<GameState>,
    pub timer: SplashTimer,
    pub world: World,
    pub setup: SetupConfig,
    pub rules: Rules,
}

impl Game {
    pub open spec fn wf(&self) -> bool {
        self.world.wf() && self.setup.valid()
    }

    /// A game on its splash screen; fails when the layout is unusable.
    pub fn new(setup: SetupConfig, rules: Rules, splash_ms: u64) -> (r: Result<Game, GameError>)
        ensures
            r is Ok <==> setup.valid(),
            r matches Err(e) ==> e == GameError::Configuration,
            r matches Ok(g) ==> g.wf() && g.state == GameState::Splash && g.pending is None
                && g.timer == (SplashTimer { elapsed: 0, duration: splash_ms })
                && g.world.entities@.len() == 0 && g.setup == setup && g.rules == rules,
    {
        match setup.validate() {
            Ok(()) => Ok(
                Game {
                    state: GameState::Splash,
                    pending: None,
                    timer: SplashTimer::new(splash_ms),
                    world: World::new(),
                    setup,
                    rules,
                },
            ),
            Err(e) => Err(e),
        }
    }

    /// A game already playing on `world`, as a session that has been set up.
    pub fn in_game(setup: SetupConfig, rules: Rules, splash_ms: u64, world: World) -> (r: Result<
        Game,
        GameError,
    >)
        requires
            world.wf(),
        ensures
            r is Ok <==> setup.valid(),
            r matches Err(e) ==> e == GameError::Configuration,
            r matches Ok(g) ==> g.wf() && g.state == GameState::InGame && g.pending is None
                && g.timer == (SplashTimer { elapsed: 0, duration: splash_ms }) && g.world == world
                && g.setup == setup && g.rules == rules,
    {
        match setup.validate() {
            Ok(()) => Ok(
                Game {
                    state: GameState::InGame,
                    pending: None,
                    timer: SplashTimer::new(splash_ms),
                    world,
                    setup,
                    rules,
                },
            ),
            Err(e) => Err(e),
        }
    }

    /// Leaves the active screen for `next`: play removes its entities on exit; entering
    /// play lays out a new session, and entering the splash screen restarts the countdown.
    fn enter(&mut self, next: GameState, rng: &mut StdRng)
        requires
            old(self).wf(),
        ensures
            final(self).wf(),
            final(self).state == next,
            final(self).pending is None,
            final(self).setup == old(self).setup,
            final(self).rules == old(self).rules,
            final(self).timer.duration == old(self).timer.duration,
            next == GameState::InGame ==> final(self).timer == old(self).timer && is_layout(
                final(self).world.entities@,
                old(self).setup,
            ),
            next == GameState::Splash ==> final(self).timer.elapsed == 0
                && final(self).world.entities@.len() == 0,
            next == GameState::MainMenu ==> final(self).timer == old(self).timer && (old(
                self,
            ).state == GameState::InGame ==> final(self).world.entities@.len() == 0) && (old(
                self,
            ).state != GameState::InGame ==> final(self).world.entities@
                == old(self).world.entities@),
    {
        if self.state == GameState::InGame {
            self.world.despawn_all();
        }
        match next {
            GameState::InGame => {
                self.world = game_setup(&self.setup, rng);
            },
            GameState::Splash => {
                self.world.despawn_all();
                self.timer = SplashTimer::new(self.timer.duration);
            },
            GameState::MainMenu => {},
        }
        self.state = next;
        self.pending = None;
    }

    /// One tick. A tick that finds a transition pending carries it out and does nothing
    /// else. Otherwise the active screen's systems run: on the splash screen the countdown
    /// advances and, once it has expired, play is made pending; in play the end condition
    /// is read from the world as the tick finds it (making the splash screen pending when
    /// it holds), and then motion, bobbing, keys, pickups, walls and confinement run.
    pub fn tick(&mut self, t: TickInput, rng: &mut StdRng) -> (res: Result<(), GameError>)
        requires
            old(self).wf(),
        ensures
            final(self).wf(),
            final(self).setup == old(self).setup,
            final(self).rules == old(self).rules,
            final(self).timer.duration == old(self).timer.duration,
            old(self).pending matches Some(next) ==> {
                &&& res is Ok
                &&& final(self).state == next
                &&& final(self).pending is None
                &&& next == GameState::InGame ==> is_layout(
                    final(self).world.entities@,
                    old(self).setup,
                )
                &&& next == GameState::Splash ==> final(self).timer.elapsed == 0
                    && final(self).world.entities@.len() == 0
            },
            old(self).pending is None && old(self).state == GameState::Splash ==> {
                let expired = old(self).timer.elapsed + t.dt >= old(self).timer.duration;
                &&& res is Ok
                &&& final(self).state == GameState::Splash
                &&& final(self).pending == if expired {
                    Some(next_state(GameState::Splash, true, false))
                } else {
                    None
                }
                &&& final(self).timer.elapsed == if expired {
                    old(self).timer.duration as int
                } else {
                    old(self).timer.elapsed + t.dt
                }
                &&& final(self).world.entities@ == old(self).world.entities@
            },
            old(self).pending is None && old(self).state == GameState::MainMenu ==> res is Ok
                && final(self).state == GameState::MainMenu && final(self).pending is None
                && final(self).timer == old(self).timer && final(self).world.entities@ == old(
                self,
            ).world.entities@,
            old(self).pending is None && old(self).state == GameState::InGame ==> {
                let over = game_over(old(self).world.entities@, t.keys);
                &&& final(self).state == GameState::InGame
                &&& final(self).timer == old(self).timer
                &&& final(self).pending == if over {
                    Some(next_state(GameState::InGame, false, true))
                } else {
                    None
                }
                &&& !tick_fits(old(self).world.entities@, old(self).rules, t) ==> res == Err::<
                    (),
                    GameError,
                >(GameError::OutOfRange) && final(self).world.entities@ == old(
                    self,
                ).world.entities@
                &&& tick_fits(old(self).world.entities@, old(self).rules, t) ==> {
                    &&& res is Ok <==> has_sole_player(old(self).world.entities@)
                    &&& res is Ok ==> final(self).world.entities@ == systems_after(
                        old(self).world.entities@,
                        old(self).rules,
                        t,
                    )
                    &&& res is Err ==> res == Err::<(), GameError>(GameError::MissingSingleton)
                        && final(self).world.entities@ == moved(
                        old(self).world.entities@,
                        old(self).rules,
                        t,
                    )
                }
            },
    {
        match self.pending {
            Some(next) => {
                self.enter(next, rng);
                return Ok(());
            },
            None => {},
        }
        match self.state {
            GameState::Splash => {
                let expired = self.timer.tick(t.dt);
                if expired {
                    self.pending = Some(transition(GameState::Splash, true, false));
                }
                Ok(())
            },
            GameState::MainMenu => Ok(()),
            GameState::InGame => {
                if self.world.check_if_done(t.keys) {
                    self.pending = Some(transition(GameState::InGame, false, true));
                }
                if !self.world.tick_in_range(self.rules, t) {
                    Err(GameError::OutOfRange)
                } else {
                    self.world.run_systems(self.rules, t)
                }
            },
        }
    }
}

} // verus!
