use peeps::game::{Game, GameState, Rules, SplashTimer, TickInput, transition};
use peeps::geom::{overlaps, Pos, Size};
use peeps::motion::Bounds;
use peeps::player::{displacement, Keys, Window};
use peeps::setup::SetupConfig;
use peeps::world::{GameError, Tag, Vel, World};
use rand::rngs::StdRng;
use rand::SeedableRng;

const U: i64 = 1000;

fn no_keys() -> Keys {
    Keys { right: false, left: false, up: false, down: false, quit: false }
}

fn input(dt: u32, keys: Keys) -> TickInput {
    TickInput { dt, keys, bob_offset: 0 }
}

fn bounds(clamp: bool) -> Bounds {
    Bounds { min_x: -650 * U, max_x: 650 * U, min_y: -350 * U, max_y: 350 * U, clamp_on_bounce: clamp }
}

fn rules() -> Rules {
    Rules {
        bounds: bounds(false),
        window: Window { width: 800 * U, height: 600 * U },
        player_speed: 250,
        confine: false,
    }
}

fn setup() -> SetupConfig {
    SetupConfig {
        window: Window { width: 800 * U, height: 600 * U },
        num_peeps: 50,
        num_still: 8,
        num_walls: 100,
        min_speed: 50,
        max_speed: 150,
    }
}

fn sized(w: i64, h: i64) -> Option<Size> {
    Some(Size { w: w as u32, h: h as u32 })
}

#[test]
fn wall_enclosing_player_kills_then_ends_game() {
    let mut w = World::new();
    w.spawn(Tag::Player, Pos { x: 0, y: 0 }, 0, sized(10 * U, 10 * U), None);
    w.spawn(Tag::Wall, Pos { x: 0, y: 0 }, 0, sized(10 * U, 10 * U), None);
    let mut g = Game::in_game(setup(), rules(), 2000, w).unwrap();
    let mut rng = StdRng::seed_from_u64(1);
    assert_eq!(g.tick(input(16, no_keys()), &mut rng), Ok(()));
    assert!(g.world.entities[0].dead);
    assert_eq!(g.state, GameState::InGame);
    assert_eq!(g.tick(input(16, no_keys()), &mut rng), Ok(()));
    assert_eq!(g.state, GameState::Splash);
    assert_eq!(g.world.len(), 0);
}

#[test]
fn three_overlapping_peeps_are_picked_up() {
    let mut w = World::new();
    w.spawn(Tag::Player, Pos { x: 100 * U, y: 100 * U }, 0, sized(50 * U, 50 * U), None);
    w.spawn(Tag::Peep, Pos { x: 100 * U, y: 100 * U }, 0, sized(50 * U, 50 * U), None);
    w.spawn(Tag::Peep, Pos { x: 120 * U, y: 90 * U }, 0, sized(50 * U, 50 * U), None);
    w.spawn(Tag::Peep, Pos { x: 80 * U, y: 130 * U }, 0, sized(50 * U, 50 * U), None);
    w.spawn(Tag::Peep, Pos { x: 500 * U, y: 500 * U }, 0, sized(50 * U, 50 * U), None);
    w.spawn(Tag::Peep, Pos { x: -400 * U, y: 0 }, 0, sized(50 * U, 50 * U), None);
    let mut g = Game::in_game(setup(), rules(), 2000, w).unwrap();
    let mut rng = StdRng::seed_from_u64(2);
    assert_eq!(g.world.count(Tag::Peep), 5);
    assert_eq!(g.tick(input(16, no_keys()), &mut rng), Ok(()));
    assert_eq!(g.world.count(Tag::Peep), 2);
    assert_eq!(g.world.len(), 3);
    assert_eq!(g.state, GameState::InGame);
    assert_eq!(g.pending, None);
    assert_eq!(g.world.entities[1].pos, Pos { x: 500 * U, y: 500 * U });
}

#[test]
fn entity_past_max_x_reverses() {
    let mut w = World::new();
    w.spawn(Tag::Peep, Pos { x: 651 * U, y: 0 }, 0, None, Some(Vel { x: 100, y: 0 }));
    w.move_bounce(bounds(false), 16);
    let e = w.entities[0];
    assert_eq!(e.vel, Some(Vel { x: -100, y: 0 }));
    assert!(e.flip_x);
    assert!(!e.flip_y);
    assert!(e.bob);
    assert_eq!(e.pos.x, 651 * U + 1600);
}

#[test]
fn reflection_happens_once_per_crossing() {
    for clamp in [false, true] {
        let mut w = World::new();
        w.spawn(Tag::Peep, Pos { x: 640 * U, y: 0 }, 0, None, Some(Vel { x: 100, y: 0 }));
        w.move_bounce(bounds(clamp), 200);
        assert_eq!(w.entities[0].vel, Some(Vel { x: -100, y: 0 }));
        assert!(w.entities[0].flip_x);
        let expected_x = if clamp { 650 * U } else { 660 * U };
        assert_eq!(w.entities[0].pos.x, expected_x);
        w.move_bounce(bounds(clamp), 200);
        assert_eq!(w.entities[0].vel, Some(Vel { x: -100, y: 0 }));
        assert!(w.entities[0].flip_x);
        let expected_x = if clamp { 630 * U } else { 640 * U };
        assert_eq!(w.entities[0].pos.x, expected_x);
    }
}

#[test]
fn corner_bounce_reverses_both_axes() {
    let mut w = World::new();
    w.spawn(Tag::Peep, Pos { x: 649 * U, y: 349 * U }, 0, None, Some(Vel { x: 100, y: 100 }));
    w.move_bounce(bounds(false), 20);
    let e = w.entities[0];
    assert_eq!(e.vel, Some(Vel { x: -100, y: -100 }));
    assert!(e.flip_x && e.flip_y && e.bob);
}

#[test]
fn vertical_bounce_does_not_bob() {
    let mut w = World::new();
    w.spawn(Tag::Peep, Pos { x: 0, y: 349 * U }, 0, None, Some(Vel { x: 0, y: 100 }));
    w.move_bounce(bounds(false), 20);
    assert!(!w.entities[0].bob);
    assert!(w.entities[0].flip_y);
}

#[test]
fn bob_marker_sticks() {
    let mut w = World::new();
    w.spawn(Tag::Player, Pos { x: 0, y: 0 }, 0, None, None);
    w.spawn(Tag::Peep, Pos { x: 649 * U, y: 0 }, 0, None, Some(Vel { x: 100, y: 0 }));
    w.run_systems(rules(), TickInput { dt: 20, keys: no_keys(), bob_offset: 3 }).unwrap();
    assert!(w.entities[1].bob);
    assert_eq!(w.entities[1].pos.y, 3);
    w.run_systems(rules(), TickInput { dt: 20, keys: no_keys(), bob_offset: -2 }).unwrap();
    assert!(w.entities[1].bob);
    assert_eq!(w.entities[1].pos.y, 1);
    assert_eq!(w.entities[1].vel, Some(Vel { x: -100, y: 0 }));
    assert_eq!(w.entities[0].pos.y, 0);
}

#[test]
fn dead_marker_is_never_cleared() {
    let mut w = World::new();
    w.spawn(Tag::Player, Pos { x: 0, y: 0 }, 0, sized(10 * U, 10 * U), None);
    w.spawn(Tag::Wall, Pos { x: 0, y: 0 }, 0, sized(10 * U, 10 * U), None);
    let right = Keys { right: true, ..no_keys() };
    w.run_systems(rules(), input(16, no_keys())).unwrap();
    assert!(w.entities[0].dead);
    for _ in 0..5 {
        w.run_systems(rules(), input(100, right)).unwrap();
        assert!(w.entities[0].dead);
    }
    assert!(w.entities[0].pos.x > 100 * U);
}

#[test]
fn peep_count_never_rises() {
    let mut w = World::new();
    w.spawn(Tag::Player, Pos { x: 0, y: 0 }, 0, sized(50 * U, 50 * U), None);
    for i in 0..6 {
        w.spawn(Tag::Peep, Pos { x: (i * 40 + 60) * U, y: 0 }, 0, sized(50 * U, 50 * U), None);
    }
    let right = Keys { right: true, ..no_keys() };
    let mut last = w.count(Tag::Peep);
    assert_eq!(last, 6);
    for _ in 0..8 {
        w.run_systems(rules(), input(160, right)).unwrap();
        let now = w.count(Tag::Peep);
        assert!(now <= last);
        last = now;
    }
    assert_eq!(last, 0);
}

#[test]
fn splash_expiry_starts_play() {
    let mut g = Game::new(setup(), rules(), 2000).unwrap();
    let mut rng = StdRng::seed_from_u64(3);
    assert_eq!(g.tick(input(1500, no_keys()), &mut rng), Ok(()));
    assert_eq!(g.state, GameState::Splash);
    assert_eq!(g.pending, None);
    assert_eq!(g.timer, SplashTimer { elapsed: 1500, duration: 2000 });
    assert_eq!(g.tick(input(600, no_keys()), &mut rng), Ok(()));
    assert_eq!(g.timer, SplashTimer { elapsed: 2000, duration: 2000 });
    assert_eq!(g.pending, Some(GameState::InGame));
    assert_eq!(g.state, GameState::Splash);
    assert_eq!(g.tick(input(16, no_keys()), &mut rng), Ok(()));
    assert_eq!(g.state, GameState::InGame);
    assert_eq!(g.world.len(), 151);
    assert_eq!(g.world.count(Tag::Player), 1);
    assert_eq!(g.world.count(Tag::Peep), 50);
    assert_eq!(g.world.count(Tag::Wall), 100);
}

#[test]
fn layout_is_inside_the_window() {
    let mut rng = StdRng::seed_from_u64(4);
    let c = setup();
    let w = peeps::setup::game_setup(&c, &mut rng);
    let p = w.entities[0];
    assert_eq!(p.tag, Tag::Player);
    assert_eq!(p.pos, Pos { x: 400 * U, y: 350 * U });
    let mut moving = 0;
    for (k, e) in w.entities[1..51].iter().enumerate() {
        assert_eq!(e.tag, Tag::Peep);
        assert!(0 <= e.pos.x && e.pos.x < 800 * U);
        assert!(0 <= e.pos.y && e.pos.y < 600 * U);
        match e.vel {
            None => assert!(k < 8),
            Some(v) => {
                moving += 1;
                let speed = v.x.abs().max(v.y.abs());
                assert!((50..150).contains(&speed));
            }
        }
    }
    assert_eq!(moving, 42);
    for e in &w.entities[51..] {
        assert_eq!(e.tag, Tag::Wall);
        assert_eq!((e.pos.x - 50 * U) % (100 * U), 0);
        assert_eq!((e.pos.y - 25 * U) % (150 * U), 0);
        assert!(e.pos.x >= 50 * U && e.pos.x <= 850 * U);
        assert!(e.pos.y >= 25 * U && e.pos.y <= 625 * U);
    }
}

#[test]
fn draws_differ_across_layout() {
    let mut rng = StdRng::seed_from_u64(5);
    let w = peeps::setup::game_setup(&setup(), &mut rng);
    let first = w.entities[1].pos;
    assert!(w.entities[2..51].iter().any(|e| e.pos != first));
}

#[test]
fn no_peeps_left_ends_game() {
    let mut w = World::new();
    w.spawn(Tag::Player, Pos { x: 0, y: 0 }, 0, None, None);
    assert!(w.check_if_done(no_keys()));
    w.spawn(Tag::Peep, Pos { x: 100 * U, y: 0 }, 0, None, None);
    assert!(!w.check_if_done(no_keys()));
    assert!(w.check_if_done(Keys { quit: true, ..no_keys() }));
}

#[test]
fn quit_key_returns_to_splash() {
    let mut w = World::new();
    w.spawn(Tag::Player, Pos { x: 0, y: 0 }, 0, None, None);
    w.spawn(Tag::Peep, Pos { x: 100 * U, y: 0 }, 0, None, None);
    let mut g = Game::in_game(setup(), rules(), 2000, w).unwrap();
    let mut rng = StdRng::seed_from_u64(6);
    g.tick(input(16, Keys { quit: true, ..no_keys() }), &mut rng).unwrap();
    assert_eq!(g.pending, Some(GameState::Splash));
    g.tick(input(16, no_keys()), &mut rng).unwrap();
    assert_eq!(g.state, GameState::Splash);
    assert_eq!(g.timer.elapsed, 0);
}

#[test]
fn missing_or_extra_player_fails_tick() {
    let mut w = World::new();
    w.spawn(Tag::Peep, Pos { x: 0, y: 0 }, 0, None, Some(Vel { x: 1, y: 0 }));
    assert_eq!(w.player_index(), Err(GameError::MissingSingleton));
    assert_eq!(w.run_systems(rules(), input(10, no_keys())), Err(GameError::MissingSingleton));
    assert_eq!(w.entities[0].pos.x, 10);
    w.spawn(Tag::Player, Pos { x: 0, y: 0 }, 0, None, None);
    assert_eq!(w.player_index(), Ok(1));
    w.spawn(Tag::Player, Pos { x: 0, y: 0 }, 0, None, None);
    assert_eq!(w.player_index(), Err(GameError::MissingSingleton));
}

#[test]
fn unusable_layout_is_rejected() {
    let mut c = setup();
    c.window.width = 0;
    assert!(matches!(Game::new(c, rules(), 2000), Err(GameError::Configuration)));
    let mut c = setup();
    c.min_speed = 150;
    assert_eq!(c.validate(), Err(GameError::Configuration));
    c.num_still = 50;
    assert_eq!(c.validate(), Ok(()));
}

#[test]
fn overflowing_tick_is_refused() {
    let mut w = World::new();
    w.spawn(Tag::Player, Pos { x: 0, y: 0 }, 0, None, None);
    w.spawn(Tag::Peep, Pos { x: i64::MAX - 5, y: 0 }, 0, None, Some(Vel { x: 1, y: 0 }));
    let mut g = Game::in_game(setup(), rules(), 2000, w).unwrap();
    let mut rng = StdRng::seed_from_u64(7);
    assert_eq!(g.tick(input(10, no_keys()), &mut rng), Err(GameError::OutOfRange));
    assert_eq!(g.world.entities[1].pos.x, i64::MAX - 5);
}

#[test]
fn key_displacement_is_scaled_and_normalised() {
    let right = Keys { right: true, ..no_keys() };
    assert_eq!(displacement(right, 250, 16), (4000, 0));
    let down_left = Keys { left: true, down: true, ..no_keys() };
    assert_eq!(displacement(down_left, 250, 16), (-2828, -2828));
    let opposed = Keys { left: true, right: true, ..no_keys() };
    assert_eq!(displacement(opposed, 250, 16), (0, 0));
    let up_opposed = Keys { left: true, right: true, up: true, ..no_keys() };
    assert_eq!(displacement(up_opposed, 250, 16), (0, 4000));
}

#[test]
fn confinement_clamps_to_window() {
    let mut w = World::new();
    w.spawn(Tag::Player, Pos { x: -5 * U, y: 999 * U }, 0, sized(50 * U, 50 * U), None);
    w.confine_to_window(0, Window { width: 800 * U, height: 600 * U });
    assert_eq!(w.entities[0].pos, Pos { x: 25 * U, y: 575 * U });
    let mut w = World::new();
    w.spawn(Tag::Player, Pos { x: 300 * U, y: 300 * U }, 0, None, None);
    w.confine_to_window(0, Window { width: 800 * U, height: 600 * U });
    assert_eq!(w.entities[0].pos, Pos { x: 300 * U, y: 300 * U });
}

#[test]
fn boxes_touching_do_not_overlap() {
    let s = Size { w: 10, h: 10 };
    assert!(overlaps(Pos { x: 0, y: 0 }, s, Pos { x: 9, y: 9 }, s));
    assert!(!overlaps(Pos { x: 0, y: 0 }, s, Pos { x: 10, y: 0 }, s));
    assert!(!overlaps(Pos { x: 0, y: 0 }, s, Pos { x: 0, y: -10 }, s));
    let z = Size { w: 0, h: 0 };
    assert!(overlaps(Pos { x: 0, y: 0 }, s, Pos { x: 4, y: 4 }, z));
}

#[test]
fn unsized_entities_count_as_unit_boxes() {
    let mut w = World::new();
    w.spawn(Tag::Player, Pos { x: 0, y: 0 }, 0, None, None);
    w.spawn(Tag::Peep, Pos { x: 999, y: 0 }, 0, None, None);
    w.spawn(Tag::Peep, Pos { x: 1000, y: 0 }, 0, None, None);
    let pi = w.check_for_pickup_collisions(0);
    assert_eq!(pi, 0);
    assert_eq!(w.len(), 2);
    assert_eq!(w.entities[1].pos.x, 1000);
}

#[test]
fn walls_are_never_despawned() {
    let mut w = World::new();
    w.spawn(Tag::Wall, Pos { x: 0, y: 0 }, 0, None, None);
    w.spawn(Tag::Player, Pos { x: 0, y: 0 }, 0, None, None);
    w.check_for_wall_collisions(1);
    assert_eq!(w.len(), 2);
    assert!(w.entities[1].dead);
    assert!(!w.entities[0].dead);
}

#[test]
fn countdown_stops_at_duration() {
    let mut t = SplashTimer::new(2000);
    assert!(!t.tick(1999));
    assert!(t.tick(5));
    assert_eq!(t.elapsed, 2000);
    assert!(t.tick(0));
}

#[test]
fn transitions_follow_the_state_machine() {
    assert_eq!(transition(GameState::Splash, true, false), GameState::InGame);
    assert_eq!(transition(GameState::Splash, false, true), GameState::Splash);
    assert_eq!(transition(GameState::InGame, false, true), GameState::Splash);
    assert_eq!(transition(GameState::InGame, true, false), GameState::InGame);
    assert_eq!(transition(GameState::MainMenu, true, true), GameState::MainMenu);
}

#[test]
fn spawn_gives_increasing_ids() {
    let mut w = World::new();
    let a = w.spawn(Tag::Peep, Pos { x: 0, y: 0 }, 0, None, None);
    let b = w.spawn(Tag::Wall, Pos { x: 0, y: 0 }, 0, None, None);
    assert_eq!((a, b), (0, 1));
    w.despawn_all();
    assert_eq!(w.len(), 0);
    let c = w.spawn(Tag::Player, Pos { x: 0, y: 0 }, 0, None, None);
    assert_eq!(c, 2);
}

#[test]
fn process_starts_on_splash() {
    assert_eq!(GameState::default(), GameState::Splash);
    let g = Game::new(setup(), rules(), 2000).unwrap();
    assert_eq!(g.state, GameState::Splash);
    assert_eq!(g.world.len(), 0);
}
