use runner::animation::Animation;
use runner::game::Game;
use runner::geometry::Vec2;
use runner::interpretor::Interpretor;
use runner::object::{Action, Object, ObjectKind, PlayerState, SoundCue, TRAIL_LENGTH};
use runner::tokenizer::Tokenizer;
use runner::util::Pair;
use runner::world::World;

const PX: i64 = 1000;

fn player_at(x: i64, y: i64) -> Object {
    Object::from(ObjectKind::player()).position(Vec2::new(x * PX, y * PX))
}

fn wall(x: i64, y: i64, w: i64, h: i64) -> Object {
    Object::from(ObjectKind::Wall)
        .position(Vec2::new(x * PX, y * PX))
        .size(Vec2::new(w * PX, h * PX))
}

fn spike(x: i64, y: i64, w: i64, h: i64) -> Object {
    Object::from(ObjectKind::Spike)
        .position(Vec2::new(x * PX, y * PX))
        .size(Vec2::new(w * PX, h * PX))
}

#[test]
fn new_object_defaults() {
    let o = Object::new();
    assert_eq!(o.position, Vec2::new(0, 0));
    assert_eq!(o.size, Vec2::new(30 * PX, 30 * PX));
    assert_eq!(o.speed, Vec2::new(0, 0));
    assert_eq!(o.kind, ObjectKind::Wall);
    assert!(o.is_alive());
    assert!(!o.is_on_ground);
    assert!(o.trail.is_empty());
}

#[test]
fn walls_move_but_do_not_fall() {
    let mut w = wall(0, 0, 10, 10).speed(Vec2::new(2 * PX, 0));
    let cues = w.update(false);
    assert!(cues.is_empty());
    assert_eq!(w.position, Vec2::new(2 * PX, 0));
    assert_eq!(w.speed, Vec2::new(2 * PX, 0));
    assert_eq!(w.trail, vec![Vec2::new(5 * PX, 5 * PX)]);
}

#[test]
fn player_falls_and_spins() {
    let mut p = player_at(0, 0);
    p.update(false);
    assert_eq!(p.position, Vec2::new(0, 0));
    assert_eq!(p.speed, Vec2::new(0, PX));
    assert_eq!(p.rotation, 200);
    p.update(false);
    assert_eq!(p.position, Vec2::new(0, PX));
    assert_eq!(p.speed, Vec2::new(0, 2 * PX));
    assert_eq!(p.rotation, 400);
    match p.kind {
        ObjectKind::Player { state, .. } => assert_eq!(state, PlayerState::Jumping),
        _ => panic!("not a player"),
    }
}

#[test]
fn trail_is_capped() {
    let mut o = wall(0, 0, 2, 2).speed(Vec2::new(PX, 0));
    for _ in 0..TRAIL_LENGTH {
        o.update(false);
    }
    assert_eq!(o.trail.len(), TRAIL_LENGTH);
    assert_eq!(o.trail[0], Vec2::new(PX, PX));
    for _ in 0..5 {
        o.update(false);
    }
    assert_eq!(o.trail.len(), TRAIL_LENGTH);
    // The five oldest points are gone; the newest is the last midpoint.
    assert_eq!(o.trail[0], Vec2::new(6 * PX, PX));
    assert_eq!(o.trail[TRAIL_LENGTH - 1], Vec2::new(35 * PX, PX));
}

#[test]
fn landing_on_a_wall() {
    let mut p = player_at(0, 0).size(Vec2::new(10 * PX, 10 * PX)).speed(Vec2::new(3 * PX, 5 * PX));
    let w = wall(0, 12, 100, 10);
    let cues = p.collide(&w);
    assert!(cues.is_empty());
    assert!(p.is_on_ground);
    assert!(p.is_alive());
    assert_eq!(p.speed, Vec2::new(3 * PX, 0));
    assert_eq!(p.position, Vec2::new(0, 2 * PX));
}

#[test]
fn landing_exactly_on_the_edge() {
    // Bottom edge at the wall's top edge: still a landing.
    let mut p = player_at(0, 0).size(Vec2::new(10 * PX, 10 * PX)).speed(Vec2::new(0, PX));
    let w = wall(0, 10, 100, 10);
    p.collide(&w);
    assert!(p.is_on_ground);
    assert!(p.is_alive());
    assert_eq!(p.position, Vec2::new(0, 0));
}

#[test]
fn hitting_a_wall_from_the_side_kills() {
    let mut p = player_at(0, 0).size(Vec2::new(10 * PX, 10 * PX)).speed(Vec2::new(5 * PX, 0));
    let w = wall(12, -5, 10, 50);
    let cues = p.collide(&w);
    assert_eq!(cues, vec![SoundCue::Stop(Action::Run), SoundCue::PlayOnce(Action::Die)]);
    assert!(!p.is_alive());
    assert_eq!(p.speed, Vec2::new(0, 0));
    assert_eq!(p.position, Vec2::new(2 * PX, 0));
}

#[test]
fn hitting_a_wall_from_below_kills() {
    let mut p = player_at(0, 20).size(Vec2::new(10 * PX, 10 * PX)).speed(Vec2::new(0, -5 * PX));
    let w = wall(-5, 0, 50, 18);
    p.collide(&w);
    assert!(!p.is_alive());
    assert_eq!(p.position, Vec2::new(0, 18 * PX));
}

#[test]
fn no_overlap_no_response() {
    let mut p = player_at(0, 0).size(Vec2::new(10 * PX, 10 * PX)).speed(Vec2::new(PX, PX));
    let w = wall(50, 50, 10, 10);
    assert!(p.collide(&w).is_empty());
    assert!(p.is_alive());
    assert!(!p.is_on_ground);
}

#[test]
fn walls_do_not_respond() {
    let mut a = wall(0, 0, 10, 10).speed(Vec2::new(PX, 0));
    let b = wall(5, 0, 10, 10);
    assert!(a.collide(&b).is_empty());
    assert!(a.is_alive());
    assert_eq!(a.position, Vec2::new(0, 0));
}

#[test]
fn spike_apex_kills() {
    // Player box after moving: x 88..98, y 20..30; apex of the spike at (93, 25).
    let mut p = player_at(85, 20).size(Vec2::new(10 * PX, 10 * PX)).speed(Vec2::new(3 * PX, 0));
    let s = spike(88, 25, 10, 10);
    let cues = p.collide(&s);
    assert_eq!(cues, vec![SoundCue::Stop(Action::Run), SoundCue::PlayOnce(Action::Die)]);
    assert!(!p.is_alive());
    assert_eq!(p.speed, Vec2::new(0, 0));
}

#[test]
fn spike_box_without_a_corner_is_harmless() {
    // The boxes overlap but no corner of the triangle is inside the player.
    let mut p = player_at(0, 0).size(Vec2::new(10 * PX, 10 * PX));
    let s = spike(-30, 5, 40, 40);
    assert!(p.collide(&s).is_empty());
    assert!(p.is_alive());
}

#[test]
fn death_happens_once() {
    let mut p = player_at(85, 20).size(Vec2::new(10 * PX, 10 * PX)).speed(Vec2::new(3 * PX, 0));
    let s = spike(88, 25, 10, 10);
    let first = p.collide(&s);
    assert_eq!(first.len(), 2);
    p.speed = Vec2::new(3 * PX, 0);
    let second = p.collide(&s);
    assert!(second.is_empty());
    assert!(!p.is_alive());
    assert_eq!(p.speed, Vec2::new(0, 0));
    let w = wall(90, -50, 10, 100);
    p.speed = Vec2::new(PX, 0);
    assert!(p.collide(&w).is_empty());
    assert!(!p.is_alive());
}

#[test]
fn dead_player_slows_and_falls() {
    let mut p = player_at(0, 0).speed(Vec2::new(10 * PX, 0));
    p.alive = false;
    p.update(false);
    assert_eq!(p.speed, Vec2::new(9500, PX));
    p.update(false);
    assert_eq!(p.speed, Vec2::new(9025, 2 * PX));
    p.update(false);
    assert_eq!(p.speed, Vec2::new(8573, 3 * PX));
    match p.kind {
        ObjectKind::Player { state, die, .. } => {
            assert_eq!(state, PlayerState::Dying);
            assert_eq!(die.sustain_countdown, 6);
            assert_eq!(die.current_frame, 1);
        },
        _ => panic!("not a player"),
    }
}

#[test]
fn negative_damping_rounds_toward_zero() {
    let mut p = player_at(0, 0).speed(Vec2::new(-1001, 0));
    p.alive = false;
    p.update(false);
    assert_eq!(p.speed.x, -950);
}

#[test]
fn jump_reaches_the_arc() {
    let mut p = player_at(0, 0).speed(Vec2::new(5 * PX, 0));
    p.is_on_ground = true;
    p.rotation = 1000;
    let cues = p.update(true);
    assert_eq!(cues, vec![SoundCue::PlayOnce(Action::Jump)]);
    // -5 * 30 / 60 - 30 / 5 - 1/2 pixels per tick.
    assert_eq!(p.speed, Vec2::new(5 * PX, -9 * PX));
    assert_eq!(p.rotation, 0);
    assert!(!p.is_on_ground);
    match p.kind {
        ObjectKind::Player { state, jump, .. } => {
            assert_eq!(state, PlayerState::Running);
            assert_eq!(jump.current_frame, 0);
        },
        _ => panic!("not a player"),
    }
}

#[test]
fn jump_needs_ground_and_sideways_speed() {
    let mut p = player_at(0, 0).speed(Vec2::new(5 * PX, 0));
    assert!(p.update(true).is_empty());
    assert_eq!(p.speed.y, PX);
    let mut q = player_at(0, 0);
    q.is_on_ground = true;
    assert!(q.update(true).is_empty());
    assert_eq!(q.speed, Vec2::new(0, PX));
}

#[test]
fn animation_loops_or_holds() {
    let mut run = Animation::new(0, 2, 0, true);
    run.update();
    assert_eq!(run.current_frame(), 0);
    run.update();
    assert_eq!(run.current_frame(), 1);
    run.update();
    assert_eq!(run.current_frame(), 0);
    let mut once = Animation::new(1, 2, 0, false);
    for _ in 0..5 {
        once.update();
    }
    assert_eq!(once.current_frame(), 1);
    assert_eq!(once.id(), 1);
    once.rewind();
    assert_eq!(once.current_frame(), 0);
}

#[test]
fn animation_holds_each_frame() {
    let mut a = Animation::new(0, 6, 3, true);
    let mut frames = Vec::new();
    for _ in 0..10 {
        a.update();
        frames.push(a.current_frame());
    }
    assert_eq!(frames, vec![0, 1, 1, 1, 1, 2, 2, 2, 2, 3]);
}

fn scenario() -> World {
    let tokens = Tokenizer::tokenize(
        "Unit is (1,1)\nPlayer at (0,0)\nWall at (0,40) ofsize (1000,20)\nSpike at (100,30)\n",
    )
    .unwrap();
    Interpretor::interpret(tokens).unwrap()
}

#[test]
fn player_runs_into_the_spike() {
    let mut w = scenario();
    assert!(w.is_playable());
    // A thirty-pixel player running on the wall at five pixels per tick.
    let size = Vec2::new(30 * PX, 30 * PX);
    let start = Object::from(ObjectKind::player())
        .position(Vec2::new(0, 10 * PX))
        .size(size)
        .speed(Vec2::new(5 * PX, 0));
    w.objects[0] = start;
    let mut heard = Vec::new();
    let mut ticks = 0;
    while w.objects[0].is_alive() && ticks < 100 {
        heard.extend(w.update(false, 0));
        assert_eq!(w.objects[0].position.y, 10 * PX);
        ticks += 1;
    }
    assert!(!w.objects[0].is_alive());
    assert!(!w.is_playing());
    assert!(w.objects[0].position.x <= 100 * PX);
    assert!(w.objects[0].position.x + 5 * PX + 30 * PX >= 100 * PX);
    assert!(heard.contains(&SoundCue::PlayOnce(Action::Die)));
}

#[test]
fn world_keeps_playing_while_the_player_lives() {
    let mut w = World::new();
    w.add_object(wall(0, 40, 1000, 20));
    assert!(w.is_playing());
    w.update(false, 0);
    assert!(!w.is_playing());
    w.add_object(player_at(0, 0));
    w.update(false, 0);
    assert!(w.is_playing());
}

#[test]
fn camera_eases_toward_the_player() {
    let mut w = World::new();
    w.add_object(player_at(100, 0).size(Vec2::new(20 * PX, 20 * PX)));
    w.update(false, 50 * PX);
    // Goal: middle (110, 10) plus a lead of 50; a tenth of the way there.
    assert_eq!(w.camera, Vec2::new(16 * PX, PX));
    w.update(false, 50 * PX);
    assert_eq!(w.camera, Vec2::new(16 * PX + 14400, 2 * PX));
}

#[test]
fn two_players_are_not_playable() {
    let mut w = World::new();
    w.add_object(player_at(0, 0));
    assert!(w.is_playable());
    w.add_object(player_at(50, 0));
    assert!(!w.is_playable());
}

#[test]
fn only_later_objects_are_met() {
    // The wall comes first: it does not respond, and the player, whose turn
    // comes after it, only meets objects listed after itself.
    let mut w = World::new();
    w.add_object(wall(0, 12, 100, 10));
    w.add_object(player_at(0, 0).size(Vec2::new(10 * PX, 10 * PX)).speed(Vec2::new(0, 5 * PX)));
    w.update(false, 0);
    let p = &w.objects[1];
    assert!(!p.is_on_ground);
    assert_eq!(p.position, Vec2::new(0, 5 * PX));
    assert_eq!(p.speed, Vec2::new(0, 6 * PX));
    assert_eq!(p.trail, vec![Vec2::new(5 * PX, 5 * PX)]);
}

#[test]
fn earlier_player_lands_on_later_wall() {
    let mut w = World::new();
    w.add_object(player_at(0, 0).size(Vec2::new(10 * PX, 10 * PX)).speed(Vec2::new(0, 5 * PX)));
    w.add_object(wall(0, 12, 100, 10));
    w.update(false, 0);
    let p = &w.objects[0];
    assert!(p.is_alive());
    // Landing snapped it to y 2 with no vertical speed; gravity then gave
    // it one pixel per tick, and the landing set it running.
    assert_eq!(p.position, Vec2::new(0, 2 * PX));
    assert_eq!(p.speed, Vec2::new(0, PX));
    assert_eq!(p.rotation, 0);
    match p.kind {
        ObjectKind::Player { state, .. } => assert_eq!(state, PlayerState::Running),
        _ => panic!("not a player"),
    }
}

#[test]
fn pause_stops_the_level() {
    let mut w = World::new();
    w.add_object(player_at(0, 0));
    let mut g = Game::new(w, String::from("level.lvl"));
    assert!(!g.is_finished());
    g.update(false, 0, true);
    assert!(g.paused);
    assert_eq!(g.world.objects[0].speed, Vec2::new(0, PX));
    g.update(false, 0, false);
    assert_eq!(g.world.objects[0].speed, Vec2::new(0, PX));
    g.update(false, 0, true);
    assert!(!g.paused);
    g.update(false, 0, false);
    assert_eq!(g.world.objects[0].speed, Vec2::new(0, 2 * PX));
    assert_eq!(g.loaded, "level.lvl");
}

#[test]
fn game_finishes_when_the_player_dies() {
    let mut w = World::new();
    w.add_object(player_at(0, 0).size(Vec2::new(10 * PX, 10 * PX)).speed(Vec2::new(5 * PX, 0)));
    w.add_object(wall(12, -5, 10, 50));
    let mut g = Game::new(w, String::from("x"));
    let cues = g.update(false, 0, false);
    assert_eq!(cues, vec![SoundCue::Stop(Action::Run), SoundCue::PlayOnce(Action::Die)]);
    assert!(g.is_finished());
}

#[test]
fn vectors_split_into_pairs() {
    assert_eq!(Vec2::new(3, -4).as_pair(), (3, -4));
    assert_eq!(Vec2::new(i64::MAX, 1).plus(Vec2::new(1, 1)), Vec2::new(i64::MAX, 2));
}
