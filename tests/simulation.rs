use bevy_workshop::animation::{player_animation, Animation, JUMP_FRAME, WALK_FRAME_A, WALK_FRAME_B};
use bevy_workshop::level::parse_level;
use bevy_workshop::player::{
    control_player, death_by_fall, gravity, moving, on_ground, Input, Player, Point, Velocity,
    FALL_LIMIT, GRAVITY, JUMP_IMPULSE, SPEED,
};
use bevy_workshop::tiles::{GroundTile, GROUND_INTERIOR, GROUND_LEFT_EDGE, GROUND_RIGHT_EDGE};
use bevy_workshop::world::{display_level, tile_position_of, GameState, TickReport};

const E: char = '\u{2B1C}';
const G: char = '\u{1F7E9}';
const S: char = '\u{1F642}';
const F: char = '\u{1F3C1}';

const NONE: Input = Input { left: false, right: false, jump: false };
const RIGHT: Input = Input { left: false, right: true, jump: false };
const LEFT: Input = Input { left: true, right: false, jump: false };
const JUMP: Input = Input { left: false, right: false, jump: true };

fn grounded_player(t: u64) -> Player {
    let mut p = Player::new(Point { x: 0, y: 0 });
    p.last_grounded = Some(t);
    p
}

#[test]
fn jump_within_grace_starts() {
    let mut p = grounded_player(1000);
    assert!(control_player(&mut p, JUMP, 1499));
    assert_eq!(p.velocity.jumping, JUMP_IMPULSE);
    assert_eq!(JUMP_IMPULSE, 1500);
}

#[test]
fn jump_after_grace_is_ignored() {
    let mut p = grounded_player(1000);
    assert!(!control_player(&mut p, JUMP, 1500));
    assert_eq!(p.velocity.jumping, 0);
    let mut never = Player::new(Point { x: 0, y: 0 });
    assert!(!control_player(&mut never, JUMP, 0));
    assert_eq!(never.velocity.jumping, 0);
}

#[test]
fn walking_input_only_near_ground_or_jumping() {
    let mut p = grounded_player(0);
    control_player(&mut p, LEFT, 1999);
    assert_eq!(p.velocity.target, -SPEED);
    control_player(&mut p, RIGHT, 2000);
    assert_eq!(p.velocity.target, -SPEED);
    p.velocity.jumping = 100;
    control_player(&mut p, RIGHT, 5000);
    assert_eq!(p.velocity.target, SPEED);
    control_player(&mut p, NONE, 5000);
    assert_eq!(p.velocity.target, 0);
}

#[test]
fn ground_below_feet_carries_the_player() {
    let mut p = Player::new(Point { x: 0, y: 6400 });
    let grounds = vec![GroundTile { position: Point { x: 0, y: 0 }, index: 8 }];
    on_ground(&mut p, &grounds, 77);
    assert_eq!(p.last_grounded, Some(77));
    assert!(!p.wall_left && !p.wall_right);
}

#[test]
fn tile_beside_sets_one_wall_and_clears_when_gone() {
    let mut p = Player::new(Point { x: 0, y: 0 });
    p.last_grounded = Some(5);
    let left = vec![GroundTile { position: Point { x: -5000, y: 0 }, index: 8 }];
    on_ground(&mut p, &left, 10);
    assert!(p.wall_left && !p.wall_right);
    assert_eq!(p.last_grounded, Some(5));
    let right = vec![GroundTile { position: Point { x: 5000, y: 0 }, index: 8 }];
    on_ground(&mut p, &right, 11);
    assert!(!p.wall_left && p.wall_right);
    on_ground(&mut p, &Vec::new(), 12);
    assert!(!p.wall_left && !p.wall_right);
}

#[test]
fn gravity_waits_briefly_after_contact() {
    let mut p = grounded_player(1000);
    gravity(&mut p, 1100);
    assert_eq!(p.position.y, 0);
    gravity(&mut p, 1101);
    assert_eq!(p.position.y, -GRAVITY);
    let mut never = Player::new(Point { x: 0, y: 0 });
    gravity(&mut never, 0);
    assert_eq!(never.position.y, -1000);
}

#[test]
fn jump_lifts_and_decays_to_zero() {
    let mut p = Player::new(Point { x: 0, y: 0 });
    p.velocity.jumping = JUMP_IMPULSE;
    moving(&mut p);
    assert_eq!(p.position.y, 1500);
    assert_eq!(p.velocity.jumping, 1450);
    p.velocity.jumping = 30;
    moving(&mut p);
    assert_eq!(p.position.y, 1530);
    assert_eq!(p.velocity.jumping, 0);
}

#[test]
fn speed_approaches_target_and_snaps_to_zero() {
    let mut p = Player::new(Point { x: 0, y: 0 });
    p.velocity.target = 500;
    moving(&mut p);
    assert_eq!(p.position.x, 0);
    assert_eq!(p.velocity.current, 50);
    moving(&mut p);
    assert_eq!(p.position.x, 50);
    assert_eq!(p.velocity.current, 95);
    p.velocity = Velocity { current: 15, target: 0, jumping: 0 };
    moving(&mut p);
    assert_eq!(p.position.x, 65);
    assert_eq!(p.velocity.current, 13);
    p.velocity.current = 10;
    moving(&mut p);
    assert_eq!(p.velocity.current, 0);
    p.velocity = Velocity { current: -12, target: 0, jumping: 0 };
    moving(&mut p);
    assert_eq!(p.velocity.current, -11);
}

#[test]
fn full_speed_decays_to_zero_in_38_ticks() {
    let mut p = Player::new(Point { x: 0, y: 0 });
    p.velocity = Velocity { current: SPEED, target: 0, jumping: 0 };
    for _ in 0..37 {
        moving(&mut p);
        assert_ne!(p.velocity.current, 0);
    }
    moving(&mut p);
    assert_eq!(p.velocity.current, 0);
    for _ in 0..10 {
        moving(&mut p);
        assert_eq!(p.velocity.current, 0);
    }
}

#[test]
fn speed_settles_near_target() {
    let mut p = Player::new(Point { x: 0, y: 0 });
    p.velocity.target = SPEED;
    for _ in 0..100 {
        moving(&mut p);
    }
    assert_eq!(p.velocity.current, SPEED);
    p.velocity.target = -SPEED;
    for _ in 0..100 {
        moving(&mut p);
    }
    assert_eq!(p.velocity.current, -SPEED);
}

#[test]
fn speed_close_to_target_takes_it() {
    let mut p = Player::new(Point { x: 0, y: 0 });
    p.velocity = Velocity { current: 490, target: 500, jumping: 0 };
    moving(&mut p);
    assert_eq!(p.position.x, 490);
    assert_eq!(p.velocity.current, 500);
    p.velocity = Velocity { current: -480, target: -500, jumping: 0 };
    moving(&mut p);
    assert_eq!(p.velocity.current, -482);
}

#[test]
fn wall_stops_movement_towards_it() {
    let mut p = Player::new(Point { x: 100, y: 0 });
    p.wall_left = true;
    p.velocity = Velocity { current: -300, target: -500, jumping: 0 };
    moving(&mut p);
    assert_eq!(p.position.x, 100);
    assert_eq!(p.velocity.current, -50);
    p.velocity.current = 200;
    moving(&mut p);
    assert_eq!(p.position.x, 300);
}

#[test]
fn wall_blocks_over_many_ticks() {
    let mut world = display_level(&parse_level("").unwrap());
    world.grounds.push(GroundTile { position: Point { x: -5000, y: 20000 }, index: 8 });
    world.player.velocity = Velocity { current: -500, target: -500, jumping: 0 };
    world.player.last_grounded = Some(0);
    let mut x = world.player.position.x;
    for k in 0..20u64 {
        world.player.last_grounded = Some(k * 16);
        world.tick(LEFT, k * 16);
        assert!(world.player.wall_left);
        assert!(world.player.position.x >= x);
        x = world.player.position.x;
        world.player.velocity.current = -500;
    }
}

#[test]
fn falling_below_the_limit_ends_the_game() {
    assert!(death_by_fall(&Player::new(Point { x: 0, y: FALL_LIMIT - 1 })));
    assert!(!death_by_fall(&Player::new(Point { x: 0, y: FALL_LIMIT })));
    let mut world = display_level(&parse_level("").unwrap());
    world.player.position.y = FALL_LIMIT - 1;
    let r = world.tick(NONE, 0);
    assert!(r.fell);
    assert_eq!(r.transition(), Some(GameState::Menu));
}

#[test]
fn staying_above_the_limit_keeps_playing() {
    let mut world = display_level(&parse_level("").unwrap());
    world.player.position.y = FALL_LIMIT;
    world.player.last_grounded = Some(0);
    let r = world.tick(NONE, 50);
    assert!(!r.fell);
    assert_eq!(r.transition(), None);
}

#[test]
fn report_transition() {
    let quiet = TickReport { jumped: true, fell: false, completed: false };
    assert_eq!(quiet.transition(), None);
    let won = TickReport { jumped: false, fell: false, completed: true };
    assert_eq!(won.transition(), Some(GameState::Menu));
}

#[test]
fn animation_alternates_and_faces() {
    let mut a = Animation::new();
    let walk = Velocity { current: -10, target: -10, jumping: 0 };
    for _ in 0..9 {
        player_animation(&mut a, &walk);
        assert_eq!(a.index, WALK_FRAME_A);
    }
    assert!(a.flip_x);
    player_animation(&mut a, &walk);
    assert_eq!(a.index, WALK_FRAME_B);
    let still = Velocity { current: 0, target: 0, jumping: 0 };
    player_animation(&mut a, &still);
    assert!(a.flip_x);
    let jump = Velocity { current: 20, target: 0, jumping: 100 };
    player_animation(&mut a, &jump);
    assert_eq!(a.index, JUMP_FRAME);
    assert!(!a.flip_x);
}

#[test]
fn level_layout() {
    let t = format!("{}{}{}\n{}{}{}\n", S, E, F, G, G, G);
    let world = display_level(&parse_level(&t).unwrap());
    assert_eq!(tile_position_of(0, 0), Point { x: -57600, y: 32000 });
    assert_eq!(world.player.position, Point { x: -57600, y: 32000 });
    assert_eq!(world.flags, vec![Point { x: -44800, y: 32000 }]);
    assert_eq!(world.grounds.len(), 3);
    assert_eq!(world.grounds[0], GroundTile { position: Point { x: -57600, y: 25600 }, index: GROUND_LEFT_EDGE });
    assert_eq!(world.grounds[1].index, GROUND_INTERIOR);
    assert_eq!(world.grounds[2].index, GROUND_RIGHT_EDGE);
    assert!(!world.completed);
    let empty = display_level(&parse_level("").unwrap());
    assert_eq!(empty.player.position, Point { x: 0, y: 20000 });
}

#[test]
fn walking_right_reaches_the_flag_once() {
    let t = format!(
        "{}{}{}{}{}\n{}{}{}{}{}\n{}{}{}{}{}\n",
        E, S, E, E, F, G, G, G, G, G, E, E, E, E, E
    );
    let mut world = display_level(&parse_level(&t).unwrap());
    let flag_x = world.flags[0].x;
    let mut completions = 0;
    let mut reached_at = None;
    for k in 0..80u64 {
        let r = world.tick(RIGHT, k * 16);
        assert!(!r.fell);
        if r.completed {
            completions += 1;
            reached_at = Some(k);
        }
    }
    assert_eq!(completions, 1);
    assert!(reached_at.is_some());
    assert!(world.completed);
    assert!(world.player.position.x >= flag_x);
}

#[test]
fn spawn_on_start_tile_then_reach_flag() {
    let t = format!(
        "{}{}{}{}{}\n{}{}{}{}{}\n{}{}{}{}{}\n",
        E, E, E, E, E, S, E, E, E, F, G, G, G, G, G
    );
    let mut world = display_level(&parse_level(&t).unwrap());
    assert_eq!(world.player.position, tile_position_of(0, 1));
    assert_eq!(world.flags, vec![tile_position_of(4, 1)]);
    let mut reached = None;
    for k in 0..80u64 {
        let r = world.tick(RIGHT, k * 16);
        assert!(!r.fell);
        if r.completed {
            assert!(reached.is_none());
            reached = Some(k);
        }
    }
    assert!(reached.is_some());
}
