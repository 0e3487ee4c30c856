use vstd::prelude::*;
use crate::tiles::GroundTile;

verus! {

// Lengths are in hundredths of a pixel, times in milliseconds of simulated time,
// speeds and impulses in hundredths of a pixel per tick.

/// Horizontal speed that walking input asks for.
pub const SPEED: i64 = 500;

/// Upward impulse given by a jump.
pub const JUMP_IMPULSE: i64 = 1500;

/// How much the jump impulse loses each tick.
pub const JUMP_DECAY: i64 = 50;

/// How far the player falls in a tick when not held by the ground.
pub const GRAVITY: i64 = 1000;

/// The current speed covers this fraction (one over it) of the gap to the target each tick.
pub const SMOOTHING: i64 = 10;

/// Once the current speed is this close to the target, it takes the target exactly.
pub const SNAP: i64 = 10;

/// Walking input is taken while the ground was touched less than this long ago.
pub const MOVE_GRACE_MS: u64 = 2000;

/// A jump may start while the ground was touched less than this long ago.
pub const JUMP_GRACE_MS: u64 = 500;

/// Gravity pulls once the ground was last touched more than this long ago.
pub const GRAVITY_DELAY_MS: u64 = 100;

/// A player whose height drops below this has fallen out of the level.
pub const FALL_LIMIT: i64 = -40000;

/// Half the width of the player's collision box: a 128 pixel wide sprite drawn at half
/// size, shrunk to four fifths so that brushing an edge does not count.
pub const HITBOX_HALF_WIDTH: i64 = 2560;

/// Half the height of the player's collision box: the 160 pixel tall body of the sprite
/// drawn at half size and shrunk to four fifths.
pub const HITBOX_HALF_HEIGHT: i64 = 3200;

/// How far below the player's position the centre of its collision box lies.
pub const HITBOX_DROP: i64 = 3200;

/// Half the side of a tile as drawn.
pub const TILE_HALF: i64 = 3200;

/// A tile whose centre lies higher than this below the player's position touches it from
/// the side: the player's feet, with a margin of two pixels.
pub const FOOT_LINE: i64 = 3400;

/// The largest coordinate magnitude that the simulation works with.
pub const MAX_COORD: i64 = 1000000000000000;

/// A position in the level.
#[derive(Clone, Copy, Debug, PartialEq, Eq, Structural)]
pub struct Point {
    pub x: i64,
    pub y: i64,
}

/// How far inside the coordinate limit the player must be for a tick to run: more than a
/// tick can move it.
pub const PLAY_MARGIN: i64 = 10000;

impl Point {
    pub open spec fn in_bounds(self) -> bool {
        -MAX_COORD <= self.x <= MAX_COORD && -MAX_COORD <= self.y <= MAX_COORD
    }

    /// Far enough inside the limit that a tick keeps the point within it.
    pub open spec fn in_play(self) -> bool {
        &&& -MAX_COORD + PLAY_MARGIN <= self.x <= MAX_COORD - PLAY_MARGIN
        &&& -MAX_COORD + PLAY_MARGIN <= self.y <= MAX_COORD - PLAY_MARGIN
    }
}

/// The player's horizontal speeds and its jump impulse.
#[derive(Clone, Copy, Debug, PartialEq, Eq, Structural)]
pub struct Velocity {
    /// The speed applied to the position.
    pub current: i64,
    /// The speed that `current` moves towards.
    pub target: i64,
    /// Upward impulse of a jump under way; zero when not jumping.
    pub jumping: i64,
}

/// What the player presses during one tick.
#[derive(Clone, Copy, Debug, PartialEq, Eq, Structural)]
pub struct Input {
    pub left: bool,
    pub right: bool,
    pub jump: bool,
}

/// The player's state.
#[derive(Clone, Copy, Debug, PartialEq, Eq, Structural)]
pub struct Player {
    pub position: Point,
    pub velocity: Velocity,
    /// When the player last stood on the ground, if ever.
    pub last_grounded: Option<u64>,
    /// Whether a tile blocks the player on its left.
    pub wall_left: bool,
    /// Whether a tile blocks the player on its right.
    pub wall_right: bool,
}

impl Player {
    /// Speeds and impulse stay within what input and jumps can give.
    pub open spec fn wf(self) -> bool {
        &&& -SPEED <= self.velocity.current <= SPEED
        &&& -SPEED <= self.velocity.target <= SPEED
        &&& 0 <= self.velocity.jumping <= JUMP_IMPULSE
    }

    /// The last time on the ground does not lie after `now`.
    pub open spec fn clock_ok(self, now: u64) -> bool {
        self.last_grounded matches Some(t) ==> t <= now
    }

    /// The ground was touched less than `window` milliseconds before `now`.
    pub open spec fn grounded_within(self, now: u64, window: u64) -> bool {
        self.last_grounded matches Some(t) && now - t < window
    }

    /// A player at rest at `position`, never yet on the ground, touching no wall.
    pub open spec fn new_spec(position: Point) -> Player {
        Player {
            position,
            velocity: Velocity { current: 0, target: 0, jumping: 0 },
            last_grounded: None,
            wall_left: false,
            wall_right: false,
        }
    }

    /// A player at rest at `position`, never yet on the ground.
    pub fn new(position: Point) -> (r: Player)
        ensures
            r.wf(),
            r == Player::new_spec(position),
    {
        Player {
            position,
            velocity: Velocity { current: 0, target: 0, jumping: 0 },
            last_grounded: None,
            wall_left: false,
            wall_right: false,
        }
    }
}

/// Whether the ground was touched less than `window` milliseconds before `now`.
fn grounded_within(p: &Player, now: u64, window: u64) -> (r: bool)
    requires
        p.clock_ok(now),
    ensures
        r == p.grounded_within(now, window),
{
    match p.last_grounded {
        Some(t) => now - t < window,
        None => false,
    }
}

/// The speed that the input asks for.
pub open spec fn input_speed(input: Input) -> int {
    if input.left {
        -SPEED
    } else if input.right {
        SPEED as int
    } else {
        0
    }
}

/// The player after reading the input: walking input counts only shortly after touching
/// the ground or during a jump, and a jump starts only shortly after touching the ground.
pub open spec fn control_spec(p: Player, input: Input, now: u64) -> Player {
    let target = if p.grounded_within(now, MOVE_GRACE_MS) || p.velocity.jumping > 0 {
        input_speed(input) as i64
    } else {
        p.velocity.target
    };
    let jumping = if jump_starts(p, input, now) {
        JUMP_IMPULSE
    } else {
        p.velocity.jumping
    };
    Player { velocity: Velocity { target, jumping, ..p.velocity }, ..p }
}

/// Whether the input starts a jump.
pub open spec fn jump_starts(p: Player, input: Input, now: u64) -> bool {
    input.jump && p.grounded_within(now, JUMP_GRACE_MS)
}

/// Reads the input into the player's target speed and jump impulse; returns whether a jump
/// started.
pub fn control_player(p: &mut Player, input: Input, now: u64) -> (jumped: bool)
    requires
        old(p).wf(),
        old(p).clock_ok(now),
    ensures
        *final(p) == control_spec(*old(p), input, now),
        jumped == jump_starts(*old(p), input, now),
        final(p).wf(),
        jumped ==> final(p).velocity.jumping == JUMP_IMPULSE,
        !jumped ==> final(p).velocity.jumping == old(p).velocity.jumping,
{
    if grounded_within(p, now, MOVE_GRACE_MS) || p.velocity.jumping > 0 {
        p.velocity.target = if input.left {
            -SPEED
        } else if input.right {
            SPEED
        } else {
            0
        };
    }
    let jumped = input.jump && grounded_within(p, now, JUMP_GRACE_MS);
    if jumped {
        p.velocity.jumping = JUMP_IMPULSE;
    }
    jumped
}


/// Whether the player's collision box at `pos` and the box of a tile at `tile` overlap,
/// touching edges included.
pub open spec fn overlaps(pos: Point, tile: Point) -> bool {
    let cy = pos.y - HITBOX_DROP;
    &&& pos.x - tile.x <= HITBOX_HALF_WIDTH + TILE_HALF
    &&& tile.x - pos.x <= HITBOX_HALF_WIDTH + TILE_HALF
    &&& cy - tile.y <= HITBOX_HALF_HEIGHT + TILE_HALF
    &&& tile.y - cy <= HITBOX_HALF_HEIGHT + TILE_HALF
}

/// Whether a tile at `tile` sits beside the player at `pos` rather than under its feet.
pub open spec fn beside(pos: Point, tile: Point) -> bool {
    tile.y > pos.y - FOOT_LINE
}

/// The tile carries the player.
pub open spec fn supports(pos: Point, tile: Point) -> bool {
    overlaps(pos, tile) && !beside(pos, tile)
}

/// The tile blocks the player on its left.
pub open spec fn blocks_left(pos: Point, tile: Point) -> bool {
    overlaps(pos, tile) && beside(pos, tile) && tile.x < pos.x
}

/// The tile blocks the player on its right.
pub open spec fn blocks_right(pos: Point, tile: Point) -> bool {
    overlaps(pos, tile) && beside(pos, tile) && tile.x >= pos.x
}

/// Every tile lies within the coordinates that the simulation works with.
pub open spec fn grounds_in_bounds(grounds: Seq<GroundTile>) -> bool {
    forall|i: int| 0 <= i < grounds.len() ==> (#[trigger] grounds[i]).position.in_bounds()
}

/// The player after testing its box against every ground tile: the time on the ground is
/// renewed when some tile carries it, and each wall flag is set anew.
pub open spec fn contact_spec(p: Player, grounds: Seq<GroundTile>, now: u64) -> Player {
    let on_ground = exists|i: int| 0 <= i < grounds.len() && supports(p.position, #[trigger] grounds[i].position);
    let left = exists|i: int| 0 <= i < grounds.len() && blocks_left(p.position, #[trigger] grounds[i].position);
    let right = exists|i: int| 0 <= i < grounds.len() && blocks_right(p.position, #[trigger] grounds[i].position);
    Player {
        last_grounded: if on_ground {
            Some(now)
        } else {
            p.last_grounded
        },
        wall_left: left,
        wall_right: right,
        ..p
    }
}

/// Whether the player's box at `pos` overlaps the box of a tile at `tile`.
pub fn tile_overlaps(pos: Point, tile: Point) -> (r: bool)
    requires
        pos.in_bounds(),
        tile.in_bounds(),
    ensures
        r == overlaps(pos, tile),
{
    let cy = pos.y - HITBOX_DROP;
    pos.x - tile.x <= HITBOX_HALF_WIDTH + TILE_HALF && tile.x - pos.x <= HITBOX_HALF_WIDTH
        + TILE_HALF && cy - tile.y <= HITBOX_HALF_HEIGHT + TILE_HALF && tile.y - cy
        <= HITBOX_HALF_HEIGHT + TILE_HALF
}

/// Tests the player's box against every ground tile and records what it touches.
pub fn on_ground(p: &mut Player, grounds: &Vec<GroundTile>, now: u64)
    requires
        old(p).position.in_bounds(),
        grounds_in_bounds(grounds@),
    ensures
        *final(p) == contact_spec(*old(p), grounds@, now),
{
    let pos = p.position;
    let mut on_ground = false;
    let mut left = false;
    let mut right = false;
    for i in 0..grounds.len()
        invariant
            pos == p.position,
            pos.in_bounds(),
            grounds_in_bounds(grounds@),
            on_ground == exists|k: int| 0 <= k < i && supports(pos, #[trigger] grounds@[k].position),
            left == exists|k: int| 0 <= k < i && blocks_left(pos, #[trigger] grounds@[k].position),
            right == exists|k: int| 0 <= k < i && blocks_right(pos, #[trigger] grounds@[k].position),
    {
        let tile = grounds[i].position;
        if tile_overlaps(pos, tile) {
            if tile.y > pos.y - FOOT_LINE {
                if tile.x < pos.x {
                    left = true;
                } else {
                    right = true;
                }
            } else {
                on_ground = true;
            }
        }
    }
    if on_ground {
        p.last_grounded = Some(now);
    }
    p.wall_left = left;
    p.wall_right = right;
}

/// Whether gravity pulls: the ground was last touched more than a short while ago, or never.
pub open spec fn falls(p: Player, now: u64) -> bool {
    !(p.last_grounded matches Some(t) && now - t <= GRAVITY_DELAY_MS)
}

/// The player after gravity.
pub open spec fn gravity_spec(p: Player, now: u64) -> Player {
    if falls(p, now) {
        Player { position: Point { y: (p.position.y - GRAVITY) as i64, ..p.position }, ..p }
    } else {
        p
    }
}

/// Pulls the player down unless it touched the ground a moment ago.
pub fn gravity(p: &mut Player, now: u64)
    requires
        old(p).position.in_bounds(),
        old(p).clock_ok(now),
    ensures
        *final(p) == gravity_spec(*old(p), now),
{
    let pulled = match p.last_grounded {
        Some(t) => now - t > GRAVITY_DELAY_MS,
        None => true,
    };
    if pulled {
        p.position.y = p.position.y - GRAVITY;
    }
}

/// One tick's share of the gap from `current` to `target`, rounded to the nearest
/// integer (halves away from zero).
pub open spec fn smoothing_step(gap: int) -> int {
    if gap >= 0 {
        (gap + SMOOTHING / 2) / (SMOOTHING as int)
    } else {
        -((-gap + SMOOTHING / 2) / (SMOOTHING as int))
    }
}

/// The player after moving: a jump lifts it and loses some impulse; a wall in the direction
/// of travel stops it dead; otherwise it moves by its current speed, which then closes a
/// share of the gap to the target speed and takes the target once within `SNAP` of it.
pub open spec fn moving_spec(p: Player) -> Player {
    let v = p.velocity;
    let (y, jumping) = if v.jumping > 0 {
        (
            p.position.y + v.jumping,
            if v.jumping - JUMP_DECAY > 0 {
                v.jumping - JUMP_DECAY
            } else {
                0
            },
        )
    } else {
        (p.position.y as int, v.jumping as int)
    };
    let c1: int = if (p.wall_left && v.current < 0) || (p.wall_right && v.current > 0) {
        0
    } else {
        v.current as int
    };
    let c2: int = if c1 != v.target {
        let c = c1 + smoothing_step(v.target - c1);
        if -SNAP < v.target - c < SNAP {
            v.target as int
        } else {
            c
        }
    } else {
        c1
    };
    Player {
        position: Point { x: (p.position.x + c1) as i64, y: y as i64 },
        velocity: Velocity { current: c2 as i64, target: v.target, jumping: jumping as i64 },
        ..p
    }
}

/// Moves the player by its jump impulse and its current speed, then smooths the speed.
pub fn moving(p: &mut Player)
    requires
        old(p).wf(),
        old(p).position.in_bounds(),
    ensures
        *final(p) == moving_spec(*old(p)),
        final(p).wf(),
        final(p).velocity.jumping <= old(p).velocity.jumping,
        old(p).velocity.jumping > 0 ==> final(p).velocity.jumping < old(p).velocity.jumping,
{
    if p.velocity.jumping > 0 {
        p.position.y = p.position.y + p.velocity.jumping;
        p.velocity.jumping = if p.velocity.jumping - JUMP_DECAY > 0 {
            p.velocity.jumping - JUMP_DECAY
        } else {
            0
        };
    }
    if (p.wall_left && p.velocity.current < 0) || (p.wall_right && p.velocity.current > 0) {
        p.velocity.current = 0;
    }
    p.position.x = p.position.x + p.velocity.current;
    if p.velocity.current != p.velocity.target {
        let gap = p.velocity.target - p.velocity.current;
        let step = if gap >= 0 {
            (gap + SMOOTHING / 2) / SMOOTHING
        } else {
            -((-gap + SMOOTHING / 2) / SMOOTHING)
        };
        let c = p.velocity.current + step;
        let rest = p.velocity.target - c;
        p.velocity.current = if -SNAP < rest && rest < SNAP {
            p.velocity.target
        } else {
            c
        };
    }
}

/// Whether a player at height `y` has fallen out of the level.
pub fn death_by_fall(p: &Player) -> (fell: bool)
    ensures
        fell == (p.position.y < FALL_LIMIT),
{
    p.position.y < FALL_LIMIT
}

} // verus!
