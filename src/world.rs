use vstd::prelude::*;
use crate::animation::{animate_spec, player_animation, Animation};
use crate::level::{Level, Tile};
use crate::player::{
    control_player, death_by_fall, gravity, grounds_in_bounds, moving, on_ground, overlaps,
    tile_overlaps, Input, Player, Point, contact_spec, control_spec, gravity_spec, moving_spec,
    jump_starts, blocks_left, falls, FALL_LIMIT, JUMP_GRACE_MS, MAX_COORD, PLAY_MARGIN,
};
use crate::tiles::{ground_at, ground_tile_index, ground_variant, GroundTile};

verus! {

/// Side of a tile as drawn, in hundredths of a pixel.
pub const TILE_SIZE: i64 = 6400;

/// The column drawn at horizontal position zero.
pub const ORIGIN_COLUMN: i64 = 9;

/// The row drawn at height zero.
pub const ORIGIN_ROW: i64 = 5;

/// The largest number of rows, and of tiles in a row, that a level may have.
pub const MAX_TILES: usize = 1000000000;

/// Height at which the player appears when the level has no start tile.
pub const DEFAULT_SPAWN_Y: i64 = 20000;

/// The screens of the game.
#[derive(Clone, Copy, Debug, PartialEq, Eq, Structural)]
pub enum GameState {
    Splash,
    Menu,
    Game,
}

/// Where the tile in column `i` of row `j` is drawn: rows go down the screen.
pub open spec fn tile_position(i: int, j: int) -> Point {
    Point {
        x: ((i - ORIGIN_COLUMN) * TILE_SIZE) as i64,
        y: ((ORIGIN_ROW - j) * TILE_SIZE) as i64,
    }
}

/// Where the tile in column `i` of row `j` is drawn.
pub fn tile_position_of(i: usize, j: usize) -> (r: Point)
    requires
        i <= MAX_TILES,
        j <= MAX_TILES,
    ensures
        r == tile_position(i as int, j as int),
        r.in_bounds(),
{
    let x = (i as i64 - ORIGIN_COLUMN) * TILE_SIZE;
    let y = (ORIGIN_ROW - j as i64) * TILE_SIZE;
    proof {
        assert(-MAX_COORD <= (i - ORIGIN_COLUMN) * TILE_SIZE <= MAX_COORD) by (nonlinear_arith)
            requires
                0 <= i <= MAX_TILES,
        ;
        assert(-MAX_COORD <= (ORIGIN_ROW - j) * TILE_SIZE <= MAX_COORD) by (nonlinear_arith)
            requires
                0 <= j <= MAX_TILES,
        ;
    }
    Point { x, y }
}

/// The ground tiles among the first `k` tiles of row `j`, left to right.
pub open spec fn row_grounds(line: Seq<Tile>, j: int, k: int) -> Seq<GroundTile>
    decreases k,
{
    if k <= 0 {
        seq![]
    } else {
        let before = row_grounds(line, j, k - 1);
        if line[k - 1] == Tile::Ground {
            before.push(
                GroundTile {
                    position: tile_position(k - 1, j),
                    index: ground_variant(ground_at(line, k - 2), ground_at(line, k)),
                },
            )
        } else {
            before
        }
    }
}

/// The positions of the tiles of kind `t` among the first `k` tiles of row `j`.
pub open spec fn row_cells(line: Seq<Tile>, j: int, k: int, t: Tile) -> Seq<Point>
    decreases k,
{
    if k <= 0 {
        seq![]
    } else {
        let before = row_cells(line, j, k - 1, t);
        if line[k - 1] == t {
            before.push(tile_position(k - 1, j))
        } else {
            before
        }
    }
}

/// The ground tiles of the first `n` rows, row by row.
pub open spec fn level_grounds(rows: Seq<Seq<Tile>>, n: int) -> Seq<GroundTile>
    decreases n,
{
    if n <= 0 {
        seq![]
    } else {
        level_grounds(rows, n - 1) + row_grounds(rows[n - 1], n - 1, rows[n - 1].len() as int)
    }
}

/// The positions of the tiles of kind `t` in the first `n` rows, row by row.
pub open spec fn level_cells(rows: Seq<Seq<Tile>>, n: int, t: Tile) -> Seq<Point>
    decreases n,
{
    if n <= 0 {
        seq![]
    } else {
        level_cells(rows, n - 1, t) + row_cells(rows[n - 1], n - 1, rows[n - 1].len() as int, t)
    }
}

/// Where the player appears: on the first start tile, or above the middle without one.
pub open spec fn spawn_point(rows: Seq<Seq<Tile>>) -> Point {
    let starts = level_cells(rows, rows.len() as int, Tile::Start);
    if starts.len() > 0 {
        starts[0]
    } else {
        Point { x: 0, y: DEFAULT_SPAWN_Y }
    }
}

/// Whether a level fits the sizes that the simulation works with.
pub open spec fn level_fits(rows: Seq<Seq<Tile>>) -> bool {
    &&& rows.len() <= MAX_TILES
    &&& forall|j: int| 0 <= j < rows.len() ==> (#[trigger] rows[j]).len() <= MAX_TILES
}

/// Every point lies within the coordinates that the simulation works with.
pub open spec fn points_in_bounds(ps: Seq<Point>) -> bool {
    forall|i: int| 0 <= i < ps.len() ==> (#[trigger] ps[i]).in_bounds()
}

/// Places the ground, flag and start tiles of row `j`.
fn place_row(
    line: &Vec<Tile>,
    j: usize,
    grounds: &mut Vec<GroundTile>,
    flags: &mut Vec<Point>,
    starts: &mut Vec<Point>,
)
    requires
        line@.len() <= MAX_TILES,
        j <= MAX_TILES,
        grounds_in_bounds(old(grounds)@),
        points_in_bounds(old(flags)@),
        points_in_bounds(old(starts)@),
    ensures
        final(grounds)@ == old(grounds)@ + row_grounds(line@, j as int, line@.len() as int),
        final(flags)@ == old(flags)@ + row_cells(line@, j as int, line@.len() as int, Tile::End),
        final(starts)@ == old(starts)@ + row_cells(
            line@,
            j as int,
            line@.len() as int,
            Tile::Start,
        ),
        grounds_in_bounds(final(grounds)@),
        points_in_bounds(final(flags)@),
        points_in_bounds(final(starts)@),
{
    let ghost g0 = grounds@;
    let ghost f0 = flags@;
    let ghost s0 = starts@;
    proof {
        assert(g0 + row_grounds(line@, j as int, 0) =~= g0);
        assert(f0 + row_cells(line@, j as int, 0, Tile::End) =~= f0);
        assert(s0 + row_cells(line@, j as int, 0, Tile::Start) =~= s0);
    }
    for i in 0..line.len()
        invariant
            line@.len() <= MAX_TILES,
            j <= MAX_TILES,
            grounds@ == g0 + row_grounds(line@, j as int, i as int),
            flags@ == f0 + row_cells(line@, j as int, i as int, Tile::End),
            starts@ == s0 + row_cells(line@, j as int, i as int, Tile::Start),
            grounds_in_bounds(grounds@),
            points_in_bounds(flags@),
            points_in_bounds(starts@),
    {
        let position = tile_position_of(i, j);
        let ghost g1 = grounds@;
        let ghost f1 = flags@;
        let ghost s1 = starts@;
        match line[i] {
            Tile::Ground => {
                let index = ground_tile_index(line.as_slice(), i);
                grounds.push(GroundTile { position, index });
                proof {
                    assert(grounds@ =~= g0 + row_grounds(line@, j as int, i + 1));
                    assert(grounds_in_bounds(grounds@)) by {
                        assert forall|k: int| 0 <= k < grounds@.len() implies (
                        #[trigger] grounds@[k]).position.in_bounds() by {
                            if k < g1.len() {
                                assert(grounds@[k] == g1[k]);
                            }
                        }
                    }
                }
            },
            Tile::End => {
                flags.push(position);
                proof {
                    assert(flags@ =~= f0 + row_cells(line@, j as int, i + 1, Tile::End));
                    assert(points_in_bounds(flags@)) by {
                        assert forall|k: int| 0 <= k < flags@.len() implies (
                        #[trigger] flags@[k]).in_bounds() by {
                            if k < f1.len() {
                                assert(flags@[k] == f1[k]);
                            }
                        }
                    }
                }
            },
            Tile::Start => {
                starts.push(position);
                proof {
                    assert(starts@ =~= s0 + row_cells(line@, j as int, i + 1, Tile::Start));
                    assert(points_in_bounds(starts@)) by {
                        assert forall|k: int| 0 <= k < starts@.len() implies (
                        #[trigger] starts@[k]).in_bounds() by {
                            if k < s1.len() {
                                assert(starts@[k] == s1[k]);
                            }
                        }
                    }
                }
            },
            Tile::Empty => {},
        }
    }
}


/// A level in play: its ground and flag tiles, the player and its sprite, and whether the
/// level has already been completed.
pub struct World {
    pub grounds: Vec<GroundTile>,
    pub flags: Vec<Point>,
    pub player: Player,
    pub animation: Animation,
    /// Set once the player has reached a flag; the completion is reported only then.
    pub completed: bool,
}

impl World {
    pub open spec fn wf(&self) -> bool {
        &&& grounds_in_bounds(self.grounds@)
        &&& points_in_bounds(self.flags@)
        &&& self.player.wf()
        &&& self.animation.wf()
    }
}

/// Sets up a level for play: every ground tile with its sprite, every flag, and the player
/// at rest on the first start tile.
pub fn display_level(level: &Level) -> (w: World)
    requires
        level_fits(level@),
    ensures
        w.wf(),
        w.grounds@ == level_grounds(level@, level@.len() as int),
        w.flags@ == level_cells(level@, level@.len() as int, Tile::End),
        w.player == Player::new_spec(spawn_point(level@)),
        w.animation == Animation::new_spec(),
        !w.completed,
{
    let mut grounds: Vec<GroundTile> = Vec::new();
    let mut flags: Vec<Point> = Vec::new();
    let mut starts: Vec<Point> = Vec::new();
    let ghost rows = level@;
    for j in 0..level.tiles.len()
        invariant
            rows == level@,
            level_fits(rows),
            rows.len() == level.tiles@.len(),
            grounds@ == level_grounds(rows, j as int),
            flags@ == level_cells(rows, j as int, Tile::End),
            starts@ == level_cells(rows, j as int, Tile::Start),
            grounds_in_bounds(grounds@),
            points_in_bounds(flags@),
            points_in_bounds(starts@),
    {
        assert(level.tiles@[j as int]@ == rows[j as int]);
        place_row(&level.tiles[j], j, &mut grounds, &mut flags, &mut starts);
    }
    let spawn = if starts.len() > 0 {
        starts[0]
    } else {
        Point { x: 0, y: DEFAULT_SPAWN_Y }
    };
    World {
        grounds,
        flags,
        player: Player::new(spawn),
        animation: Animation::new(),
        completed: false,
    }
}


/// The player after one tick: input, contact with the ground, gravity, then movement.
pub open spec fn step_player(p: Player, grounds: Seq<GroundTile>, input: Input, now: u64) -> Player {
    moving_spec(gravity_spec(contact_spec(control_spec(p, input, now), grounds, now), now))
}

/// Whether the player's box at `pos` overlaps some flag.
pub open spec fn touches_flag(pos: Point, flags: Seq<Point>) -> bool {
    exists|i: int| 0 <= i < flags.len() && overlaps(pos, #[trigger] flags[i])
}

/// What happened during a tick.
#[derive(Clone, Copy, Debug, PartialEq, Eq, Structural)]
pub struct TickReport {
    /// A jump started; its sound may be played.
    pub jumped: bool,
    /// The player has fallen out of the level.
    pub fell: bool,
    /// The player reached a flag for the first time in this level.
    pub completed: bool,
}

impl TickReport {
    /// The screen that the game moves to after this tick, if any: the menu once the player
    /// has fallen or completed the level.
    pub fn transition(&self) -> (r: Option<GameState>)
        ensures
            r == (if self.fell || self.completed {
                Some(GameState::Menu)
            } else {
                None
            }),
    {
        if self.fell || self.completed {
            Some(GameState::Menu)
        } else {
            None
        }
    }
}

/// Whether the player's box at `pos` overlaps some flag.
fn touching_flag(pos: Point, flags: &Vec<Point>) -> (r: bool)
    requires
        pos.in_bounds(),
        points_in_bounds(flags@),
    ensures
        r == touches_flag(pos, flags@),
{
    let mut found = false;
    for i in 0..flags.len()
        invariant
            pos.in_bounds(),
            points_in_bounds(flags@),
            found == exists|k: int| 0 <= k < i && overlaps(pos, #[trigger] flags@[k]),
    {
        if tile_overlaps(pos, flags[i]) {
            found = true;
        }
    }
    found
}

impl World {
    /// Whether a tick at time `now` may run: the player is well inside the coordinate
    /// limits and `now` does not lie before its last time on the ground.
    pub open spec fn ready(&self, now: u64) -> bool {
        self.player.position.in_play() && self.player.clock_ok(now)
    }

    /// Whether a tick at time `now` may run.
    pub fn can_tick(&self, now: u64) -> (r: bool)
        ensures
            r == self.ready(now),
    {
        let p = self.player.position;
        let clock_ok = match self.player.last_grounded {
            Some(t) => t <= now,
            None => true,
        };
        -MAX_COORD + PLAY_MARGIN <= p.x && p.x <= MAX_COORD - PLAY_MARGIN && -MAX_COORD
            + PLAY_MARGIN <= p.y && p.y <= MAX_COORD - PLAY_MARGIN && clock_ok
    }

    /// Runs one fixed tick at simulated time `now`: reads the input, tests contacts, applies
    /// gravity and movement, advances the sprite when the player moved, and checks for a
    /// fall and for a flag. Completion is reported once per level.
    pub fn tick(&mut self, input: Input, now: u64) -> (r: TickReport)
        requires
            old(self).wf(),
            old(self).ready(now),
        ensures
            final(self).wf(),
            final(self).grounds@ == old(self).grounds@,
            final(self).flags@ == old(self).flags@,
            final(self).player == step_player(old(self).player, old(self).grounds@, input, now),
            final(self).animation == (if final(self).player.position != old(self).player.position {
                animate_spec(old(self).animation, final(self).player.velocity)
            } else {
                old(self).animation
            }),
            final(self).player.clock_ok(now),
            r.jumped == jump_starts(old(self).player, input, now),
            r.fell == (final(self).player.position.y < FALL_LIMIT),
            r.completed == (touches_flag(final(self).player.position, old(self).flags@)
                && !old(self).completed),
            final(self).completed == (old(self).completed || touches_flag(
                final(self).player.position,
                old(self).flags@,
            )),
    {
        let start = self.player.position;
        let jumped = control_player(&mut self.player, input, now);
        on_ground(&mut self.player, &self.grounds, now);
        gravity(&mut self.player, now);
        moving(&mut self.player);
        if self.player.position != start {
            player_animation(&mut self.animation, &self.player.velocity);
        }
        let fell = death_by_fall(&self.player);
        let touching = touching_flag(self.player.position, &self.flags);
        let completed = touching && !self.completed;
        if touching {
            self.completed = true;
        }
        TickReport { jumped, fell, completed }
    }
}


/// Each tile of kind `t` among the first `k` of a row stays in place as the row goes on.
proof fn lemma_row_cells_prefix(line: Seq<Tile>, j: int, k: int, m: int, t: Tile)
    requires
        0 <= k <= m <= line.len(),
    ensures
        row_cells(line, j, k, t).len() <= row_cells(line, j, m, t).len(),
        forall|q: int|
            0 <= q < row_cells(line, j, k, t).len() ==> #[trigger] row_cells(line, j, m, t)[q]
                == row_cells(line, j, k, t)[q],
    decreases m - k,
{
    if m > k {
        lemma_row_cells_prefix(line, j, k, m - 1, t);
    }
}

/// Each tile of kind `t` in the first `n` rows stays in place as more rows are read.
proof fn lemma_level_cells_prefix(rows: Seq<Seq<Tile>>, n: int, m: int, t: Tile)
    requires
        0 <= n <= m <= rows.len(),
    ensures
        level_cells(rows, n, t).len() <= level_cells(rows, m, t).len(),
        forall|q: int|
            0 <= q < level_cells(rows, n, t).len() ==> #[trigger] level_cells(rows, m, t)[q]
                == level_cells(rows, n, t)[q],
    decreases m - n,
{
    if m > n {
        lemma_level_cells_prefix(rows, n, m - 1, t);
    }
}

/// A row prefix without tiles of kind `t` contributes none.
proof fn lemma_row_cells_none(line: Seq<Tile>, j: int, k: int, t: Tile)
    requires
        0 <= k <= line.len(),
        forall|i: int| 0 <= i < k ==> line[i] != t,
    ensures
        row_cells(line, j, k, t).len() == 0,
    decreases k,
{
    if k > 0 {
        lemma_row_cells_none(line, j, k - 1, t);
    }
}

/// Rows without tiles of kind `t` contribute none.
proof fn lemma_level_cells_none(rows: Seq<Seq<Tile>>, n: int, t: Tile)
    requires
        0 <= n <= rows.len(),
        forall|j: int, i: int| 0 <= j < n && 0 <= i < rows[j].len() ==> rows[j][i] != t,
    ensures
        level_cells(rows, n, t).len() == 0,
    decreases n,
{
    if n > 0 {
        lemma_level_cells_none(rows, n - 1, t);
        lemma_row_cells_none(rows[n - 1], n - 1, rows[n - 1].len() as int, t);
    }
}

/// A level with a single start tile places the player on that tile.
pub proof fn lemma_spawn_on_start(rows: Seq<Seq<Tile>>, j: int, i: int)
    requires
        0 <= j < rows.len(),
        0 <= i < rows[j].len(),
        rows[j][i] == Tile::Start,
        forall|b: int, a: int|
            0 <= b < rows.len() && 0 <= a < rows[b].len() && rows[b][a] == Tile::Start ==> b == j
                && a == i,
    ensures
        spawn_point(rows) == tile_position(i, j),
{
    let line = rows[j];
    assert forall|b: int, a: int| 0 <= b < j && 0 <= a < rows[b].len() implies rows[b][a]
        != Tile::Start by {}
    lemma_level_cells_none(rows, j, Tile::Start);
    lemma_row_cells_none(line, j, i, Tile::Start);
    lemma_row_cells_prefix(line, j, i + 1, line.len() as int, Tile::Start);
    assert(row_cells(line, j, i + 1, Tile::Start).len() == 1);
    assert(level_cells(rows, j + 1, Tile::Start) =~= level_cells(rows, j, Tile::Start)
        + row_cells(line, j, line.len() as int, Tile::Start));
    assert(level_cells(rows, j + 1, Tile::Start)[0] == tile_position(i, j));
    lemma_level_cells_prefix(rows, j + 1, rows.len() as int, Tile::Start);
}

/// A jump pressed less than the jump grace after the player last touched the ground starts
/// a jump; pressed later, it leaves a player that was not jumping without impulse.
pub proof fn lemma_jump_grace(p: Player, input: Input, now: u64, t: u64)
    requires
        p.wf(),
        input.jump,
        p.last_grounded == Some(t),
        t <= now,
    ensures
        now - t < JUMP_GRACE_MS ==> control_spec(p, input, now).velocity.jumping > 0,
        now - t >= JUMP_GRACE_MS && p.velocity.jumping == 0 ==> control_spec(
            p,
            input,
            now,
        ).velocity.jumping == 0,
{
}

/// Whether some ground tile blocks the player at `p` on its left.
pub open spec fn blocked_left(p: Player, grounds: Seq<GroundTile>) -> bool {
    exists|i: int| 0 <= i < grounds.len() && blocks_left(p.position, #[trigger] grounds[i].position)
}

/// A player moving left against a tile that blocks it on the left does not move left
/// during the tick.
pub proof fn lemma_wall_blocks(p: Player, grounds: Seq<GroundTile>, input: Input, now: u64)
    requires
        blocked_left(p, grounds),
        p.velocity.current < 0,
    ensures
        step_player(p, grounds, input, now).position.x >= p.position.x,
{
    let q = contact_spec(control_spec(p, input, now), grounds, now);
    let i = choose|i: int| 0 <= i < grounds.len() && blocks_left(p.position, #[trigger] grounds[i].position);
    assert(0 <= i < grounds.len() && blocks_left(q.position, grounds[i].position));
    assert(q.wall_left);
}

/// Over ticks in each of which the player moves left against a tile that blocks it on the
/// left, its horizontal position never decreases.
#[verifier::rlimit(40)]
pub proof fn lemma_wall_blocks_over_ticks(
    players: Seq<Player>,
    grounds: Seq<GroundTile>,
    inputs: Seq<Input>,
    times: Seq<u64>,
)
    requires
        players.len() == inputs.len() + 1,
        times.len() == inputs.len(),
        forall|k: int|
            0 <= k < inputs.len() ==> players[k + 1] == step_player(
                #[trigger] players[k],
                grounds,
                inputs[k],
                times[k],
            ),
        forall|k: int|
            0 <= k < inputs.len() ==> blocked_left(#[trigger] players[k], grounds)
                && players[k].velocity.current < 0,
    ensures
        forall|k: int|
            0 <= k < inputs.len() ==> (#[trigger] players[k + 1]).position.x
                >= players[k].position.x,
        forall|k: int| 0 <= k < players.len() ==> (#[trigger] players[k]).position.x >= players[0].position.x,
    decreases inputs.len(),
{
    assert forall|k: int| 0 <= k < inputs.len() implies (#[trigger] players[k + 1]).position.x
        >= players[k].position.x by {
        lemma_wall_blocks(players[k], grounds, inputs[k], times[k]);
    }
    if inputs.len() > 0 {
        let n = inputs.len() - 1;
        lemma_wall_blocks_over_ticks(players.drop_last(), grounds, inputs.drop_last(), times.drop_last());
        assert forall|k: int| 0 <= k < players.len() implies (#[trigger] players[k]).position.x
            >= players[0].position.x by {
            if k < players.len() - 1 {
                assert(players.drop_last()[k] == players[k]);
            } else {
                assert(players[n + 1].position.x >= players[n].position.x);
                assert(players.drop_last()[n] == players[n]);
            }
        }
    }
}

/// A player below the fall limit that the tick does not lift ends the tick below it and
/// falls out; one at or above the limit that gravity does not pull stays at or above it.
pub proof fn lemma_fall_limit(p: Player, grounds: Seq<GroundTile>, input: Input, now: u64)
    requires
        p.wf(),
        p.position.in_play(),
    ensures
        p.position.y < FALL_LIMIT && p.velocity.jumping == 0 && !jump_starts(p, input, now)
            ==> step_player(p, grounds, input, now).position.y < FALL_LIMIT,
        p.position.y >= FALL_LIMIT && !falls(contact_spec(control_spec(p, input, now), grounds, now), now)
            ==> step_player(p, grounds, input, now).position.y >= FALL_LIMIT,
{
}

} // verus!
