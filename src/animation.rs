use vstd::prelude::*;
use crate::player::Velocity;

verus! {

/// Sprite shown while a jump is under way.
pub const JUMP_FRAME: usize = 35;

/// First of the two sprites that alternate on the ground.
pub const WALK_FRAME_A: usize = 0;

/// Second of the two sprites that alternate on the ground.
pub const WALK_FRAME_B: usize = 7;

/// The walking sprites alternate once every this many steps.
pub const STEP_CADENCE: u32 = 10;

/// The player's sprite: which frame it shows, whether it is mirrored, and how many steps
/// have been counted since the walking frames last alternated.
#[derive(Clone, Copy, Debug, PartialEq, Eq, Structural)]
pub struct Animation {
    pub index: usize,
    pub flip_x: bool,
    pub steps: u32,
}

impl Animation {
    pub open spec fn wf(self) -> bool {
        self.steps < STEP_CADENCE
    }

    /// The first walking frame, facing right, with no steps counted.
    pub open spec fn new_spec() -> Animation {
        Animation { index: WALK_FRAME_A, flip_x: false, steps: 0 }
    }

    /// The first walking frame, facing right, with no steps counted.
    pub fn new() -> (r: Animation)
        ensures
            r.wf(),
            r == Animation::new_spec(),
    {
        Animation { index: WALK_FRAME_A, flip_x: false, steps: 0 }
    }
}

/// The sprite after one more step: the jump frame during a jump; otherwise the walking
/// frames alternate every `STEP_CADENCE` steps. The sprite faces the way the current speed
/// points and keeps its facing when the speed is zero.
pub open spec fn animate_spec(a: Animation, v: Velocity) -> Animation {
    let (index, steps) = if v.jumping > 0 {
        (JUMP_FRAME, a.steps)
    } else {
        let steps = ((a.steps + 1) % (STEP_CADENCE as int)) as u32;
        (
            if steps == 0 {
                if a.index == WALK_FRAME_A {
                    WALK_FRAME_B
                } else {
                    WALK_FRAME_A
                }
            } else {
                a.index
            },
            steps,
        )
    };
    let flip_x = if v.current < 0 {
        true
    } else if v.current > 0 {
        false
    } else {
        a.flip_x
    };
    Animation { index, flip_x, steps }
}

/// Advances the player's sprite by one step.
pub fn player_animation(a: &mut Animation, v: &Velocity)
    requires
        old(a).wf(),
    ensures
        *final(a) == animate_spec(*old(a), *v),
        final(a).wf(),
{
    if v.jumping > 0 {
        a.index = JUMP_FRAME;
    } else {
        a.steps = (a.steps + 1) % STEP_CADENCE;
        if a.steps == 0 {
            a.index = if a.index == WALK_FRAME_A {
                WALK_FRAME_B
            } else {
                WALK_FRAME_A
            };
        }
    }
    if v.current < 0 {
        a.flip_x = true;
    } else if v.current > 0 {
        a.flip_x = false;
    }
}

} // verus!
