use vstd::prelude::*;

use crate::animation::{AnimationTransitionEvent, Clip};
use crate::common::IndexPointer;
use crate::physics::Direction;
use crate::units::{product_spec, UVec, Unit};

verus! {

/// Length of the downward ground probe: 1.1 world units.
pub const GROUND_PROBE_LENGTH: i32 = 88;

/// Cross-fade into the run clip, in milliseconds.
pub const RUN_BLEND_MS: u32 = 200;

/// Cross-fade into the idle clip, in milliseconds.
pub const IDLE_BLEND_MS: u32 = 300;

/// What is known of the player at the end of a frame.
#[derive(Clone, Copy, Debug, PartialEq, Eq, Structural)]
pub struct PlayerData {
    pub player_position: UVec,
    pub held_object_position: UVec,
    pub held_object_index: IndexPointer,
    pub distance_from_floor: Unit,
    pub floor_normal: UVec,
    pub speed: Unit,
    pub defacto_speed: Unit,
    pub kicked_wall: Option<u64>,
    pub jump_stage: u8,
}

impl Default for PlayerData {
    fn default() -> (r: PlayerData)
        ensures
            r.player_position.is_zero(),
            r.held_object_position.is_zero(),
            r.held_object_index == IndexPointer::Empty,
            r.distance_from_floor.0 == 0,
            r.floor_normal.is_zero(),
            r.speed.0 == 0,
            r.defacto_speed.0 == 0,
            r.kicked_wall.is_none(),
            r.jump_stage == 0,
    {
        PlayerData {
            player_position: UVec::zero(),
            held_object_position: UVec::zero(),
            held_object_index: IndexPointer::Empty,
            distance_from_floor: Unit(0),
            floor_normal: UVec::zero(),
            speed: Unit(0),
            defacto_speed: Unit(0),
            kicked_wall: None,
            jump_stage: 0,
        }
    }
}

/// The movement modes of the player.
#[derive(Clone, Copy, Debug, Default, PartialEq, Eq, Structural)]
pub enum Player {
    Diving,
    BellySliding,
    #[default]
    Idle,
    Walking,
    Running,
    LongJumping,
    Rising,
    Freefall,
    Walljumping,
    Carrying,
    ButtSliding,
    Sliding,
}

/// The player moved from one mode to another.
#[derive(Clone, Copy, Debug, PartialEq, Eq, Structural)]
pub struct PlayerStateTransitionEvent {
    pub current_state: Player,
    pub new_state: Player,
}

/// A ray cast into the physics world to find the ground.
#[derive(Clone, Copy, Debug, PartialEq, Eq, Structural)]
pub struct GroundProbe {
    pub origin: UVec,
    pub direction: UVec,
    pub max_distance: Unit,
    pub solid: bool,
    pub exclude_dynamic: bool,
    pub exclude_sensors: bool,
}

/// Where a ground probe met a collider.
#[derive(Clone, Copy, Debug, PartialEq, Eq, Structural)]
pub struct RayHit {
    pub toi: Unit,
    pub normal: UVec,
}

/// The probe that decides whether the player stands on the ground: straight
/// down from the player's position, 1.1 world units long, solid, and
/// meeting static colliders only (dynamic bodies and sensors are excluded).
pub fn ground_probe(position: UVec) -> (r: GroundProbe)
    ensures
        r.origin == position,
        r.direction == (UVec { x: Unit(0i32), y: Unit(-80i32), z: Unit(0i32) }),
        r.max_distance.0 == GROUND_PROBE_LENGTH,
        r.solid,
        r.exclude_dynamic,
        r.exclude_sensors,
{
    GroundProbe {
        origin: position,
        direction: UVec { x: Unit(0), y: Unit(-80), z: Unit(0) },
        max_distance: Unit(GROUND_PROBE_LENGTH),
        solid: true,
        exclude_dynamic: true,
        exclude_sensors: true,
    }
}

/// Records what this frame's ground probe found and returns whether the
/// player is grounded now: exactly when the probe met a collider, whatever
/// the frame before said. Without a hit the recorded data stays as it was.
pub fn handle_grounded(data: &mut PlayerData, hit: Option<RayHit>) -> (r: bool)
    ensures
        r == hit.is_some(),
        hit.is_none() ==> *final(data) == *old(data),
        hit.is_some() ==> *final(data) == (PlayerData {
            floor_normal: hit.unwrap().normal,
            distance_from_floor: hit.unwrap().toi,
            kicked_wall: None,
            ..*old(data)
        }),
{
    match hit {
        Some(h) => {
            data.floor_normal = h.normal;
            data.distance_from_floor = h.toi;
            data.kicked_wall = None;
            true
        },
        None => false,
    }
}

/// Every component lies within one world unit of zero.
pub open spec fn within_unit(v: UVec) -> bool {
    &&& -80 <= v.x.0 <= 80
    &&& -80 <= v.y.0 <= 80
    &&& -80 <= v.z.0 <= 80
}

/// `x * right + z * forward`, each product rounded toward zero.
pub open spec fn camera_space(right: UVec, forward: UVec, x: int, z: int) -> UVec {
    UVec {
        x: Unit((product_spec(right.x.0 as int, x) + product_spec(forward.x.0 as int, z)) as i32),
        y: Unit((product_spec(right.y.0 as int, x) + product_spec(forward.y.0 as int, z)) as i32),
        z: Unit((product_spec(right.z.0 as int, x) + product_spec(forward.z.0 as int, z)) as i32),
    }
}

fn combine(r: Unit, f: Unit, x: Unit, z: Unit) -> (out: Unit)
    requires
        -80 <= r.0 <= 80,
        -80 <= f.0 <= 80,
        -80 <= x.0 <= 80,
        -80 <= z.0 <= 80,
    ensures
        out.0 == product_spec(r.0 as int, x.0 as int) + product_spec(f.0 as int, z.0 as int),
{
    proof {
        crate::units::lemma_product_bounded(r.0 as int, x.0 as int);
        crate::units::lemma_product_bounded(f.0 as int, z.0 as int);
    }
    r.scaled_by(x) + f.scaled_by(z)
}

/// The movement direction that the move stick asks for, relative to the
/// camera: `right` and `forward` are the camera's flattened, normalised
/// axes, and `axis` the stick's clamped (x, y) pair when it is pressed.
pub fn get_direction_in_camera_space(right: UVec, forward: UVec, axis: Option<(Unit, Unit)>) -> (r: UVec)
    requires
        within_unit(right),
        within_unit(forward),
        axis.is_some() ==> -80 <= axis.unwrap().0.0 <= 80 && -80 <= axis.unwrap().1.0 <= 80,
    ensures
        axis.is_none() ==> r == camera_space(right, forward, 0, 0),
        axis.is_some() ==> r == camera_space(
            right,
            forward,
            axis.unwrap().0.0 as int,
            axis.unwrap().1.0 as int,
        ),
{
    let (x, z) = match axis {
        Some(pair) => pair,
        None => (Unit(0), Unit(0)),
    };
    UVec {
        x: combine(right.x, forward.x, x, z),
        y: combine(right.y, forward.y, x, z),
        z: combine(right.z, forward.z, x, z),
    }
}

/// A grounded player takes the direction asked for; a player in the air
/// stops steering.
pub fn set_player_direction(direction: &mut Direction, grounded: bool, wanted: UVec)
    ensures
        grounded ==> final(direction).0 == wanted,
        !grounded ==> final(direction).0.is_zero(),
{
    if grounded {
        direction.set(wanted);
    } else {
        if direction.is_any() {
            direction.set(UVec::zero());
        }
    }
}

/// The animation transition a player is given in a frame, from whether it
/// is steering at all and whether it is grounded: none in the air, the run
/// clip with a 0.2 s cross-fade when steering, the idle clip with a 0.3 s
/// cross-fade otherwise.
pub open spec fn transition_spec(entity: u64, moving: bool, grounded: bool) -> Option<
    AnimationTransitionEvent,
> {
    if !grounded {
        None
    } else if moving {
        Some(AnimationTransitionEvent { entity, clip: Clip::Run, transition_ms: RUN_BLEND_MS })
    } else {
        Some(AnimationTransitionEvent { entity, clip: Clip::Idle, transition_ms: IDLE_BLEND_MS })
    }
}

/// Picks the animation transition for a player in this frame.
pub fn run_to_idle(entity: u64, direction: &Direction, is_grounded: bool) -> (r: Option<
    AnimationTransitionEvent,
>)
    ensures
        r == transition_spec(entity, !direction.0.is_zero(), is_grounded),
{
    if is_grounded {
        if direction.is_any() {
            Some(AnimationTransitionEvent { entity, clip: Clip::Run, transition_ms: RUN_BLEND_MS })
        } else {
            Some(
                AnimationTransitionEvent { entity, clip: Clip::Idle, transition_ms: IDLE_BLEND_MS },
            )
        }
    } else {
        None
    }
}

/// Compares the player's mode with the one seen last, reports a change, and
/// remembers the current mode.
pub fn handle_state_transition_events(previous: &mut Player, current: Player) -> (r: Option<
    PlayerStateTransitionEvent,
>)
    ensures
        *final(previous) == current,
        current != *old(previous) ==> r == Some(
            PlayerStateTransitionEvent { current_state: *old(previous), new_state: current },
        ),
        current == *old(previous) ==> r.is_none(),
{
    let before = *previous;
    *previous = current;
    if current != before {
        Some(PlayerStateTransitionEvent { current_state: before, new_state: current })
    } else {
        None
    }
}

} // verus!
