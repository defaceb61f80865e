//! Doors: which border they sit on, their lifecycle state, and the state
//! machine that trigger events drive.

use vstd::prelude::*;
use crate::config::GRID_SIZE;

verus! {

/// The border of the level that a door sits on.
#[derive(Debug, Clone, Copy, PartialEq, Eq, Structural)]
pub enum DoorType {
    Top,
    Bottom,
    Left,
    Right,
}

/// Lifecycle state of one door.
#[derive(Debug, Clone, Copy, PartialEq, Eq, Structural)]
pub enum DoorState {
    Locked,
    Unlocked,
    Used,
    TemporaryOpen,
}

/// One door of a level: its side, its state and its index along that side.
#[derive(Debug, Clone, Copy, PartialEq, Eq, Structural)]
pub struct Door {
    pub door_type: DoorType,
    pub door_state: DoorState,
    pub grid_pos: usize,
}

impl DoorType {
    /// The side across the level from `self`.
    pub open spec fn spec_opposite(self) -> DoorType {
        match self {
            DoorType::Top => DoorType::Bottom,
            DoorType::Bottom => DoorType::Top,
            DoorType::Left => DoorType::Right,
            DoorType::Right => DoorType::Left,
        }
    }

    /// The side through which a player who left by `self` enters the next level.
    #[verifier::when_used_as_spec(spec_opposite)]
    pub fn opposite(self) -> (r: DoorType)
        ensures
            r == self.spec_opposite(),
    {
        match self {
            DoorType::Top => DoorType::Bottom,
            DoorType::Bottom => DoorType::Top,
            DoorType::Left => DoorType::Right,
            DoorType::Right => DoorType::Left,
        }
    }
}

impl Door {
    /// A door position is valid when it keeps two cells clear of either corner.
    pub open spec fn wf(self) -> bool {
        2 <= self.grid_pos < GRID_SIZE - 2
    }
}

/// A point of the level plane, in thousandths of a world unit.
#[derive(Debug, Clone, Copy, PartialEq, Eq, Structural)]
pub struct Position {
    pub x: i64,
    pub y: i64,
}

/// What the trigger volume of a door reports: the player has come into it, or has left it.
#[derive(Debug, Clone, Copy, PartialEq, Eq, Structural)]
pub enum TriggerPhase {
    Started,
    Stopped,
}

/// Direction of a door's slide.
#[derive(Debug, Clone, Copy, PartialEq, Eq, Structural)]
pub enum DoorAnimationType {
    Open,
    Close,
}

/// What a door tells the session.
#[derive(Debug, Clone, Copy, PartialEq, Eq, Structural)]
pub enum DoorSignal {
    /// The player has come fully into the level through this door.
    LevelStarted,
    /// The player has used this door as the exit; the next level is to be built behind it.
    LevelSwitch(Door),
}

/// What one trigger event does to a door.
#[derive(Debug, Clone, Copy, PartialEq, Eq, Structural)]
pub struct DoorReaction {
    /// The door after the event.
    pub door: Door,
    /// The signal that the door raises, if any.
    pub signal: Option<DoorSignal>,
    /// The slide that the door starts, if any.
    pub animation: Option<DoorAnimationType>,
}

/// How far `player` is from `sensor` along the outward normal of a door on `side`: positive
/// outside the level, negative inside.
pub open spec fn outward_offset(side: DoorType, player: Position, sensor: Position) -> int {
    match side {
        DoorType::Top => player.y - sensor.y,
        DoorType::Bottom => sensor.y - player.y,
        DoorType::Left => sensor.x - player.x,
        DoorType::Right => player.x - sensor.x,
    }
}

/// The player stands on the level's side of the trigger volume.
pub fn is_inside(side: DoorType, player: Position, sensor: Position) -> (inside: bool)
    ensures
        inside == (outward_offset(side, player, sensor) < 0),
{
    match side {
        DoorType::Top => player.y < sensor.y,
        DoorType::Bottom => player.y > sensor.y,
        DoorType::Left => player.x > sensor.x,
        DoorType::Right => player.x < sensor.x,
    }
}

/// The player stands on the far side of the trigger volume, outside the level.
pub fn is_outside(side: DoorType, player: Position, sensor: Position) -> (outside: bool)
    ensures
        outside == (outward_offset(side, player, sensor) > 0),
{
    match side {
        DoorType::Top => player.y > sensor.y,
        DoorType::Bottom => player.y < sensor.y,
        DoorType::Left => player.x < sensor.x,
        DoorType::Right => player.x > sensor.x,
    }
}

/// The reaction of a door that stays as it is and does nothing.
pub open spec fn no_reaction(door: Door) -> DoorReaction {
    DoorReaction { door, signal: None, animation: None }
}

/// The door state machine: what a trigger event does to `door` while the player stands at
/// `player` and the trigger volume at `sensor`.
///
/// - `Locked`: nothing.
/// - `Unlocked`: the door becomes `Used`, asks for the level switch and slides open.
/// - `Used`: when the player leaves the trigger volume on the outside, the door slides
///   shut behind them. It stays `Used` and asks for nothing again.
/// - `TemporaryOpen`: when the player leaves the trigger volume on the inside, the door
///   becomes `Locked`, slides shut and reports the level as started.
///
/// Every event is taken on its own: none keeps a later event from being handled.
pub open spec fn spec_door_use(
    door: Door,
    phase: TriggerPhase,
    player: Position,
    sensor: Position,
) -> DoorReaction {
    match door.door_state {
        DoorState::Locked => no_reaction(door),
        DoorState::Unlocked => {
            let used = Door { door_state: DoorState::Used, ..door };
            DoorReaction {
                door: used,
                signal: Some(DoorSignal::LevelSwitch(used)),
                animation: Some(DoorAnimationType::Open),
            }
        },
        DoorState::Used => if phase == TriggerPhase::Stopped && outward_offset(
            door.door_type,
            player,
            sensor,
        ) > 0 {
            DoorReaction { door, signal: None, animation: Some(DoorAnimationType::Close) }
        } else {
            no_reaction(door)
        },
        DoorState::TemporaryOpen => if phase == TriggerPhase::Stopped && outward_offset(
            door.door_type,
            player,
            sensor,
        ) < 0 {
            DoorReaction {
                door: Door { door_state: DoorState::Locked, ..door },
                signal: Some(DoorSignal::LevelStarted),
                animation: Some(DoorAnimationType::Close),
            }
        } else {
            no_reaction(door)
        },
    }
}

/// Computes [`spec_door_use`].
pub fn door_use(door: Door, phase: TriggerPhase, player: Position, sensor: Position) -> (reaction:
    DoorReaction)
    ensures
        reaction == spec_door_use(door, phase, player, sensor),
{
    let idle = DoorReaction { door, signal: None, animation: None };
    match door.door_state {
        DoorState::Locked => idle,
        DoorState::Unlocked => {
            let used = Door {
                door_type: door.door_type,
                door_state: DoorState::Used,
                grid_pos: door.grid_pos,
            };
            DoorReaction {
                door: used,
                signal: Some(DoorSignal::LevelSwitch(used)),
                animation: Some(DoorAnimationType::Open),
            }
        },
        DoorState::Used => match phase {
            TriggerPhase::Started => idle,
            TriggerPhase::Stopped => {
                if is_outside(door.door_type, player, sensor) {
                    DoorReaction { door, signal: None, animation: Some(DoorAnimationType::Close) }
                } else {
                    idle
                }
            },
        },
        DoorState::TemporaryOpen => match phase {
            TriggerPhase::Started => idle,
            TriggerPhase::Stopped => {
                if is_inside(door.door_type, player, sensor) {
                    let locked = Door {
                        door_type: door.door_type,
                        door_state: DoorState::Locked,
                        grid_pos: door.grid_pos,
                    };
                    DoorReaction {
                        door: locked,
                        signal: Some(DoorSignal::LevelStarted),
                        animation: Some(DoorAnimationType::Close),
                    }
                } else {
                    idle
                }
            },
        },
    }
}

impl Door {
    /// The door once its level is finished: a `Locked` door is `Unlocked`, any other is as
    /// it was.
    pub open spec fn spec_unlocked(self) -> Door {
        if self.door_state == DoorState::Locked {
            Door { door_state: DoorState::Unlocked, ..self }
        } else {
            self
        }
    }

    /// Computes [`Door::spec_unlocked`].
    pub fn unlocked(self) -> (door: Door)
        ensures
            door == self.spec_unlocked(),
    {
        match self.door_state {
            DoorState::Locked => Door {
                door_type: self.door_type,
                door_state: DoorState::Unlocked,
                grid_pos: self.grid_pos,
            },
            _ => self,
        }
    }
}

/// The bulk unlock on a finished level: every `Locked` door of `doors` becomes `Unlocked`,
/// all at once; side and position stay.
pub fn level_finished(doors: &mut Vec<Door>)
    ensures
        final(doors)@.len() == old(doors)@.len(),
        forall|i: int|
            0 <= i < old(doors)@.len() ==> #[trigger] final(doors)@[i] == old(
                doors,
            )@[i].spec_unlocked(),
{
    let mut i: usize = 0;
    while i < doors.len()
        invariant
            i <= doors@.len(),
            doors@.len() == old(doors)@.len(),
            forall|k: int| 0 <= k < i ==> #[trigger] doors@[k] == old(doors)@[k].spec_unlocked(),
            forall|k: int| i <= k < doors@.len() ==> #[trigger] doors@[k] == old(doors)@[k],
        decreases doors@.len() - i,
    {
        let door = doors[i].unlocked();
        doors[i] = door;
        i = i + 1;
    }
}

/// Colour of the lamp above a door.
#[derive(Debug, Clone, Copy, PartialEq, Eq, Structural)]
pub enum DoorLightColor {
    Green,
    Red,
}

/// How a door comes into the world.
#[derive(Debug, Clone, Copy, PartialEq, Eq, Structural)]
pub struct DoorSpawn {
    /// The door stands turned by a quarter, along the left or right border.
    pub quarter_turn: bool,
    /// The lamp above it.
    pub light: DoorLightColor,
    /// The door starts with its opening slide.
    pub opening: bool,
}

/// How `door` comes into the world: turned by a quarter on the left and right border, with
/// a green lamp when it is `Unlocked` and a red one otherwise, and sliding open at once when
/// it is `TemporaryOpen`.
pub fn spawn_door(door: Door) -> (spawn: DoorSpawn)
    ensures
        spawn.quarter_turn == (door.door_type == DoorType::Left || door.door_type
            == DoorType::Right),
        spawn.light == (if door.door_state == DoorState::Unlocked {
            DoorLightColor::Green
        } else {
            DoorLightColor::Red
        }),
        spawn.opening == (door.door_state == DoorState::TemporaryOpen),
{
    let quarter_turn = match door.door_type {
        DoorType::Top | DoorType::Bottom => false,
        DoorType::Left | DoorType::Right => true,
    };
    let light = match door.door_state {
        DoorState::Unlocked => DoorLightColor::Green,
        _ => DoorLightColor::Red,
    };
    DoorSpawn { quarter_turn, light, opening: door.door_state == DoorState::TemporaryOpen }
}

/// One thing that happens to a door: a trigger event with the places of player and trigger
/// volume, or the end of its level.
pub enum DoorInput {
    Trigger(TriggerPhase, Position, Position),
    LevelFinished,
}

/// The door after `input`.
pub open spec fn door_after(door: Door, input: DoorInput) -> Door {
    match input {
        DoorInput::Trigger(phase, player, sensor) => spec_door_use(
            door,
            phase,
            player,
            sensor,
        ).door,
        DoorInput::LevelFinished => door.spec_unlocked(),
    }
}

/// `input` makes the door ask for a level switch.
pub open spec fn asks_for_switch(door: Door, input: DoorInput) -> bool {
    match input {
        DoorInput::Trigger(phase, player, sensor) => spec_door_use(
            door,
            phase,
            player,
            sensor,
        ).signal matches Some(DoorSignal::LevelSwitch(_)),
        DoorInput::LevelFinished => false,
    }
}

/// How often the door asks for a level switch while `inputs` happen to it in order.
pub open spec fn switch_requests(door: Door, inputs: Seq<DoorInput>) -> nat
    decreases inputs.len(),
{
    if inputs.len() == 0 {
        0
    } else {
        let first: nat = if asks_for_switch(door, inputs[0]) {
            1
        } else {
            0
        };
        first + switch_requests(door_after(door, inputs[0]), inputs.drop_first())
    }
}

/// A `Used` door stays `Used` whatever happens to it, and asks for no level switch.
pub proof fn lemma_used_is_final(door: Door, input: DoorInput)
    requires
        door.door_state == DoorState::Used,
    ensures
        door_after(door, input) == door,
        !asks_for_switch(door, input),
{
}

/// A door asks for a level switch only on the step from `Unlocked` to `Used`.
pub proof fn lemma_switch_only_when_unlocked(door: Door, input: DoorInput)
    ensures
        asks_for_switch(door, input) <==> input is Trigger && door.door_state
            == DoorState::Unlocked,
        asks_for_switch(door, input) ==> door_after(door, input).door_state == DoorState::Used,
{
}

/// State machine legality: over any run of events a door asks for a level switch at most
/// once, and a door that is `Used` never asks again.
pub proof fn lemma_one_switch(door: Door, inputs: Seq<DoorInput>)
    ensures
        switch_requests(door, inputs) <= 1,
        door.door_state == DoorState::Used ==> switch_requests(door, inputs) == 0,
    decreases inputs.len(),
{
    if inputs.len() > 0 {
        lemma_switch_only_when_unlocked(door, inputs[0]);
        lemma_one_switch(door_after(door, inputs[0]), inputs.drop_first());
        if door.door_state == DoorState::Used {
            lemma_used_is_final(door, inputs[0]);
        }
    }
}

} // verus!
