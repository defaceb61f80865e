//! A tick's collision events, played against the doors of the world.
//!
//! Entities are named by their numbers. A door has a body and, as a separate
//! entity, a trigger volume that knows the body it belongs to. Events are
//! handled in the order in which they were queued.

use vstd::prelude::*;
use crate::door::{
    door_use, spec_door_use, Door, DoorAnimationType, DoorSignal, Position, TriggerPhase,
};

verus! {

/// One collision event of the physics step.
#[derive(Debug, Clone, Copy, PartialEq, Eq, Structural)]
pub struct CollisionRecord {
    /// The overlap has started, or has stopped.
    pub phase: TriggerPhase,
    pub collider_1: u64,
    pub collider_2: u64,
    /// One of the two colliders was removed.
    pub removed: bool,
    /// One of the two colliders is a trigger volume.
    pub sensor: bool,
}

/// The trigger volume of a door.
#[derive(Debug, Clone, Copy, PartialEq, Eq, Structural)]
pub struct DoorSensor {
    pub entity: u64,
    /// The door body that this volume belongs to.
    pub associated_door: u64,
    pub position: Position,
}

/// A door body.
#[derive(Debug, Clone, Copy, PartialEq, Eq, Structural)]
pub struct DoorEntity {
    pub entity: u64,
    pub door: Door,
}

/// The player.
#[derive(Debug, Clone, Copy, PartialEq, Eq, Structural)]
pub struct PlayerEntity {
    pub entity: u64,
    pub position: Position,
}

/// What a door body is to do after an event.
#[derive(Debug, Clone, Copy, PartialEq, Eq, Structural)]
pub struct DoorCommand {
    pub entity: u64,
    pub signal: Option<DoorSignal>,
    pub animation: Option<DoorAnimationType>,
}

/// The collider that met the player in `event`, if the player is one of the two.
pub open spec fn spec_met_by_player(player: u64, event: CollisionRecord) -> Option<u64> {
    if event.collider_1 == player {
        Some(event.collider_2)
    } else if event.collider_2 == player {
        Some(event.collider_1)
    } else {
        None
    }
}

/// Computes [`spec_met_by_player`].
pub fn met_by_player(player: u64, event: CollisionRecord) -> (other: Option<u64>)
    ensures
        other == spec_met_by_player(player, event),
{
    if event.collider_1 == player {
        Some(event.collider_2)
    } else if event.collider_2 == player {
        Some(event.collider_1)
    } else {
        None
    }
}

/// Index of the first trigger volume from `from` on whose entity is `entity`.
pub open spec fn spec_find_sensor(sensors: Seq<DoorSensor>, entity: u64, from: int) -> Option<int>
    decreases sensors.len() - from,
{
    if from < 0 || from >= sensors.len() {
        None
    } else if sensors[from].entity == entity {
        Some(from)
    } else {
        spec_find_sensor(sensors, entity, from + 1)
    }
}

/// Index of the first door body from `from` on whose entity is `entity`.
pub open spec fn spec_find_door(doors: Seq<DoorEntity>, entity: u64, from: int) -> Option<int>
    decreases doors.len() - from,
{
    if from < 0 || from >= doors.len() {
        None
    } else if doors[from].entity == entity {
        Some(from)
    } else {
        spec_find_door(doors, entity, from + 1)
    }
}

/// A found index lies in the list, and the entity stands there.
pub proof fn lemma_find_sensor(sensors: Seq<DoorSensor>, entity: u64, from: int)
    ensures
        spec_find_sensor(sensors, entity, from) matches Some(i) ==> from <= i < sensors.len()
            && sensors[i].entity == entity,
    decreases sensors.len() - from,
{
    if 0 <= from < sensors.len() && sensors[from].entity != entity {
        lemma_find_sensor(sensors, entity, from + 1);
    }
}

/// A found index lies in the list, and the entity stands there.
pub proof fn lemma_find_door(doors: Seq<DoorEntity>, entity: u64, from: int)
    ensures
        spec_find_door(doors, entity, from) matches Some(i) ==> from <= i < doors.len()
            && doors[i].entity == entity,
    decreases doors.len() - from,
{
    if 0 <= from < doors.len() && doors[from].entity != entity {
        lemma_find_door(doors, entity, from + 1);
    }
}

/// Finds the trigger volume with entity `entity`.
pub fn find_sensor(sensors: &Vec<DoorSensor>, entity: u64) -> (found: Option<usize>)
    ensures
        match found {
            Some(i) => spec_find_sensor(sensors@, entity, 0) == Some(i as int) && i < sensors@.len(),
            None => spec_find_sensor(sensors@, entity, 0) is None,
        },
{
    let mut i: usize = 0;
    while i < sensors.len()
        invariant
            i <= sensors@.len(),
            spec_find_sensor(sensors@, entity, 0) == spec_find_sensor(sensors@, entity, i as int),
        decreases sensors@.len() - i,
    {
        if sensors[i].entity == entity {
            return Some(i);
        }
        i = i + 1;
    }
    None
}

/// Finds the door body with entity `entity`.
pub fn find_door(doors: &Vec<DoorEntity>, entity: u64) -> (found: Option<usize>)
    ensures
        match found {
            Some(i) => spec_find_door(doors@, entity, 0) == Some(i as int) && i < doors@.len(),
            None => spec_find_door(doors@, entity, 0) is None,
        },
{
    let mut i: usize = 0;
    while i < doors.len()
        invariant
            i <= doors@.len(),
            spec_find_door(doors@, entity, 0) == spec_find_door(doors@, entity, i as int),
        decreases doors@.len() - i,
    {
        if doors[i].entity == entity {
            return Some(i);
        }
        i = i + 1;
    }
    None
}

/// What one event comes to.
#[derive(Debug, Clone, Copy, PartialEq, Eq, Structural)]
pub enum EventOutcome {
    /// The event is passed over.
    Skip,
    /// The door body at this index takes a new state and is given this command.
    React(usize, Door, DoorCommand),
}

/// What `event` comes to.
///
/// An event with a removed collider, or without a trigger volume, is passed over. So is
/// an event that is not between the player and the trigger volume of a door, and one whose
/// door body is no longer there. Every other event goes to the door state machine: a door
/// that neither signals nor slides is passed over, and any other reaction changes the door
/// and becomes a command. No event keeps a later one from being handled.
pub open spec fn spec_handle_event(
    player: PlayerEntity,
    event: CollisionRecord,
    sensors: Seq<DoorSensor>,
    doors: Seq<DoorEntity>,
) -> EventOutcome {
    if event.removed || !event.sensor {
        EventOutcome::Skip
    } else {
        match spec_met_by_player(player.entity, event) {
            None => EventOutcome::Skip,
            Some(other) => match spec_find_sensor(sensors, other, 0) {
                None => EventOutcome::Skip,
                Some(s) => match spec_find_door(doors, sensors[s].associated_door, 0) {
                    None => EventOutcome::Skip,
                    Some(d) => {
                        let reaction = spec_door_use(
                            doors[d].door,
                            event.phase,
                            player.position,
                            sensors[s].position,
                        );
                        if reaction.signal is None && reaction.animation is None {
                            EventOutcome::Skip
                        } else {
                            EventOutcome::React(
                                d as usize,
                                reaction.door,
                                DoorCommand {
                                    entity: doors[d].entity,
                                    signal: reaction.signal,
                                    animation: reaction.animation,
                                },
                            )
                        }
                    },
                },
            },
        }
    }
}

/// Computes [`spec_handle_event`]; a door body named in the outcome is one of `doors`.
pub fn handle_event(
    player: PlayerEntity,
    event: CollisionRecord,
    sensors: &Vec<DoorSensor>,
    doors: &Vec<DoorEntity>,
) -> (outcome: EventOutcome)
    ensures
        outcome == spec_handle_event(player, event, sensors@, doors@),
        outcome matches EventOutcome::React(d, _, _) ==> d < doors@.len(),
{
    if event.removed || !event.sensor {
        return EventOutcome::Skip;
    }
    let other = match met_by_player(player.entity, event) {
        Some(other) => other,
        None => {
            return EventOutcome::Skip;
        },
    };
    let s = match find_sensor(sensors, other) {
        Some(s) => s,
        None => {
            return EventOutcome::Skip;
        },
    };
    let d = match find_door(doors, sensors[s].associated_door) {
        Some(d) => d,
        None => {
            return EventOutcome::Skip;
        },
    };
    let reaction = door_use(doors[d].door, event.phase, player.position, sensors[s].position);
    if reaction.signal.is_none() && reaction.animation.is_none() {
        EventOutcome::Skip
    } else {
        EventOutcome::React(
            d,
            reaction.door,
            DoorCommand {
                entity: doors[d].entity,
                signal: reaction.signal,
                animation: reaction.animation,
            },
        )
    }
}

/// The doors after the events from number `from` on, and the commands given on the way.
pub open spec fn run_events(
    player: PlayerEntity,
    events: Seq<CollisionRecord>,
    sensors: Seq<DoorSensor>,
    doors: Seq<DoorEntity>,
    from: int,
) -> (Seq<DoorEntity>, Seq<DoorCommand>)
    decreases events.len() - from,
{
    if from < 0 || from >= events.len() {
        (doors, Seq::empty())
    } else {
        match spec_handle_event(player, events[from], sensors, doors) {
            EventOutcome::Skip => run_events(player, events, sensors, doors, from + 1),
            EventOutcome::React(d, door, command) => {
                let changed = doors.update(
                    d as int,
                    DoorEntity { entity: doors[d as int].entity, door },
                );
                let rest = run_events(player, events, sensors, changed, from + 1);
                (rest.0, seq![command] + rest.1)
            },
        }
    }
}

/// An event with a removed collider, or without a trigger volume, leaves the doors alone and
/// gives no command, and the events behind it are handled as if it had not been there.
pub proof fn lemma_other_events_pass(
    player: PlayerEntity,
    events: Seq<CollisionRecord>,
    sensors: Seq<DoorSensor>,
    doors: Seq<DoorEntity>,
    from: int,
)
    requires
        0 <= from < events.len(),
        events[from].removed || !events[from].sensor,
    ensures
        run_events(player, events, sensors, doors, from) == run_events(
            player,
            events,
            sensors,
            doors,
            from + 1,
        ),
{
}

/// Plays a tick's collision events against the doors, each event in its turn: each door
/// takes the state that the events leave it in, and the commands for the door bodies are
/// returned in the order of the events. Without a player nothing happens.
pub fn door_events(
    player: Option<PlayerEntity>,
    events: &Vec<CollisionRecord>,
    sensors: &Vec<DoorSensor>,
    doors: &mut Vec<DoorEntity>,
) -> (commands: Vec<DoorCommand>)
    ensures
        match player {
            Some(p) => (final(doors)@, commands@) == run_events(
                p,
                events@,
                sensors@,
                old(doors)@,
                0,
            ),
            None => final(doors)@ == old(doors)@ && commands@ == Seq::<DoorCommand>::empty(),
        },
{
    let mut commands: Vec<DoorCommand> = Vec::new();
    let p = match player {
        Some(p) => p,
        None => {
            return commands;
        },
    };
    let mut i: usize = 0;
    while i < events.len()
        invariant
            i <= events@.len(),
            player == Some(p),
            run_events(p, events@, sensors@, old(doors)@, 0) == (
                run_events(p, events@, sensors@, doors@, i as int).0,
                commands@ + run_events(p, events@, sensors@, doors@, i as int).1,
            ),
        decreases events@.len() - i,
    {
        match handle_event(p, events[i], sensors, doors) {
            EventOutcome::Skip => {},
            EventOutcome::React(d, door, command) => {
                let ghost before = doors@;
                let ghost rest = run_events(
                    p,
                    events@,
                    sensors@,
                    before.update(d as int, DoorEntity { entity: before[d as int].entity, door }),
                    i + 1,
                );
                let entity = doors[d].entity;
                doors[d] = DoorEntity { entity, door };
                assert(doors@ == before.update(
                    d as int,
                    DoorEntity { entity: before[d as int].entity, door },
                ));
                assert(commands@ + (seq![command] + rest.1) =~= commands@.push(command) + rest.1);
                commands.push(command);
            },
        }
        i = i + 1;
    }
    proof {
        assert(commands@ + Seq::<DoorCommand>::empty() =~= commands@);
    }
    commands
}

/// One of the two colliders of a collision event.
#[derive(Debug, Clone, Copy, PartialEq, Eq, Structural)]
pub enum PairMember {
    First,
    Second,
}

/// The projectile that a collision has spent: the first collider where it is a projectile
/// and the second belongs to the level, else the second collider where it is a projectile
/// and the first belongs to the level. A first collider that is a projectile and has hit
/// anything else settles the event: nothing is spent.
pub fn spent_projectile(
    first_is_projectile: bool,
    first_is_level: bool,
    second_is_projectile: bool,
    second_is_level: bool,
) -> (spent: Option<PairMember>)
    ensures
        spent == (if first_is_projectile {
            if second_is_level {
                Some(PairMember::First)
            } else {
                None
            }
        } else if second_is_projectile && first_is_level {
            Some(PairMember::Second)
        } else {
            None
        }),
{
    if first_is_projectile {
        if second_is_level {
            Some(PairMember::First)
        } else {
            None
        }
    } else if second_is_projectile {
        if first_is_level {
            Some(PairMember::Second)
        } else {
            None
        }
    } else {
        None
    }
}

} // verus!
