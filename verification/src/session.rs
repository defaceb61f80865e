//! The level session: the state of the level being played, the switch to the
//! next one, and the deferred clean-up of the one left behind.

use vstd::prelude::*;
use rand::rngs::ThreadRng;
use crate::assembly::{is_level, level_spawns, spawn_level, tutorial_built, LevelPlan};
use crate::config::PROGRESS_PER_LEVEL;
use crate::door::{Door, DoorAnimationType};
use crate::generation::is_generated;
use crate::grid::Grid;
use crate::level::{spec_next_translation, LevelColor, LevelType, Translation};
use crate::random::{random_bool, random_index, thread_rng};

verus! {

/// State of the level being played. Entities are named by their numbers.
pub struct LevelInfo {
    /// Every enemy of the level is dead and the doors have been unlocked.
    pub finished: bool,
    pub level_type: LevelType,
    /// Anchor of the level in the world.
    pub translation: Translation,
    /// Entities of the level before, kept alive until its exit door has closed.
    pub old_level_objects: Vec<u64>,
    /// How far the run has come, in percent.
    pub game_progress: u32,
}

/// The progress of a run after one more level switch: `PROGRESS_PER_LEVEL` more, up to 100.
pub open spec fn spec_next_progress(game_progress: u32) -> u32 {
    if game_progress + PROGRESS_PER_LEVEL >= 100 {
        100
    } else {
        (game_progress + PROGRESS_PER_LEVEL) as u32
    }
}

/// Computes [`spec_next_progress`].
pub fn next_progress(game_progress: u32) -> (next: u32)
    ensures
        next == spec_next_progress(game_progress),
{
    if game_progress >= 100 - PROGRESS_PER_LEVEL {
        100
    } else {
        game_progress + PROGRESS_PER_LEVEL
    }
}

/// The colour that stands at `index` among the five: pink, orange, blue, normal, green.
pub open spec fn spec_level_color(index: usize) -> LevelColor {
    if index == 0 {
        LevelColor::Pink
    } else if index == 1 {
        LevelColor::Orange
    } else if index == 2 {
        LevelColor::Blue
    } else if index == 3 {
        LevelColor::Normal
    } else {
        LevelColor::Green
    }
}

/// Computes [`spec_level_color`].
pub fn level_color(index: usize) -> (color: LevelColor)
    requires
        index < 5,
    ensures
        color == spec_level_color(index),
{
    if index == 0 {
        LevelColor::Pink
    } else if index == 1 {
        LevelColor::Orange
    } else if index == 2 {
        LevelColor::Blue
    } else if index == 3 {
        LevelColor::Normal
    } else {
        LevelColor::Green
    }
}

/// The kind of the level that follows one of kind `current`: a covered one after an open
/// one, always; after a covered one another covered one when `stay_covered`, else one open
/// to a sky of `color`.
pub open spec fn spec_next_level_type(current: LevelType, stay_covered: bool, color: LevelColor)
    -> LevelType {
    match current {
        LevelType::Open(_) => LevelType::Covered,
        LevelType::Covered => if stay_covered {
            LevelType::Covered
        } else {
            LevelType::Open(color)
        },
    }
}

/// Computes [`spec_next_level_type`].
pub fn next_level_type(current: LevelType, stay_covered: bool, color: LevelColor) -> (next:
    LevelType)
    ensures
        next == spec_next_level_type(current, stay_covered, color),
{
    match current {
        LevelType::Open(_) => LevelType::Covered,
        LevelType::Covered => {
            if stay_covered {
                LevelType::Covered
            } else {
                LevelType::Open(color)
            }
        },
    }
}

/// Draws the kind of the next level: after an open level a covered one; after a covered
/// level a fair coin decides between covered and open, and an open level draws its colour
/// evenly from the five.
pub fn draw_level_type(current: LevelType, rng: &mut ThreadRng) -> (next: LevelType)
    ensures
        current is Open ==> next == LevelType::Covered,
        exists|stay_covered: bool, index: usize|
            index < 5 && next == spec_next_level_type(
                current,
                stay_covered,
                spec_level_color(index),
            ),
{
    match current {
        LevelType::Open(_) => {
            assert(LevelType::Covered == spec_next_level_type(current, true, spec_level_color(0)));
            LevelType::Covered
        },
        LevelType::Covered => {
            if random_bool(rng) {
                assert(LevelType::Covered == spec_next_level_type(
                    current,
                    true,
                    spec_level_color(0),
                ));
                LevelType::Covered
            } else {
                let index = random_index(rng, 0, 5);
                let next = next_level_type(current, false, level_color(index));
                assert(next == spec_next_level_type(current, false, spec_level_color(index)));
                next
            }
        },
    }
}

/// The colour of the sun that lights a level: the sky's colour over an open level, no sun
/// under a roof.
pub fn level_sun(level_type: LevelType) -> (sun: Option<LevelColor>)
    ensures
        sun == (match level_type {
            LevelType::Covered => None::<LevelColor>,
            LevelType::Open(color) => Some(color),
        }),
{
    match level_type {
        LevelType::Covered => None,
        LevelType::Open(color) => Some(color),
    }
}

/// Starts a run: the first level is a covered tutorial level at the origin, with its
/// teaching area built around the player start, not finished, and with nothing left behind
/// to delete.
pub fn spawn_initial_level() -> (out: (LevelInfo, LevelPlan))
    ensures
        !out.0.finished,
        out.0.level_type == LevelType::Covered,
        out.0.translation == (Translation { x: 0, y: 0, z: 0 }),
        out.0.old_level_objects@ == Seq::<u64>::empty(),
        out.0.game_progress == 0,
        out.1.translation == out.0.translation,
        out.1.spawns@ == level_spawns(&out.1.grid, out.1.translation, LevelType::Covered),
        exists|generated: Grid|
            is_generated(&generated, None) && tutorial_built(&generated, &out.1.grid),
{
    let plan = spawn_level(Translation::zero(), None, LevelType::Covered, true, false);
    let info = LevelInfo {
        finished: false,
        level_type: LevelType::Covered,
        translation: Translation::zero(),
        old_level_objects: Vec::new(),
        game_progress: 0,
    };
    (info, plan)
}

/// One tick of level progress. `level_started` tells whether a door has reported the level
/// as started since the last tick, `remaining_enemies` how many enemies are alive.
///
/// A started level is not finished. A level that is not finished and has no enemy left
/// becomes finished, and the function returns `true`: the level-finished event is due,
/// once.
pub fn level_progress(info: &mut LevelInfo, level_started: bool, remaining_enemies: usize) -> (fire:
    bool)
    ensures
        fire == (remaining_enemies == 0 && (level_started || !old(info).finished)),
        final(info).finished == (fire || (old(info).finished && !level_started)),
        final(info).level_type == old(info).level_type,
        final(info).translation == old(info).translation,
        final(info).old_level_objects == old(info).old_level_objects,
        final(info).game_progress == old(info).game_progress,
{
    if level_started {
        info.finished = false;
    }
    if remaining_enemies == 0 && !info.finished {
        info.finished = true;
        true
    } else {
        false
    }
}

/// Switches to the next level when the player has used `exit_door`.
///
/// `level_objects` are the entities that the level in play owns. They are remembered for
/// deletion, none is deleted now. The next level is generated behind the exit door, one
/// level size on, and becomes the level in play. The run moves on by one level; the level
/// that brings it to 100 percent is the boss level.
pub fn level_switch(info: &mut LevelInfo, exit_door: Door, level_objects: Vec<u64>) -> (plan:
    LevelPlan)
    requires
        old(info).translation.in_world(),
        exit_door.wf(),
    ensures
        final(info).old_level_objects@ == level_objects@,
        final(info).finished == old(info).finished,
        final(info).translation == plan.translation,
        old(info).level_type is Open ==> final(info).level_type == LevelType::Covered,
        exists|stay_covered: bool, index: usize|
            index < 5 && final(info).level_type == spec_next_level_type(
                old(info).level_type,
                stay_covered,
                spec_level_color(index),
            ),
        plan.translation@ == spec_next_translation(old(info).translation, Some(exit_door)),
        plan.spawns@ == level_spawns(&plan.grid, plan.translation, final(info).level_type),
        final(info).game_progress == spec_next_progress(old(info).game_progress),
        is_level(&plan.grid, Some(exit_door), final(info).game_progress == 100),
{
    let mut rng = thread_rng();
    let new_level_type = draw_level_type(info.level_type, &mut rng);
    let game_progress = next_progress(info.game_progress);
    let plan = spawn_level(
        info.translation,
        Some(exit_door),
        new_level_type,
        false,
        game_progress == 100,
    );
    info.game_progress = game_progress;
    info.level_type = new_level_type;
    info.translation = plan.translation;
    info.old_level_objects = level_objects;
    plan
}

/// What a finished door slide does to the entities `pending` deletion: a finished `Close`
/// destroys them all and leaves none pending, a finished `Open` destroys none. Returns what
/// stays pending and what is destroyed.
pub open spec fn spec_delete_old(pending: Seq<u64>, animation_type: DoorAnimationType) -> (
    Seq<u64>,
    Seq<u64>,
) {
    match animation_type {
        DoorAnimationType::Open => (pending, Seq::empty()),
        DoorAnimationType::Close => (Seq::empty(), pending),
    }
}

/// Reacts to a door that has finished its slide. Returns the entities to destroy now.
pub fn level_delete_old(info: &mut LevelInfo, animation_type: DoorAnimationType) -> (destroy: Vec<
    u64,
>)
    ensures
        (final(info).old_level_objects@, destroy@) == spec_delete_old(
            old(info).old_level_objects@,
            animation_type,
        ),
        final(info).finished == old(info).finished,
        final(info).level_type == old(info).level_type,
        final(info).translation == old(info).translation,
        final(info).game_progress == old(info).game_progress,
{
    let mut destroy: Vec<u64> = Vec::new();
    match animation_type {
        DoorAnimationType::Open => {},
        DoorAnimationType::Close => {
            std::mem::swap(&mut info.old_level_objects, &mut destroy);
        },
    }
    destroy
}

/// What is still pending deletion after the door slides `finished` have ended, in order.
pub open spec fn pending_after(pending: Seq<u64>, finished: Seq<DoorAnimationType>) -> Seq<u64>
    decreases finished.len(),
{
    if finished.len() == 0 {
        pending
    } else {
        pending_after(spec_delete_old(pending, finished[0]).0, finished.drop_first())
    }
}

/// What has been destroyed by the time the door slides `finished` have ended, in order.
pub open spec fn destroyed_by(pending: Seq<u64>, finished: Seq<DoorAnimationType>) -> Seq<u64>
    decreases finished.len(),
{
    if finished.len() == 0 {
        Seq::empty()
    } else {
        spec_delete_old(pending, finished[0]).1 + destroyed_by(
            spec_delete_old(pending, finished[0]).0,
            finished.drop_first(),
        )
    }
}

/// Two-phase deletion: the entities that a level switch has left `pending` all stay, and
/// none is destroyed, as long as no door has finished closing. Once a door has finished
/// closing, all of them are destroyed and none stays pending.
pub proof fn lemma_two_phase_deletion(pending: Seq<u64>, finished: Seq<DoorAnimationType>)
    ensures
        (forall|i: int| 0 <= i < finished.len() ==> finished[i] == DoorAnimationType::Open) ==> {
            &&& pending_after(pending, finished) == pending
            &&& destroyed_by(pending, finished) == Seq::<u64>::empty()
        },
        (exists|i: int| 0 <= i < finished.len() && finished[i] == DoorAnimationType::Close) ==> {
            &&& pending_after(pending, finished) == Seq::<u64>::empty()
            &&& destroyed_by(pending, finished) == pending
        },
    decreases finished.len(),
{
    if finished.len() > 0 {
        let rest = finished.drop_first();
        let after = spec_delete_old(pending, finished[0]).0;
        lemma_two_phase_deletion(after, rest);
        assert forall|i: int| 0 <= i < rest.len() implies rest[i] == finished[i + 1] by {}
        if finished[0] == DoorAnimationType::Close {
            assert(after == Seq::<u64>::empty());
            if exists|i: int| 0 <= i < rest.len() && rest[i] == DoorAnimationType::Close {
                assert(destroyed_by(after, rest) == after);
            } else {
                assert(destroyed_by(after, rest) == Seq::<u64>::empty());
            }
            assert(destroyed_by(pending, finished) =~= pending);
        } else {
            assert(after == pending);
            if exists|i: int| 0 <= i < finished.len() && finished[i] == DoorAnimationType::Close {
                let i = choose|i: int|
                    0 <= i < finished.len() && finished[i] == DoorAnimationType::Close;
                assert(rest[i - 1] == DoorAnimationType::Close);
            }
            assert(destroyed_by(pending, finished) =~= destroyed_by(after, rest));
        }
    }
}

} // verus!
