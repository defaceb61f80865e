//! The slide animation: what a tick does to it once its progress is known.
//!
//! An animation runs forward from its initial to its target pose, then, if it
//! is to play backward too, back again. Progress runs from 0 to 1 in either
//! direction.

use vstd::prelude::*;

verus! {

/// The direction in which an animation moves its owner during a tick.
#[derive(Debug, Clone, Copy, PartialEq, Eq, Structural)]
pub enum Playing {
    /// From the initial pose towards the target pose.
    Forward,
    /// From the target pose back towards the initial pose.
    Backward,
    /// Not at all.
    Idle,
}

/// What one tick does to an animation.
#[derive(Debug, Clone, Copy, PartialEq, Eq, Structural)]
pub struct AnimationTick {
    /// The direction played during this tick.
    pub playing: Playing,
    /// Whether the animation still has its forward run before it after this tick.
    pub animate_forward: bool,
    /// The progress starts again from 0.
    pub restart: bool,
    /// The animation is over and leaves its owner.
    pub finished: bool,
}

/// One tick of an animation. `complete` tells whether its progress, advanced by this tick,
/// has reached 1.
///
/// While the forward run lasts it is played; when it completes, the animation either turns
/// round, with its progress back at 0, or is over. Then the backward run is played, and
/// when that completes the animation is over. An animation with neither run to play idles.
pub open spec fn spec_animation_tick(animate_forward: bool, animate_backward: bool, complete: bool)
    -> AnimationTick {
    if animate_forward {
        AnimationTick {
            playing: Playing::Forward,
            animate_forward: !(complete && animate_backward),
            restart: complete && animate_backward,
            finished: complete && !animate_backward,
        }
    } else if animate_backward {
        AnimationTick {
            playing: Playing::Backward,
            animate_forward: false,
            restart: false,
            finished: complete,
        }
    } else {
        AnimationTick {
            playing: Playing::Idle,
            animate_forward: false,
            restart: false,
            finished: false,
        }
    }
}

/// Computes [`spec_animation_tick`].
pub fn animation_tick(animate_forward: bool, animate_backward: bool, complete: bool) -> (tick:
    AnimationTick)
    ensures
        tick == spec_animation_tick(animate_forward, animate_backward, complete),
{
    if animate_forward {
        if complete {
            if animate_backward {
                AnimationTick {
                    playing: Playing::Forward,
                    animate_forward: false,
                    restart: true,
                    finished: false,
                }
            } else {
                AnimationTick {
                    playing: Playing::Forward,
                    animate_forward: true,
                    restart: false,
                    finished: true,
                }
            }
        } else {
            AnimationTick {
                playing: Playing::Forward,
                animate_forward: true,
                restart: false,
                finished: false,
            }
        }
    } else if animate_backward {
        AnimationTick {
            playing: Playing::Backward,
            animate_forward: false,
            restart: false,
            finished: complete,
        }
    } else {
        AnimationTick { playing: Playing::Idle, animate_forward: false, restart: false, finished: false }
    }
}

} // verus!
