//! The state behind the status dot's color transitions and the unified dot
//! (custom-color ring around the status fill), and the reduce-motion
//! switch.
//!
//! A dot remembers the color it last showed, the color it came from, and a
//! generation that moves on with every change of color: a renderer keys its
//! crossfade on the generation, so a new change restarts the fade.
use vstd::prelude::*;
use vstd::string::*;
use crate::text::str_is;

verus! {

/// What a status dot last showed, where it came from, and how many color
/// changes it has seen (wrapping).
#[derive(Debug, Clone, Copy, PartialEq, Eq, Default, Structural)]
pub struct DotAnimState {
    pub shown: Option<u32>,
    pub from: Option<u32>,
    pub generation: u64,
}

/// The frame to draw: fade from `from` to `to`, keyed by `generation`.
#[derive(Debug, Clone, Copy, PartialEq, Eq, Structural)]
pub struct DotFrame {
    pub from: Option<u32>,
    pub to: Option<u32>,
    pub generation: u64,
}

/// The generation after a color change.
pub open spec fn next_generation(g: u64) -> u64 {
    if g == u64::MAX {
        0
    } else {
        (g + 1) as u64
    }
}

/// Shows `target` on the dot: when it differs from what the dot showed,
/// records the transition (the old color becomes `from`, the generation
/// moves on); then returns the frame to draw.
pub fn advance_dot(anim: &mut DotAnimState, target: Option<u32>) -> (r: DotFrame)
    ensures
        *final(anim) == advanced(*old(anim), target),
        r == (DotFrame { from: final(anim).from, to: final(anim).shown, generation: final(anim).generation }),
{
    if anim.shown != target {
        let g = if anim.generation == u64::MAX {
            0
        } else {
            anim.generation + 1
        };
        *anim = DotAnimState { shown: target, from: anim.shown, generation: g };
    }
    DotFrame { from: anim.from, to: anim.shown, generation: anim.generation }
}

/// The dot state after showing `target`.
pub open spec fn advanced(s: DotAnimState, target: Option<u32>) -> DotAnimState {
    if s.shown != target {
        DotAnimState { shown: target, from: s.shown, generation: next_generation(s.generation) }
    } else {
        s
    }
}

/// The dot shows what was asked; a change of color moves the generation
/// on and remembers the old color; showing the same color again changes
/// nothing.
pub proof fn law_dot_transitions(s: DotAnimState, target: Option<u32>)
    ensures
        advanced(s, target).shown == target,
        s.shown != target ==> advanced(s, target).generation != s.generation && advanced(s, target).from == s.shown,
        advanced(advanced(s, target), target) == advanced(s, target),
{
}

/// How the unified dot is drawn: a ring in the custom color (none without
/// one) around a fill in the status color.
#[derive(Debug, Clone, Copy, PartialEq, Eq, Structural)]
pub struct UnifiedDotParams {
    pub ring_color: Option<u32>,
    pub fill_target: Option<u32>,
}

/// The unified dot for a status color and a custom color: the ring always
/// takes the custom color, the fill always the status color.
pub fn unified_dot_params(status_color: Option<u32>, custom_color: Option<u32>) -> (r: UnifiedDotParams)
    ensures
        r.ring_color == custom_color,
        r.fill_target == status_color,
{
    UnifiedDotParams { ring_color: custom_color, fill_target: status_color }
}

/// Whether the reduce-motion switch is on for a value of its environment
/// variable: only the exact text `1` turns it on.
pub fn reduce_motion_from(value: Option<String>) -> (r: bool)
    ensures
        r == (match value {
            Some(v) => v@ == "1"@,
            None => false,
        }),
{
    match value {
        Some(v) => str_is(v.as_str(), "1"),
        None => false,
    }
}

} // verus!
