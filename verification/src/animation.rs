//! Frame stepping of sprite animations.
//!
//! The animation system accumulates time per animation; when the time spent
//! on the current frame reaches that frame's duration, the animation steps
//! to its next frame, as computed here.
use vstd::prelude::*;

verus! {

/// Where an animation stands after a frame step.
#[derive(Debug, Clone, Copy, PartialEq, Eq, Structural)]
pub struct FrameStep {
    /// The frame now shown.
    pub frame: usize,
    /// Whether the animation keeps playing.
    pub playing: bool,
}

/// The frame after `current` in an animation of `count` frames: the next one,
/// or after the last frame the first again (looping) or the last one, stopped.
pub open spec fn spec_next_frame(current: nat, count: nat, looping: bool) -> (nat, bool) {
    if current + 1 < count {
        ((current + 1) as nat, true)
    } else if looping {
        (0, true)
    } else {
        ((count - 1) as nat, false)
    }
}

/// The frame reached from `start` after `steps` steps of a looping animation.
pub open spec fn frame_after_steps(start: nat, count: nat, steps: nat) -> nat
    decreases steps,
{
    if steps == 0 {
        start
    } else {
        spec_next_frame(frame_after_steps(start, count, (steps - 1) as nat), count, true).0
    }
}

/// Step an animation of `frame_count` frames past its current frame.
pub fn advance_frame(current_frame: usize, frame_count: usize, looping: bool) -> (s: FrameStep)
    requires
        current_frame < frame_count,
    ensures
        (s.frame as nat, s.playing) == spec_next_frame(current_frame as nat, frame_count as nat, looping),
        s.frame < frame_count,
{
    let next = current_frame + 1;
    if next >= frame_count {
        if looping {
            FrameStep { frame: 0, playing: true }
        } else {
            FrameStep { frame: frame_count - 1, playing: false }
        }
    } else {
        FrameStep { frame: next, playing: true }
    }
}

/// A looping animation started at its first frame shows, after `k` steps,
/// frame `k mod count`: it cycles through every frame in order, forever.
pub proof fn law_looping_cycles(count: nat, k: nat)
    requires
        count > 0,
    ensures
        frame_after_steps(0, count, k) == k % count,
    decreases k,
{
    if k == 0 {
        vstd::arithmetic::div_mod::lemma_small_mod(0, count);
    } else {
        let p = (k - 1) as nat;
        law_looping_cycles(count, p);
        vstd::arithmetic::div_mod::lemma_fundamental_div_mod(p as int, count as int);
        if p % count + 1 < count {
            vstd::arithmetic::div_mod::lemma_small_mod(1, count);
            vstd::arithmetic::div_mod::lemma_mod_adds(p as int, 1, count as int);
        } else {
            let q = p / count;
            let r = p % count;
            assert(r == count - 1);
            assert(k == (q + 1) * count) by (nonlinear_arith)
                requires p == count * q + r, r == count - 1, k == p + 1;
            vstd::arithmetic::div_mod::lemma_mod_multiples_basic((q + 1) as int, count as int);
        }
    }
}

/// A step shows the next frame and keeps playing while there is a next
/// frame, looping or not; past the last frame a looping animation starts
/// over at the first frame and a non-looping one stays on the last, stopped.
pub proof fn law_step(current: nat, count: nat, looping: bool)
    requires
        current < count,
    ensures
        current + 1 < count ==> spec_next_frame(current, count, looping) == ((current + 1) as nat, true),
        current + 1 == count && looping ==> spec_next_frame(current, count, looping) == (0nat, true),
        current + 1 == count && !looping ==> spec_next_frame(current, count, looping) == (current, false),
        spec_next_frame(current, count, looping).0 < count,
        !spec_next_frame(current, count, looping).1 <==> (!looping && current + 1 == count),
{
}

/// A non-looping animation that reached its last frame stays there, stopped.
pub proof fn law_last_frame_holds(count: nat)
    requires
        count > 0,
    ensures
        spec_next_frame((count - 1) as nat, count, false) == ((count - 1) as nat, false),
{
}

} // verus!
