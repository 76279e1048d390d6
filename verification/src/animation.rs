//! The mascot's animation modes and their frames.

use vstd::prelude::*;

verus! {

/// The four animations of the mascot.
#[derive(Clone, Copy, Debug, PartialEq, Eq, Structural)]
pub enum AnimationMode {
    /// The still logo.
    Logo,
    /// The endless loop shown while files wait.
    HappyLoop,
    /// The loop shown while the worker runs.
    Peck,
    /// The animation that shows how the run ended.
    Success,
}

/// The time between two frames, in milliseconds.
pub const FRAME_INTERVAL_MS: u64 = 150;

/// How often the peck animation plays in full before the outcome is shown.
pub const PECK_LOOPS: u32 = 2;

/// Where the animation stands.
#[derive(Clone, Copy, Debug, PartialEq, Eq)]
pub struct AnimationState {
    /// The animation that plays.
    pub mode: AnimationMode,
    /// The frame that is shown.
    pub frame_index: usize,
    /// How many more times the animation plays in full.
    pub loops_left: u32,
}

/// The number of frames of each animation.
pub open spec fn frames_of(mode: AnimationMode) -> nat {
    match mode {
        AnimationMode::Logo => 1,
        AnimationMode::HappyLoop => 7,
        AnimationMode::Peck => 2,
        AnimationMode::Success => 5,
    }
}

/// The number of frames of each animation.
pub fn frame_count(mode: AnimationMode) -> (n: usize)
    ensures
        n == frames_of(mode),
{
    match mode {
        AnimationMode::Logo => 1,
        AnimationMode::HappyLoop => 7,
        AnimationMode::Peck => 2,
        AnimationMode::Success => 5,
    }
}

/// The frame that is shown for a frame index: the index itself, or the last
/// frame where the index lies beyond it.
pub open spec fn shown_frame(mode: AnimationMode, index: nat) -> nat {
    if index < frames_of(mode) {
        index
    } else {
        (frames_of(mode) - 1) as nat
    }
}

/// The name of the `n`-th success picture, counted from zero.
pub open spec fn success_picture(n: nat) -> Seq<char> {
    if n == 0 {
        "成功1"@
    } else if n == 1 {
        "成功2"@
    } else if n == 2 {
        "成功3"@
    } else if n == 3 {
        "成功4"@
    } else {
        "成功5"@
    }
}

/// The name of the picture of a frame, without directory and extension. The
/// happy loop runs through its four pictures forth and back; the success
/// animation runs through its five pictures forwards, or backwards where
/// `reverse` is set.
pub open spec fn picture_of(mode: AnimationMode, reverse: bool, frame: nat) -> Seq<char> {
    match mode {
        AnimationMode::Logo => "crackleaf"@,
        AnimationMode::HappyLoop => if frame == 0 || frame >= 6 {
            "高兴1"@
        } else if frame == 1 || frame == 5 {
            "高兴2"@
        } else if frame == 2 || frame == 4 {
            "高兴3"@
        } else {
            "高兴4"@
        },
        AnimationMode::Peck => if frame == 0 {
            "啄1"@
        } else {
            "啄2"@
        },
        AnimationMode::Success => if reverse && frame <= 4 {
            success_picture((4 - frame) as nat)
        } else {
            success_picture(frame)
        },
    }
}

fn success_asset(n: usize) -> (name: &'static str)
    ensures
        name@ == success_picture(n as nat),
{
    if n == 0 {
        "成功1"
    } else if n == 1 {
        "成功2"
    } else if n == 2 {
        "成功3"
    } else if n == 3 {
        "成功4"
    } else {
        "成功5"
    }
}

/// The name of the picture shown at `index` of an animation, without
/// directory and extension. An index beyond the last frame shows the last.
pub fn frame_asset(mode: AnimationMode, reverse: bool, index: usize) -> (name: &'static str)
    ensures
        name@ == picture_of(mode, reverse, shown_frame(mode, index as nat)),
{
    let count = frame_count(mode);
    let frame: usize = if index < count {
        index
    } else {
        count - 1
    };
    match mode {
        AnimationMode::Logo => "crackleaf",
        AnimationMode::HappyLoop => if frame == 0 || frame >= 6 {
            "高兴1"
        } else if frame == 1 || frame == 5 {
            "高兴2"
        } else if frame == 2 || frame == 4 {
            "高兴3"
        } else {
            "高兴4"
        },
        AnimationMode::Peck => if frame == 0 {
            "啄1"
        } else {
            "啄2"
        },
        AnimationMode::Success => if reverse {
            success_asset(4 - frame)
        } else {
            success_asset(frame)
        },
    }
}

} // verus!
