//! Frame counters of sprite-sheet animations.
//!
//! An animation is one row of a sprite sheet; the host draws the frame that
//! [`Animation::current_frame`] names from the row that [`Animation::id`] names.

use vstd::prelude::*;

verus! {

/// Playback state of one animation clip.
#[derive(Clone, Copy, Debug, PartialEq, Eq, Structural)]
pub struct Animation {
    /// Row of the clip in its sprite sheet.
    pub id: u32,
    /// Number of frames in the clip.
    pub length: u32,
    /// Number of extra ticks each frame is held for.
    pub sustain: u32,
    /// Whether the clip starts over after its last frame.
    pub looped: bool,
    /// Ticks left before the next frame.
    pub sustain_countdown: u32,
    /// Frame shown now, counted from zero.
    pub current_frame: u32,
}

impl Animation {
    /// A clip can advance when it has at least one frame and shows one of them.
    pub open spec fn wf(&self) -> bool {
        self.length > 0 && self.current_frame < self.length
    }

    /// The clip after one tick.
    pub open spec fn ticked(self) -> Animation {
        if self.sustain_countdown == 0 {
            let next = self.current_frame + 1;
            let frame = if self.looped {
                next % (self.length as int)
            } else if next >= self.length {
                self.length - 1
            } else {
                next
            };
            Animation { current_frame: frame as u32, sustain_countdown: self.sustain, ..self }
        } else {
            Animation { sustain_countdown: (self.sustain_countdown - 1) as u32, ..self }
        }
    }

    /// A clip at its first frame, which will advance after one tick.
    pub fn new(id: u32, length: u32, sustain: u32, looped: bool) -> (r: Animation)
        ensures
            r == (Animation {
                id,
                length,
                sustain,
                looped,
                sustain_countdown: 1,
                current_frame: 0,
            }),
            length > 0 ==> r.wf(),
    {
        Animation { id, length, sustain, looped, sustain_countdown: 1, current_frame: 0 }
    }

    /// Goes back to the first frame.
    pub fn rewind(&mut self)
        ensures
            *final(self) == (Animation { current_frame: 0, ..*old(self) }),
    {
        self.current_frame = 0;
    }

    /// Advances by one tick: the frame changes once the current one has been
    /// held for `sustain` extra ticks; a looped clip then wraps to its first
    /// frame, another one stays on its last.
    pub fn update(&mut self)
        requires
            old(self).wf(),
        ensures
            *final(self) == old(self).ticked(),
            final(self).wf(),
    {
        if self.sustain_countdown == 0 {
            let next: u32 = self.current_frame + 1;
            if self.looped {
                self.current_frame = next % self.length;
            } else if next >= self.length {
                self.current_frame = self.length - 1;
            } else {
                self.current_frame = next;
            }
            self.sustain_countdown = self.sustain;
        } else {
            self.sustain_countdown = self.sustain_countdown - 1;
        }
    }

    pub fn id(&self) -> (r: u32)
        ensures
            r == self.id,
    {
        self.id
    }

    pub fn current_frame(&self) -> (r: u32)
        ensures
            r == self.current_frame,
    {
        self.current_frame
    }
}

} // verus!
