//! A level being played, which the player can pause.

use vstd::prelude::*;
use crate::object::SoundCue;
use crate::world::{playable, tick_cues, ticked, World};

verus! {

/// A level being played.
#[derive(Debug)]
pub struct Game {
    pub world: World,
    pub paused: bool,
    /// Name of the level file, to load it again.
    pub loaded: String,
}

impl Game {
    /// Starts playing `world`, loaded from the level file `to_load`.
    pub fn new(world: World, to_load: String) -> (r: Game)
        ensures
            r.world == world,
            !r.paused,
            r.loaded == to_load,
    {
        Game { world, paused: false, loaded: to_load }
    }

    /// The level is over once no player is alive.
    pub fn is_finished(&self) -> (r: bool)
        ensures
            r == !self.world.playing,
    {
        !self.world.is_playing()
    }

    /// One frame: the level advances by one tick unless paused; then the
    /// pause key, when pressed, toggles the pause. Returns the sounds of the
    /// tick.
    pub fn update(&mut self, jump: bool, lead: i64, pause_pressed: bool) -> (cues: Vec<SoundCue>)
        requires
            playable(old(self).world@.objects),
        ensures
            old(self).paused ==> final(self).world@ == old(self).world@ && cues@.len() == 0,
            !old(self).paused ==> final(self).world@ == ticked(old(self).world@, jump, lead)
                && cues@ == tick_cues(old(self).world@, jump, lead),
            final(self).paused == (old(self).paused != pause_pressed),
            final(self).loaded == old(self).loaded,
            playable(final(self).world@.objects),
    {
        let cues = if !self.paused {
            self.world.update(jump, lead)
        } else {
            Vec::new()
        };
        if pause_pressed {
            self.paused = !self.paused;
        }
        cues
    }
}

} // verus!
