//! A level: its objects, in the order they were declared, and a camera.

use vstd::prelude::*;
use crate::geometry::{clamp, div_trunc, quotient, sat_add, saturate, Vec2};
use crate::interpretor::{interpretation, lemma_run_wf, start, Interpretor, InterpretorError};
use crate::tokenizer::{lemma_lexed_kinds_wf, lex, Tokenizer, TokenizerError};
use crate::object::{
    collided,
    collision_cues,
    midpoint,
    step_cues,
    stepped,
    Object,
    ObjectView,
    SoundCue,
};

verus! {

/// A loaded level.
#[derive(Debug)]
pub struct World {
    pub objects: Vec<Object>,
    /// Point the camera looks at, in sub-pixels.
    pub camera: Vec2,
    /// Whether a player was alive after the last tick.
    pub playing: bool,
}

/// The value of a [`World`].
pub struct WorldView {
    pub objects: Seq<ObjectView>,
    pub camera: Vec2,
    pub playing: bool,
}

/// The values of a sequence of objects.
pub open spec fn object_views(os: Seq<Object>) -> Seq<ObjectView> {
    os.map_values(|o: Object| o@)
}

impl View for World {
    type V = WorldView;

    open spec fn view(&self) -> WorldView {
        WorldView { objects: object_views(self.objects@), camera: self.camera, playing: self.playing }
    }
}

impl World {
    /// An empty level, with the camera at the origin.
    pub fn new() -> (r: World)
        ensures
            r@.objects == Seq::<ObjectView>::empty(),
            r.camera == Vec2::zero_spec(),
            r.playing,
    {
        let r = World { objects: Vec::new(), camera: Vec2::zero(), playing: true };
        assert(r@.objects =~= Seq::<ObjectView>::empty());
        r
    }

    pub fn is_playing(&self) -> (r: bool)
        ensures
            r == self.playing,
    {
        self.playing
    }

    /// Appends an object after those already there.
    pub fn add_object(&mut self, o: Object)
        ensures
            final(self)@ == (WorldView { objects: old(self)@.objects.push(o@), ..old(self)@ }),
    {
        self.objects.push(o);
        assert(self@.objects =~= old(self)@.objects.push(o@));
    }
}

/// `o` after responding, in order, to each of `others`.
pub open spec fn collide_all(o: ObjectView, others: Seq<ObjectView>) -> ObjectView
    decreases others.len(),
{
    if others.len() == 0 {
        o
    } else {
        collided(collide_all(o, others.drop_last()), others.last())
    }
}

/// The sounds of `o` responding, in order, to each of `others`.
pub open spec fn collide_all_cues(o: ObjectView, others: Seq<ObjectView>) -> Seq<SoundCue>
    decreases others.len(),
{
    if others.len() == 0 {
        Seq::empty()
    } else {
        collide_all_cues(o, others.drop_last()) + collision_cues(
            collide_all(o, others.drop_last()),
            others.last(),
        )
    }
}

/// Where the camera heads for: `lead` sub-pixels ahead of the player's middle.
pub open spec fn camera_goal(p: ObjectView, lead: i64) -> Vec2 {
    Vec2 { x: clamp(midpoint(p).x + lead) as i64, y: midpoint(p).y }
}

/// A tenth of the way from `c` to `g`.
pub open spec fn eased(c: Vec2, g: Vec2) -> Vec2 {
    Vec2 {
        x: clamp(c.x + div_trunc(g.x - c.x, 10)) as i64,
        y: clamp(c.y + div_trunc(g.y - c.y, 10)) as i64,
    }
}

/// The level after the turn of its object `k`.
///
/// In its turn an object responds to every object after it, in order, then
/// advances by one tick. After a player's turn the camera eases toward it,
/// and the level is still being played if the player is alive.
pub open spec fn turn(p: WorldView, k: int, jump: bool, lead: i64) -> WorldView {
    let moved = stepped(collide_all(p.objects[k], p.objects.skip(k + 1)), jump);
    let objects = p.objects.update(k, moved);
    if moved.kind is Player {
        WorldView {
            objects,
            camera: eased(p.camera, camera_goal(moved, lead)),
            playing: p.playing || moved.alive,
        }
    } else {
        WorldView { objects, ..p }
    }
}

/// The sounds of the turn of object `k`.
pub open spec fn turn_sounds(p: WorldView, k: int, jump: bool) -> Seq<SoundCue> {
    collide_all_cues(p.objects[k], p.objects.skip(k + 1)) + step_cues(
        collide_all(p.objects[k], p.objects.skip(k + 1)),
        jump,
    )
}

/// The level after the first `n` objects have had their turn in a tick.
pub open spec fn turns(w: WorldView, jump: bool, lead: i64, n: nat) -> WorldView
    decreases n,
{
    if n == 0 {
        WorldView { playing: false, ..w }
    } else {
        turn(turns(w, jump, lead, (n - 1) as nat), n - 1, jump, lead)
    }
}

/// The sounds of the first `n` turns of a tick.
pub open spec fn turn_cues(w: WorldView, jump: bool, lead: i64, n: nat) -> Seq<SoundCue>
    decreases n,
{
    if n == 0 {
        Seq::empty()
    } else {
        turn_cues(w, jump, lead, (n - 1) as nat) + turn_sounds(
            turns(w, jump, lead, (n - 1) as nat),
            n - 1,
            jump,
        )
    }
}

/// The level after one tick: every object has had its turn, in order.
pub open spec fn ticked(w: WorldView, jump: bool, lead: i64) -> WorldView {
    turns(w, jump, lead, w.objects.len())
}

/// The sounds of one tick, in order.
pub open spec fn tick_cues(w: WorldView, jump: bool, lead: i64) -> Seq<SoundCue> {
    turn_cues(w, jump, lead, w.objects.len())
}

/// Responding to other objects changes neither an object's kind nor its trail.
proof fn lemma_collide_all_keeps(o: ObjectView, others: Seq<ObjectView>)
    ensures
        collide_all(o, others).kind == o.kind,
        collide_all(o, others).trail == o.trail,
    decreases others.len(),
{
    if others.len() > 0 {
        lemma_collide_all_keeps(o, others.drop_last());
    }
}

/// Replacing an object by a well-formed one of the same role keeps a level
/// playable.
proof fn lemma_playable_update(os: Seq<ObjectView>, k: int, o: ObjectView)
    requires
        playable(os),
        0 <= k < os.len(),
        o.wf(),
        o.kind is Player <==> os[k].kind is Player,
    ensures
        playable(os.update(k, o)),
{
    let ns = os.update(k, o);
    assert forall|i: int, j: int|
        0 <= i < ns.len() && 0 <= j < ns.len() && i != j && (#[trigger] ns[i]).kind is Player
            implies !((#[trigger] ns[j]).kind is Player) by {
        assert(os[i].kind is Player);
        assert(os[i].kind is Player ==> !(os[j].kind is Player));
    }
}

/// Objects that can all advance, no two of which are players.
pub open spec fn playable(os: Seq<ObjectView>) -> bool {
    &&& forall|i: int| 0 <= i < os.len() ==> (#[trigger] os[i]).wf()
    &&& forall|i: int, j: int|
        0 <= i < os.len() && 0 <= j < os.len() && i != j && (#[trigger] os[i]).kind is Player
            ==> !((#[trigger] os[j]).kind is Player)
}

/// A tenth of the way from `c` to `g`.
fn ease(c: i64, g: i64) -> (r: i64)
    ensures
        r == clamp(c + div_trunc(g - c, 10)),
{
    let q = quotient(g as i128 - c as i128, 10);
    saturate(c as i128 + q)
}

impl World {
    /// Whether [`World::update`] can run: no two players, and every player's
    /// clips can advance with a trail within its length.
    pub fn is_playable(&self) -> (r: bool)
        ensures
            r == playable(self@.objects),
    {
        let n = self.objects.len();
        let mut players: usize = 0;
        let mut i: usize = 0;
        let ghost os = self@.objects;
        while i < n
            invariant
                n == self.objects@.len(),
                os == self@.objects,
                i <= n,
                forall|k: int| 0 <= k < i ==> (#[trigger] os[k]).wf(),
                players <= 1,
                players == 0 ==> forall|k: int| 0 <= k < i ==> !((#[trigger] os[k]).kind is Player),
                players == 1 ==> exists|k: int| 0 <= k < i && (#[trigger] os[k]).kind is Player,
                players == 1 ==> forall|k: int, l: int|
                    0 <= k < i && 0 <= l < i && k != l && (#[trigger] os[k]).kind is Player
                        ==> !((#[trigger] os[l]).kind is Player),
            decreases n - i,
        {
            let o = &self.objects[i];
            assert(os[i as int] == o@);
            if !self.objects[i].is_well_formed() {
                return false;
            }
            if o.is_player() {
                if players == 1 {
                    return false;
                }
                players = 1;
            }
            i = i + 1;
        }
        true
    }

    /// The turn of object `i` in a tick. Returns its sounds, in order.
    fn take_turn(&mut self, i: usize, jump: bool, lead: i64) -> (cues: Vec<SoundCue>)
        requires
            i < old(self)@.objects.len(),
            playable(old(self)@.objects),
        ensures
            final(self)@ == turn(old(self)@, i as int, jump, lead),
            cues@ == turn_sounds(old(self)@, i as int, jump),
            playable(final(self)@.objects),
            final(self).objects@.len() == old(self).objects@.len(),
    {
        let ghost p = self@;
        let n = self.objects.len();
        let mut cues: Vec<SoundCue> = Vec::new();
        let mut current = Object::new();
        self.objects.set_and_swap(i, &mut current);
        assert(current@ == p.objects[i as int]);
        assert(self@.objects =~= p.objects.update(i as int, Object::new_spec()));
        let mut j: usize = i + 1;
        assert(p.objects.subrange(i + 1, i + 1) =~= Seq::<ObjectView>::empty());
        proof {
            lemma_collide_all_keeps(p.objects[i as int], p.objects.subrange(i + 1, i + 1));
        }
        while j < n
            invariant
                n == self.objects@.len(),
                n == p.objects.len(),
                i < j <= n,
                playable(p.objects),
                current@.kind == p.objects[i as int].kind,
                current@.trail == p.objects[i as int].trail,
                current@ == collide_all(p.objects[i as int], p.objects.subrange(i + 1, j as int)),
                cues@ == collide_all_cues(p.objects[i as int], p.objects.subrange(i + 1, j as int)),
                self@.objects == p.objects.update(i as int, Object::new_spec()),
            decreases n - j,
        {
            assert(self.objects@[j as int]@ == self@.objects[j as int]);
            assert(p.objects[i as int].kind is Player ==> !(p.objects[j as int].kind is Player));
            let mut hit = current.collide(&self.objects[j]);
            let ghost sub = p.objects.subrange(i + 1, j + 1);
            assert(sub.drop_last() =~= p.objects.subrange(i + 1, j as int));
            assert(sub.last() == p.objects[j as int]);
            proof {
                lemma_collide_all_keeps(p.objects[i as int], sub);
            }
            cues.append(&mut hit);
            j = j + 1;
        }
        assert(p.objects.subrange(i + 1, n as int) =~= p.objects.skip(i + 1));
        assert(current.wf());
        let mut stepped_cues = current.update(jump);
        cues.append(&mut stepped_cues);
        if current.is_player() {
            let mid = current.midpoint_of();
            let goal = Vec2::new(sat_add(mid.x, lead), mid.y);
            self.camera = Vec2::new(ease(self.camera.x, goal.x), ease(self.camera.y, goal.y));
            if current.is_alive() {
                self.playing = true;
            }
        }
        proof {
            lemma_playable_update(p.objects, i as int, current@);
        }
        self.objects.set(i, current);
        assert(self@.objects =~= p.objects.update(i as int, current@));
        cues
    }

    /// Advances the level by one tick; `jump` tells whether the jump input is
    /// held and `lead` how far ahead of the player the camera aims, in
    /// sub-pixels. Returns the sounds to play, in order.
    pub fn update(&mut self, jump: bool, lead: i64) -> (cues: Vec<SoundCue>)
        requires
            playable(old(self)@.objects),
        ensures
            final(self)@ == ticked(old(self)@, jump, lead),
            cues@ == tick_cues(old(self)@, jump, lead),
            playable(final(self)@.objects),
    {
        let ghost w0 = self@;
        self.playing = false;
        let mut cues: Vec<SoundCue> = Vec::new();
        let n = self.objects.len();
        let mut i: usize = 0;
        assert(self@ == turns(w0, jump, lead, 0));
        while i < n
            invariant
                n == self.objects@.len(),
                n == w0.objects.len(),
                i <= n,
                self@ == turns(w0, jump, lead, i as nat),
                cues@ == turn_cues(w0, jump, lead, i as nat),
                playable(self@.objects),
            decreases n - i,
        {
            let mut more = self.take_turn(i, jump, lead);
            cues.append(&mut more);
            i = i + 1;
        }
        cues
    }
}

/// Why a level text could not be loaded.
#[derive(Debug)]
pub enum LevelError {
    /// A word of the text is not a token.
    Tokenizer(TokenizerError),
    /// A token stands where the grammar does not allow it.
    Interpretor(InterpretorError),
}

impl World {
    /// The level that a level text describes: its tokens, interpreted.
    pub fn from_source(source: &str) -> (r: Result<World, LevelError>)
        ensures
            match lex(source@) {
                Err(e) => r matches Err(LevelError::Tokenizer(f)) && f@ == e,
                Ok(ts) => match interpretation(ts) {
                    Err(e) => r matches Err(LevelError::Interpretor(f)) && f@ == e,
                    Ok(objects) => r matches Ok(w) && w@ == (WorldView {
                        objects,
                        camera: Vec2::zero_spec(),
                        playing: true,
                    }),
                },
            },
            r matches Ok(w) ==> forall|i: int|
                0 <= i < w@.objects.len() ==> (#[trigger] w@.objects[i]).wf(),
    {
        proof {
            lemma_lexed_kinds_wf(source@);
            if let Ok(ts) = lex(source@) {
                lemma_run_wf(start(), ts);
            }
        }
        match Tokenizer::tokenize(source) {
            Err(e) => Err(LevelError::Tokenizer(e)),
            Ok(tokens) => match Interpretor::interpret(tokens) {
                Err(e) => Err(LevelError::Interpretor(e)),
                Ok(w) => Ok(w),
            },
        }
    }
}

} // verus!
