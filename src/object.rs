//! Game objects: their kinds, per-tick physics and pairwise collision response.

use vstd::prelude::*;
use crate::animation::Animation;
use crate::geometry::{clamp, div_trunc, quotient, sat_add, saturate, Vec2, SUBPIXELS};
use crate::text::{chars_of, same_chars};

verus! {

/// What a player is doing, which picks the clip that is shown.
#[derive(Clone, Copy, Debug, PartialEq, Eq, Structural)]
pub enum PlayerState {
    Running,
    Jumping,
    Dying,
}

/// The closed set of object kinds. A player carries its three clips.
#[derive(Clone, Copy, Debug, PartialEq, Eq, Structural)]
pub enum ObjectKind {
    Player { state: PlayerState, run: Animation, jump: Animation, die: Animation },
    Wall,
    Spike,
}

/// The player kind as it is created: airborne, with every clip at its start.
pub open spec fn player_kind() -> ObjectKind {
    ObjectKind::Player {
        state: PlayerState::Jumping,
        run: Animation {
            id: 0,
            length: 6,
            sustain: 3,
            looped: true,
            sustain_countdown: 1,
            current_frame: 0,
        },
        jump: Animation {
            id: 1,
            length: 3,
            sustain: 6,
            looped: false,
            sustain_countdown: 1,
            current_frame: 0,
        },
        die: Animation {
            id: 2,
            length: 5,
            sustain: 6,
            looped: false,
            sustain_countdown: 1,
            current_frame: 0,
        },
    }
}

/// The kind that a name in a level file stands for: `Spike`, `Player`, and a
/// wall for anything else.
pub open spec fn kind_named(name: Seq<char>) -> ObjectKind {
    if name == seq!['S', 'p', 'i', 'k', 'e'] {
        ObjectKind::Spike
    } else if name == seq!['P', 'l', 'a', 'y', 'e', 'r'] {
        player_kind()
    } else {
        ObjectKind::Wall
    }
}

impl ObjectKind {
    pub open spec fn is_player(self) -> bool {
        self is Player
    }

    /// A fresh player: airborne, with its run, jump and die clips at their start.
    pub fn player() -> (r: ObjectKind)
        ensures
            r == player_kind(),
    {
        ObjectKind::Player {
            state: PlayerState::Jumping,
            run: Animation::new(0, 6, 3, true),
            jump: Animation::new(1, 3, 6, false),
            die: Animation::new(2, 5, 6, false),
        }
    }

    /// The kind named `name`.
    pub fn from(name: &str) -> (r: ObjectKind)
        ensures
            r == kind_named(name@),
    {
        let w = chars_of(name);
        if same_chars(&w, &vec!['S', 'p', 'i', 'k', 'e']) {
            ObjectKind::Spike
        } else if same_chars(&w, &vec!['P', 'l', 'a', 'y', 'e', 'r']) {
            ObjectKind::player()
        } else {
            ObjectKind::Wall
        }
    }
}

/// Length of the trail: the number of past midpoints an object remembers.
pub const TRAIL_LENGTH: usize = 30;

/// Side of an object as it is created, in sub-pixels (thirty pixels).
pub const DEFAULT_SIZE: i64 = 30000;

/// An object of a level.
///
/// `position` is the top-left corner and `size` the extent of its box, both
/// in sub-pixels; `speed` is the displacement of one tick. `rotation` is in
/// milliradians. `trail` holds the most recent midpoints, oldest first.
#[derive(Debug)]
pub struct Object {
    pub position: Vec2,
    pub size: Vec2,
    pub speed: Vec2,
    pub kind: ObjectKind,
    pub is_on_ground: bool,
    pub alive: bool,
    pub rotation: i64,
    pub trail: Vec<Vec2>,
}

/// The value of an [`Object`], with its trail as a sequence.
pub struct ObjectView {
    pub position: Vec2,
    pub size: Vec2,
    pub speed: Vec2,
    pub kind: ObjectKind,
    pub is_on_ground: bool,
    pub alive: bool,
    pub rotation: i64,
    pub trail: Seq<Vec2>,
}

impl View for Object {
    type V = ObjectView;

    open spec fn view(&self) -> ObjectView {
        ObjectView {
            position: self.position,
            size: self.size,
            speed: self.speed,
            kind: self.kind,
            is_on_ground: self.is_on_ground,
            alive: self.alive,
            rotation: self.rotation,
            trail: self.trail@,
        }
    }
}

/// An object as it is created: a living thirty-pixel wall at the origin,
/// at rest, with no trail.
pub open spec fn blank() -> ObjectView {
    ObjectView {
        position: Vec2 { x: 0, y: 0 },
        size: Vec2 { x: DEFAULT_SIZE, y: DEFAULT_SIZE },
        speed: Vec2 { x: 0, y: 0 },
        kind: ObjectKind::Wall,
        is_on_ground: false,
        alive: true,
        rotation: 0,
        trail: Seq::empty(),
    }
}

/// A fresh object of kind `k`.
pub open spec fn fresh(k: ObjectKind) -> ObjectView {
    ObjectView { kind: k, ..blank() }
}

impl Object {
    pub open spec fn new_spec() -> ObjectView {
        blank()
    }

    /// A living thirty-pixel wall at the origin, at rest.
    pub fn new() -> (r: Object)
        ensures
            r@ == blank(),
    {
        let r = Object {
            position: Vec2::zero(),
            size: Vec2::new(DEFAULT_SIZE, DEFAULT_SIZE),
            speed: Vec2::zero(),
            kind: ObjectKind::Wall,
            is_on_ground: false,
            alive: true,
            rotation: 0,
            trail: Vec::new(),
        };
        assert(r@.trail =~= Seq::<Vec2>::empty());
        r
    }

    /// A fresh object of kind `k`.
    pub fn from_kind(k: ObjectKind) -> (r: Object)
        ensures
            r@ == fresh(k),
    {
        Object::new().kind(k)
    }

    pub fn position(self, x: Vec2) -> (r: Object)
        ensures
            r@ == (ObjectView { position: x, ..self@ }),
    {
        Object { position: x, ..self }
    }

    pub fn size(self, x: Vec2) -> (r: Object)
        ensures
            r@ == (ObjectView { size: x, ..self@ }),
    {
        Object { size: x, ..self }
    }

    pub fn speed(self, x: Vec2) -> (r: Object)
        ensures
            r@ == (ObjectView { speed: x, ..self@ }),
    {
        Object { speed: x, ..self }
    }

    pub fn kind(self, x: ObjectKind) -> (r: Object)
        ensures
            r@ == (ObjectView { kind: x, ..self@ }),
    {
        Object { kind: x, ..self }
    }

    pub fn is_alive(&self) -> (r: bool)
        ensures
            r == self.alive,
    {
        self.alive
    }

    pub fn is_player(&self) -> (r: bool)
        ensures
            r == self.kind.is_player(),
    {
        match self.kind {
            ObjectKind::Player { .. } => true,
            _ => false,
        }
    }
}

impl From<ObjectKind> for Object {
    fn from(k: ObjectKind) -> (r: Object) {
        Object::from_kind(k)
    }
}

impl vstd::std_specs::convert::FromSpecImpl<ObjectKind> for Object {
    open spec fn obeys_from_spec() -> bool {
        false
    }

    open spec fn from_spec(k: ObjectKind) -> Object {
        arbitrary()
    }
}

// ---------------------------------------------------------------------------
// Sounds

/// The three behaviours of a player, each with its clip and its sound.
#[derive(Clone, Copy, Debug, PartialEq, Eq, Structural)]
pub enum Action {
    Run,
    Jump,
    Die,
}

/// A request to the host's audio.
#[derive(Clone, Copy, Debug, PartialEq, Eq, Structural)]
pub enum SoundCue {
    /// Play the sound of the action once.
    PlayOnce(Action),
    /// Stop the sound of the action.
    Stop(Action),
}

// ---------------------------------------------------------------------------
// Physics

/// Speed gained downward in one tick, in sub-pixels per tick.
pub const GRAVITY: i64 = 1000;

/// Turn of an airborne player in one tick, in milliradians.
pub const SPIN: i64 = 200;

/// A kind whose clips can advance.
pub open spec fn kind_wf(k: ObjectKind) -> bool {
    match k {
        ObjectKind::Player { run, jump, die, .. } => run.wf() && jump.wf() && die.wf(),
        _ => true,
    }
}

impl ObjectView {
    /// Clips that can advance and a trail within its length.
    pub open spec fn wf(self) -> bool {
        kind_wf(self.kind) && self.trail.len() <= TRAIL_LENGTH
    }
}

/// The middle of the object's box.
pub open spec fn midpoint(o: ObjectView) -> Vec2 {
    Vec2 {
        x: clamp(o.position.x + div_trunc(o.size.x as int, 2)) as i64,
        y: clamp(o.position.y + div_trunc(o.size.y as int, 2)) as i64,
    }
}

/// `t` with `p` appended and, past the trail length, its oldest point dropped.
pub open spec fn pushed_trail(t: Seq<Vec2>, p: Vec2) -> Seq<Vec2> {
    let n = t.push(p);
    if n.len() > TRAIL_LENGTH {
        n.skip(1)
    } else {
        n
    }
}

/// Horizontal speed of a dying player after one tick: 95 hundredths of it.
pub open spec fn damped(vx: i64) -> i64 {
    div_trunc(vx * 95, 100) as i64
}

/// Vertical speed that a jump gives: the parabola under one unit of gravity
/// that passes through the point two widths ahead and one height above.
/// With horizontal speed `vx` and size `w` by `h`, in pixels this is
/// `-vx * h / (2 * w) - w / vx - 1/2`; each quotient rounds toward zero.
pub open spec fn jump_speed(vx: i64, size: Vec2) -> i64 {
    clamp(
        -div_trunc(vx * size.y, 2 * size.x) - div_trunc(SUBPIXELS * size.x, vx as int) - SUBPIXELS
            / 2,
    ) as i64
}

/// Whether a jump is taken: it is asked for, the player stands on the
/// ground, and the arc is defined (the player moves sideways and has a width).
pub open spec fn leaps(o: ObjectView, jump: bool) -> bool {
    jump && o.alive && o.is_on_ground && o.speed.x != 0 && o.size.x != 0
}

/// The object after one tick, given whether the jump input is held.
///
/// Every object records its midpoint in its trail and moves by its speed.
/// A player also advances the clip of its state. Alive, it falls under
/// gravity or, on the ground, may jump; it runs when on the ground and jumps
/// otherwise. Dead, it keeps falling, slows down sideways and is dying. It
/// spins while airborne and stands upright on the ground, and it is no
/// longer on the ground until a collision says so again.
pub open spec fn stepped(o: ObjectView, jump: bool) -> ObjectView {
    let moved = ObjectView {
        trail: pushed_trail(o.trail, midpoint(o)),
        position: o.position.spec_plus(o.speed),
        ..o
    };
    match o.kind {
        ObjectKind::Player { state, run, jump: leap, die } => {
            let run_next = if state == PlayerState::Running {
                run.ticked()
            } else {
                run
            };
            let jump_ticked = if state == PlayerState::Jumping {
                leap.ticked()
            } else {
                leap
            };
            let die_next = if state == PlayerState::Dying {
                die.ticked()
            } else {
                die
            };
            let fall = clamp(o.speed.y + GRAVITY) as i64;
            let speed = if !o.alive {
                Vec2 { x: damped(o.speed.x), y: fall }
            } else if leaps(o, jump) {
                Vec2 { x: o.speed.x, y: jump_speed(o.speed.x, o.size) }
            } else {
                Vec2 { x: o.speed.x, y: fall }
            };
            let state_next = if !o.alive {
                PlayerState::Dying
            } else if o.is_on_ground {
                PlayerState::Running
            } else {
                PlayerState::Jumping
            };
            let jump_next = if o.alive && o.is_on_ground {
                Animation { current_frame: 0, ..jump_ticked }
            } else {
                jump_ticked
            };
            ObjectView {
                speed,
                kind: ObjectKind::Player { state: state_next, run: run_next, jump: jump_next, die: die_next },
                rotation: if o.is_on_ground {
                    0
                } else {
                    clamp(o.rotation + SPIN) as i64
                },
                is_on_ground: false,
                ..moved
            }
        },
        _ => moved,
    }
}

/// The sounds of one tick: the jump sound when a jump is taken.
pub open spec fn step_cues(o: ObjectView, jump: bool) -> Seq<SoundCue> {
    if o.kind is Player && leaps(o, jump) {
        seq![SoundCue::PlayOnce(Action::Jump)]
    } else {
        Seq::empty()
    }
}

/// The object after a lethal hit: the first one stops it and kills it, any
/// later one changes nothing.
pub open spec fn died(o: ObjectView) -> ObjectView {
    if o.alive {
        ObjectView { alive: false, speed: Vec2 { x: 0, y: 0 }, ..o }
    } else {
        o
    }
}

/// The sounds of a lethal hit: on the first one a player stops running and
/// plays its death sound.
pub open spec fn death_cues(o: ObjectView) -> Seq<SoundCue> {
    if o.alive && o.kind is Player {
        seq![SoundCue::Stop(Action::Run), SoundCue::PlayOnce(Action::Die)]
    } else {
        Seq::empty()
    }
}

/// Whether the box of `o`, moved by its speed, overlaps the box of `other`.
pub open spec fn overlaps(o: ObjectView, other: ObjectView) -> bool {
    let fx = o.position.x + o.speed.x;
    let fy = o.position.y + o.speed.y;
    &&& fx < other.position.x + other.size.x
    &&& fx + o.size.x > other.position.x
    &&& fy < other.position.y + other.size.y
    &&& fy + o.size.y > other.position.y
}

/// Whether the box of `o`, moved by its speed, holds the point whose
/// coordinates doubled are `(px2, py2)`; the box's edges count as inside.
pub open spec fn covers(o: ObjectView, px2: int, py2: int) -> bool {
    let fx = o.position.x + o.speed.x;
    let fy = o.position.y + o.speed.y;
    &&& 2 * fx <= px2
    &&& px2 <= 2 * (fx + o.size.x)
    &&& 2 * fy <= py2
    &&& py2 <= 2 * (fy + o.size.y)
}

/// Whether the box of `o`, moved by its speed, holds a corner of the spike
/// `s`: its apex at the middle of the top edge, or one of its bottom corners.
pub open spec fn pierced(o: ObjectView, s: ObjectView) -> bool {
    let x2 = 2 * s.position.x;
    let y2 = 2 * s.position.y;
    ||| covers(o, x2 + s.size.x, y2)
    ||| covers(o, x2, y2 + 2 * s.size.y)
    ||| covers(o, x2 + 2 * s.size.x, y2 + 2 * s.size.y)
}

/// Whether `o` stands above the top edge of `other`.
pub open spec fn above(o: ObjectView, other: ObjectView) -> bool {
    o.position.y + o.size.y <= other.position.y
}

/// A player that hits a wall from the side or from below: stopped against it.
pub open spec fn stopped_by(o: ObjectView, w: ObjectView) -> ObjectView {
    if o.position.x + o.size.x <= w.position.x {
        ObjectView {
            speed: Vec2 { x: 0, ..o.speed },
            position: Vec2 { x: clamp(w.position.x - o.size.x) as i64, ..o.position },
            ..o
        }
    } else if o.position.y >= w.position.y + w.size.y {
        ObjectView {
            speed: Vec2 { y: 0, ..o.speed },
            position: Vec2 { y: clamp(w.position.y + w.size.y) as i64, ..o.position },
            ..o
        }
    } else {
        o
    }
}

/// The response of `o` to `other`. Only a player responds. A wall that it
/// is about to enter from above is landed on: the player rests on its top
/// edge. Any other hit of a wall is lethal, and so is a spike whose triangle
/// has a corner in the player's next box.
pub open spec fn collided(o: ObjectView, other: ObjectView) -> ObjectView {
    if !(o.kind is Player) || !overlaps(o, other) {
        o
    } else {
        match other.kind {
            ObjectKind::Wall => if above(o, other) {
                ObjectView {
                    speed: Vec2 { y: 0, ..o.speed },
                    position: Vec2 { y: clamp(other.position.y - o.size.y) as i64, ..o.position },
                    is_on_ground: true,
                    ..o
                }
            } else {
                died(stopped_by(o, other))
            },
            ObjectKind::Spike => if pierced(o, other) {
                died(ObjectView { speed: Vec2 { x: 0, y: 0 }, ..o })
            } else {
                o
            },
            ObjectKind::Player { .. } => o,
        }
    }
}

/// The sounds of the response of `o` to `other`.
pub open spec fn collision_cues(o: ObjectView, other: ObjectView) -> Seq<SoundCue> {
    if !(o.kind is Player) || !overlaps(o, other) {
        Seq::empty()
    } else {
        match other.kind {
            ObjectKind::Wall => if above(o, other) {
                Seq::empty()
            } else {
                death_cues(o)
            },
            ObjectKind::Spike => if pierced(o, other) {
                death_cues(o)
            } else {
                Seq::empty()
            },
            ObjectKind::Player { .. } => Seq::empty(),
        }
    }
}

impl Object {
    pub open spec fn wf(&self) -> bool {
        self@.wf()
    }

    /// Whether the object's clips can advance and its trail is within its
    /// length.
    pub fn is_well_formed(&self) -> (r: bool)
        ensures
            r == self.wf(),
    {
        let clips = match self.kind {
            ObjectKind::Player { run, jump, die, .. } => run.length > 0 && run.current_frame
                < run.length && jump.length > 0 && jump.current_frame < jump.length && die.length
                > 0 && die.current_frame < die.length,
            _ => true,
        };
        clips && self.trail.len() <= TRAIL_LENGTH
    }

    /// The middle of the object's box.
    pub fn midpoint_of(&self) -> (r: Vec2)
        ensures
            r == midpoint(self@),
    {
        let hx = quotient(self.size.x as i128, 2);
        let hy = quotient(self.size.y as i128, 2);
        Vec2::new(
            saturate(self.position.x as i128 + hx),
            saturate(self.position.y as i128 + hy),
        )
    }

    /// Advances the object by one tick; `jump` tells whether the jump input
    /// is held. Returns the sounds to play.
    pub fn update(&mut self, jump: bool) -> (cues: Vec<SoundCue>)
        requires
            old(self).wf(),
        ensures
            final(self)@ == stepped(old(self)@, jump),
            final(self).wf(),
            cues@ == step_cues(old(self)@, jump),
    {
        let ghost o = self@;
        let mut cues: Vec<SoundCue> = Vec::new();
        let mid = self.midpoint_of();
        self.trail.push(mid);
        if self.trail.len() > TRAIL_LENGTH {
            self.trail.remove(0);
            assert(self.trail@ =~= o.trail.push(mid).skip(1));
        }
        self.position = self.position.plus(self.speed);
        let alive = self.alive;
        let grounded = self.is_on_ground;
        let leap = jump && alive && grounded && self.speed.x != 0 && self.size.x != 0;
        match self.kind {
            ObjectKind::Player { state, run, jump: jump_clip, die } => {
                let mut run = run;
                let mut jump_clip = jump_clip;
                let mut die = die;
                match state {
                    PlayerState::Jumping => jump_clip.update(),
                    PlayerState::Running => run.update(),
                    PlayerState::Dying => die.update(),
                }
                let fall = sat_add(self.speed.y, GRAVITY);
                let next_state;
                if !alive {
                    let vx = quotient(self.speed.x as i128 * 95, 100);
                    self.speed = Vec2::new(vx as i64, fall);
                    next_state = PlayerState::Dying;
                } else {
                    if leap {
                        self.speed = Vec2::new(self.speed.x, Self::jump_speed(self.speed.x, self.size));
                        cues.push(SoundCue::PlayOnce(Action::Jump));
                    } else {
                        self.speed = Vec2::new(self.speed.x, fall);
                    }
                    if grounded {
                        next_state = PlayerState::Running;
                        jump_clip.rewind();
                    } else {
                        next_state = PlayerState::Jumping;
                    }
                }
                self.kind = ObjectKind::Player { state: next_state, run, jump: jump_clip, die };
                if !grounded {
                    self.rotation = sat_add(self.rotation, SPIN);
                } else {
                    self.rotation = 0;
                }
                self.is_on_ground = false;
            },
            _ => {},
        }
        assert(cues@ =~= step_cues(o, jump));
        cues
    }

    /// Vertical speed that a jump gives; see [`jump_speed`].
    fn jump_speed(vx: i64, size: Vec2) -> (r: i64)
        requires
            vx != 0,
            size.x != 0,
        ensures
            r == jump_speed(vx, size),
    {
        assert(-0x4000_0000_0000_0000_0000_0000_0000_0000 <= vx * size.y <= 0x4000_0000_0000_0000_0000_0000_0000_0000)
            by (nonlinear_arith)
            requires
                i64::MIN <= vx <= i64::MAX,
                i64::MIN <= size.y <= i64::MAX,
        ;
        let a: i128 = vx as i128 * size.y as i128;
        let first = quotient(a, 2 * size.x as i128);
        let k: i128 = SUBPIXELS as i128;
        assert(k == 1000);
        assert(-0x1000_0000_0000_0000_0000 <= k * size.x <= 0x1000_0000_0000_0000_0000)
            by (nonlinear_arith)
            requires
                k == 1000,
                i64::MIN <= size.x <= i64::MAX,
        ;
        let second = quotient(k * size.x as i128, vx as i128);
        saturate(-first - second - SUBPIXELS as i128 / 2)
    }
}

impl Object {
    /// Whether the box of the object, moved by its speed, holds the point
    /// whose coordinates doubled are `(px2, py2)`.
    fn covers(&self, px2: i128, py2: i128) -> (r: bool)
        ensures
            r == covers(self@, px2 as int, py2 as int),
    {
        let fx: i128 = self.position.x as i128 + self.speed.x as i128;
        let fy: i128 = self.position.y as i128 + self.speed.y as i128;
        2 * fx <= px2 && px2 <= 2 * (fx + self.size.x as i128) && 2 * fy <= py2 && py2 <= 2 * (fy
            + self.size.y as i128)
    }

    /// A lethal hit: the first one stops the object and kills it, any later
    /// one changes nothing. Returns the sounds to play.
    fn die(&mut self) -> (cues: Vec<SoundCue>)
        ensures
            final(self)@ == died(old(self)@),
            cues@ == death_cues(old(self)@),
    {
        let mut cues: Vec<SoundCue> = Vec::new();
        if self.alive {
            self.alive = false;
            self.speed = Vec2::zero();
            if self.is_player() {
                cues.push(SoundCue::Stop(Action::Run));
                cues.push(SoundCue::PlayOnce(Action::Die));
            }
        }
        assert(cues@ =~= death_cues(old(self)@));
        cues
    }

    /// Responds to `other`, against which the object is about to move; see
    /// [`collided`]. Two players never meet. Returns the sounds to play.
    pub fn collide(&mut self, other: &Object) -> (cues: Vec<SoundCue>)
        requires
            !(old(self).kind.is_player() && other.kind.is_player()),
        ensures
            final(self)@ == collided(old(self)@, other@),
            cues@ == collision_cues(old(self)@, other@),
    {
        if !self.is_player() {
            return Vec::new();
        }
        let fx: i128 = self.position.x as i128 + self.speed.x as i128;
        let fy: i128 = self.position.y as i128 + self.speed.y as i128;
        let ox: i128 = other.position.x as i128;
        let oy: i128 = other.position.y as i128;
        let ow: i128 = other.size.x as i128;
        let oh: i128 = other.size.y as i128;
        if !(fx < ox + ow && fx + (self.size.x as i128) > ox && fy < oy + oh && fy + (
        self.size.y as i128) > oy) {
            return Vec::new();
        }
        match other.kind {
            ObjectKind::Wall => {
                if self.position.y as i128 + self.size.y as i128 <= oy {
                    self.speed = Vec2::new(self.speed.x, 0);
                    self.position = Vec2::new(
                        self.position.x,
                        saturate(oy - self.size.y as i128),
                    );
                    self.is_on_ground = true;
                    Vec::new()
                } else {
                    if self.position.x as i128 + self.size.x as i128 <= ox {
                        self.speed = Vec2::new(0, self.speed.y);
                        self.position = Vec2::new(
                            saturate(ox - self.size.x as i128),
                            self.position.y,
                        );
                    } else if self.position.y as i128 >= oy + oh {
                        self.speed = Vec2::new(self.speed.x, 0);
                        self.position = Vec2::new(self.position.x, saturate(oy + oh));
                    }
                    self.die()
                }
            },
            ObjectKind::Spike => {
                if self.covers(2 * ox + ow, 2 * oy) || self.covers(2 * ox, 2 * oy + 2 * oh)
                    || self.covers(2 * ox + 2 * ow, 2 * oy + 2 * oh) {
                    self.speed = Vec2::zero();
                    self.die()
                } else {
                    Vec::new()
                }
            },
            ObjectKind::Player { .. } => Vec::new(),
        }
    }
}

// ---------------------------------------------------------------------------
// Laws

/// The object after one tick for each of `jumps`, in order.
pub open spec fn steps(o: ObjectView, jumps: Seq<bool>) -> ObjectView
    decreases jumps.len(),
{
    if jumps.len() == 0 {
        o
    } else {
        stepped(steps(o, jumps.drop_last()), jumps.last())
    }
}

/// The trail fills up to its length and then stays full: after `n` ticks
/// it holds the earlier points plus `n`, but never more than
/// [`TRAIL_LENGTH`]; once full, each tick drops the oldest point and
/// appends the newest midpoint.
pub proof fn lemma_trail_bounded(o: ObjectView, jumps: Seq<bool>)
    requires
        o.trail.len() <= TRAIL_LENGTH,
    ensures
        steps(o, jumps).trail.len() == if o.trail.len() + jumps.len() < TRAIL_LENGTH {
            o.trail.len() + jumps.len()
        } else {
            TRAIL_LENGTH as nat
        },
        jumps.len() >= TRAIL_LENGTH ==> steps(o, jumps).trail.len() == TRAIL_LENGTH,
        o.trail.len() == TRAIL_LENGTH ==> forall|j: bool|
            #[trigger] stepped(o, j).trail == o.trail.skip(1).push(midpoint(o)),
    decreases jumps.len(),
{
    if jumps.len() > 0 {
        lemma_trail_bounded(o, jumps.drop_last());
    }
    if o.trail.len() == TRAIL_LENGTH {
        assert forall|j: bool| #[trigger] stepped(o, j).trail == o.trail.skip(1).push(midpoint(o)) by {
            assert(o.trail.push(midpoint(o)).skip(1) =~= o.trail.skip(1).push(midpoint(o)));
        }
    }
}

/// A player about to enter a wall from above lands on it: it ends on the
/// ground, resting on the wall's top edge with no vertical speed, and
/// neither dies nor makes a sound.
pub proof fn lemma_landing_is_safe(o: ObjectView, wall: ObjectView)
    requires
        o.kind is Player,
        wall.kind is Wall,
        overlaps(o, wall),
        o.position.y + o.size.y <= wall.position.y,
    ensures
        collided(o, wall).is_on_ground,
        collided(o, wall).speed.y == 0,
        collided(o, wall).speed.x == o.speed.x,
        collided(o, wall).position.y == clamp(wall.position.y - o.size.y),
        collided(o, wall).alive == o.alive,
        collision_cues(o, wall).len() == 0,
{
}

/// Death happens once: a lethal hit on a dead object changes nothing and
/// plays no sound, so two hits act as one; and no collision of a dead
/// player brings it back or replays its death.
pub proof fn lemma_death_is_final(o: ObjectView, other: ObjectView)
    ensures
        !o.alive ==> died(o) == o && death_cues(o).len() == 0,
        died(died(o)) == died(o),
        death_cues(died(o)).len() == 0,
        !o.alive ==> !collided(o, other).alive && collision_cues(o, other).len() == 0,
{
}

} // verus!
