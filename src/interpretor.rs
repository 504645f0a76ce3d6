//! Interpreter of the level description language.
//!
//! A deterministic automaton reads the tokens one by one and builds the
//! level's objects. The object being declared travels inside the state; it is
//! added to the level when the next kind or the end of the file comes. A
//! `Unit is (x,y)` declaration sets the scale of every coordinate read after
//! it.

use vstd::prelude::*;
use crate::geometry::{clamp, Vec2, SUBPIXELS};
use crate::object::{fresh, kind_wf, player_kind, Object, ObjectKind, ObjectView};
use crate::tokenizer::{lex, Token, Unit};
use crate::world::World;

verus! {

/// A token that the automaton cannot take in its current state.
#[derive(Debug)]
pub struct InterpretorError {
    pub unexpected: Token,
    /// Every token that the state would have taken.
    pub expected: Vec<Token>,
}

/// States of the automaton, with the object being declared.
enum InterpretorState {
    Initial,
    UnitDeclaration,
    UnitDefinition,
    ObjectDeclaration(Object),
    PositionDefinition(Object),
    InitialSpeedDefinition(Object),
    SizeDefinition(Object),
    Done,
}

/// A state of the automaton, with the value of the object being declared.
pub enum Phase {
    Initial,
    UnitDeclaration,
    UnitDefinition,
    ObjectDeclaration(ObjectView),
    PositionDefinition(ObjectView),
    InitialSpeedDefinition(ObjectView),
    SizeDefinition(ObjectView),
    Done,
}

impl View for InterpretorState {
    type V = Phase;

    closed spec fn view(&self) -> Phase {
        match self {
            InterpretorState::Initial => Phase::Initial,
            InterpretorState::UnitDeclaration => Phase::UnitDeclaration,
            InterpretorState::UnitDefinition => Phase::UnitDefinition,
            InterpretorState::ObjectDeclaration(o) => Phase::ObjectDeclaration(o@),
            InterpretorState::PositionDefinition(o) => Phase::PositionDefinition(o@),
            InterpretorState::InitialSpeedDefinition(o) => Phase::InitialSpeedDefinition(o@),
            InterpretorState::SizeDefinition(o) => Phase::SizeDefinition(o@),
            InterpretorState::Done => Phase::Done,
        }
    }
}

/// Everything the automaton knows between two tokens: its state, the
/// current unit and the objects already added.
pub struct Scan {
    pub phase: Phase,
    pub unit: (i32, i32),
    pub objects: Seq<ObjectView>,
}

/// The value of an [`InterpretorError`].
pub struct ParseFault {
    pub unexpected: Token,
    pub expected: Seq<Token>,
}

impl View for InterpretorError {
    type V = ParseFault;

    open spec fn view(&self) -> ParseFault {
        ParseFault { unexpected: self.unexpected, expected: self.expected@ }
    }
}

/// A literal coordinate `v` in a level whose unit is `u`, in sub-pixels.
pub open spec fn scaled(v: i32, u: i32) -> i64 {
    clamp(v * u * SUBPIXELS) as i64
}

/// The extent of one unit, in sub-pixels.
pub open spec fn unit_extent(u: (i32, i32)) -> Vec2 {
    Vec2 { x: (u.0 * SUBPIXELS) as i64, y: (u.1 * SUBPIXELS) as i64 }
}

/// The tokens the state `p` takes.
pub open spec fn expected_in(p: Phase) -> Seq<Token> {
    match p {
        Phase::Initial => seq![
            Token::Unit,
            Token::Kind(player_kind()),
            Token::Kind(ObjectKind::Wall),
            Token::Kind(ObjectKind::Spike),
        ],
        Phase::UnitDeclaration => seq![Token::Is],
        Phase::UnitDefinition => seq![Token::Vector(0, 0)],
        Phase::ObjectDeclaration(_) => seq![
            Token::At,
            Token::OfSize,
            Token::WithIS,
            Token::Kind(player_kind()),
            Token::Kind(ObjectKind::Wall),
            Token::Kind(ObjectKind::Spike),
            Token::EndOfFile,
        ],
        Phase::PositionDefinition(_) => seq![Token::Vector(0, 0)],
        Phase::SizeDefinition(_) => seq![Token::Vector(0, 0)],
        Phase::InitialSpeedDefinition(_) => seq![
            Token::Scalar(0, Unit::Default),
            Token::Scalar(0, Unit::Pixel),
        ],
        Phase::Done => seq![Token::EndOfFile],
    }
}

/// One transition of the automaton.
pub open spec fn step(s: Scan, t: Token) -> Result<Scan, ParseFault> {
    let fault = ParseFault { unexpected: t, expected: expected_in(s.phase) };
    match s.phase {
        Phase::Initial => match t {
            Token::Unit => Ok(Scan { phase: Phase::UnitDeclaration, ..s }),
            Token::Kind(k) => Ok(Scan { phase: Phase::ObjectDeclaration(fresh(k)), ..s }),
            _ => Err(fault),
        },
        Phase::UnitDeclaration => match t {
            Token::Is => Ok(Scan { phase: Phase::UnitDefinition, ..s }),
            _ => Err(fault),
        },
        Phase::UnitDefinition => match t {
            Token::Vector(x, y) => Ok(Scan { phase: Phase::Initial, unit: (x, y), ..s }),
            _ => Err(fault),
        },
        Phase::ObjectDeclaration(o) => match t {
            Token::At => Ok(
                Scan {
                    phase: Phase::PositionDefinition(ObjectView { size: unit_extent(s.unit), ..o }),
                    ..s
                },
            ),
            Token::OfSize => Ok(
                Scan {
                    phase: Phase::SizeDefinition(ObjectView { size: unit_extent(s.unit), ..o }),
                    ..s
                },
            ),
            Token::WithIS => Ok(Scan { phase: Phase::InitialSpeedDefinition(o), ..s }),
            Token::Kind(k) => Ok(
                Scan { phase: Phase::ObjectDeclaration(fresh(k)), objects: s.objects.push(o), ..s },
            ),
            Token::EndOfFile => Ok(Scan { phase: Phase::Done, objects: s.objects.push(o), ..s }),
            _ => Err(fault),
        },
        Phase::PositionDefinition(o) => match t {
            Token::Vector(x, y) => Ok(
                Scan {
                    phase: Phase::ObjectDeclaration(
                        ObjectView {
                            position: Vec2 { x: scaled(x, s.unit.0), y: scaled(y, s.unit.1) },
                            ..o
                        },
                    ),
                    ..s
                },
            ),
            _ => Err(fault),
        },
        Phase::SizeDefinition(o) => match t {
            Token::Vector(x, y) => Ok(
                Scan {
                    phase: Phase::ObjectDeclaration(
                        ObjectView {
                            size: Vec2 { x: scaled(x, s.unit.0), y: scaled(y, s.unit.1) },
                            ..o
                        },
                    ),
                    ..s
                },
            ),
            _ => Err(fault),
        },
        Phase::InitialSpeedDefinition(o) => match t {
            Token::Scalar(v, u) => Ok(
                Scan {
                    phase: Phase::ObjectDeclaration(
                        ObjectView {
                            speed: Vec2 {
                                x: scaled(
                                    v,
                                    if u == Unit::Default {
                                        s.unit.0
                                    } else {
                                        1
                                    },
                                ),
                                y: 0,
                            },
                            ..o
                        },
                    ),
                    ..s
                },
            ),
            _ => Err(fault),
        },
        Phase::Done => Err(fault),
    }
}

/// The automaton run from `s` over the tokens `ts`, up to the first token it
/// cannot take.
pub open spec fn run(s: Scan, ts: Seq<Token>) -> Result<Scan, ParseFault>
    decreases ts.len(),
{
    if ts.len() == 0 {
        Ok(s)
    } else {
        match step(s, ts[0]) {
            Ok(n) => run(n, ts.skip(1)),
            Err(e) => Err(e),
        }
    }
}

/// The automaton before the first token: unit one by one, no object.
pub open spec fn start() -> Scan {
    Scan { phase: Phase::Initial, unit: (1, 1), objects: Seq::empty() }
}

/// The objects that a token sequence declares, or the first token out of place.
pub open spec fn interpretation(ts: Seq<Token>) -> Result<Seq<ObjectView>, ParseFault> {
    match run(start(), ts) {
        Ok(s) => Ok(s.objects),
        Err(e) => Err(e),
    }
}

/// `v * u` literal pixels in sub-pixels, saturating.
fn scale(v: i32, u: i32) -> (r: i64)
    ensures
        r == scaled(v, u),
{
    assert(-0x4000_0000_0000_0000 <= v * u <= 0x4000_0000_0000_0000) by (nonlinear_arith)
        requires
            i32::MIN <= v <= i32::MAX,
            i32::MIN <= u <= i32::MAX,
    ;
    let p: i128 = v as i128 * u as i128;
    let k: i128 = SUBPIXELS as i128;
    assert(k == 1000);
    assert(-0x4000_0000_0000_0000 * 1000 <= p * k <= 0x4000_0000_0000_0000 * 1000) by (nonlinear_arith)
        requires
            -0x4000_0000_0000_0000 <= p <= 0x4000_0000_0000_0000,
            k == 1000,
    ;
    crate::geometry::saturate(p * k)
}

/// The tokens the state `p` takes.
fn expected(p: &InterpretorState) -> (r: Vec<Token>)
    ensures
        r@ == expected_in(p@),
{
    let r = match p {
        InterpretorState::Initial => vec![
            Token::Unit,
            Token::Kind(ObjectKind::player()),
            Token::Kind(ObjectKind::Wall),
            Token::Kind(ObjectKind::Spike),
        ],
        InterpretorState::UnitDeclaration => vec![Token::Is],
        InterpretorState::UnitDefinition => vec![Token::Vector(0, 0)],
        InterpretorState::ObjectDeclaration(_) => vec![
            Token::At,
            Token::OfSize,
            Token::WithIS,
            Token::Kind(ObjectKind::player()),
            Token::Kind(ObjectKind::Wall),
            Token::Kind(ObjectKind::Spike),
            Token::EndOfFile,
        ],
        InterpretorState::PositionDefinition(_) => vec![Token::Vector(0, 0)],
        InterpretorState::SizeDefinition(_) => vec![Token::Vector(0, 0)],
        InterpretorState::InitialSpeedDefinition(_) => vec![
            Token::Scalar(0, Unit::Default),
            Token::Scalar(0, Unit::Pixel),
        ],
        InterpretorState::Done => vec![Token::EndOfFile],
    };
    assert(r@ =~= expected_in(p@));
    r
}

/// The interpreter of token sequences.
pub struct Interpretor;

impl Interpretor {
    /// The level that a token sequence describes, or the first token out of
    /// place. The sequence ends with [`Token::EndOfFile`], as those of
    /// [`crate::tokenizer::Tokenizer::tokenize`] do.
    pub fn interpret(tokens: Vec<Token>) -> (r: Result<World, InterpretorError>)
        requires
            tokens@.len() > 0,
            tokens@.last() == Token::EndOfFile,
        ensures
            match r {
                Ok(w) => interpretation(tokens@) == Ok::<Seq<ObjectView>, ParseFault>(w@.objects)
                    && w.camera == Vec2::zero_spec() && w.playing,
                Err(e) => interpretation(tokens@) == Err::<Seq<ObjectView>, ParseFault>(e@),
            },
    {
        let mut world = World::new();
        let mut unit: (i32, i32) = (1, 1);
        let mut state = InterpretorState::Initial;
        let mut i: usize = 0;
        let ghost ts = tokens@;
        assert(ts.skip(0) =~= ts);
        while i < tokens.len()
            invariant
                ts == tokens@,
                i <= ts.len(),
                ts.len() > 0,
                ts.last() == Token::EndOfFile,
                world.camera == Vec2::zero_spec(),
                world.playing,
                i > 0 && ts[i - 1] == Token::EndOfFile ==> state@ is Done,
                run(start(), ts) == run(
                    Scan { phase: state@, unit, objects: world@.objects },
                    ts.skip(i as int),
                ),
            decreases ts.len() - i,
        {
            let t = tokens[i];
            let ghost here = Scan { phase: state@, unit, objects: world@.objects };
            assert(ts.skip(i as int)[0] == t);
            assert(ts.skip(i as int).skip(1) =~= ts.skip(i + 1));
            let fault = expected(&state);
            state = match state {
                InterpretorState::Initial => match t {
                    Token::Unit => InterpretorState::UnitDeclaration,
                    Token::Kind(k) => InterpretorState::ObjectDeclaration(Object::from_kind(k)),
                    _ => return Err(InterpretorError { unexpected: t, expected: fault }),
                },
                InterpretorState::UnitDeclaration => match t {
                    Token::Is => InterpretorState::UnitDefinition,
                    _ => return Err(InterpretorError { unexpected: t, expected: fault }),
                },
                InterpretorState::UnitDefinition => match t {
                    Token::Vector(x, y) => {
                        unit = (x, y);
                        InterpretorState::Initial
                    },
                    _ => return Err(InterpretorError { unexpected: t, expected: fault }),
                },
                InterpretorState::ObjectDeclaration(obj) => match t {
                    Token::At => InterpretorState::PositionDefinition(
                        obj.size(Vec2::new(unit.0 as i64 * SUBPIXELS, unit.1 as i64 * SUBPIXELS)),
                    ),
                    Token::OfSize => InterpretorState::SizeDefinition(
                        obj.size(Vec2::new(unit.0 as i64 * SUBPIXELS, unit.1 as i64 * SUBPIXELS)),
                    ),
                    Token::WithIS => InterpretorState::InitialSpeedDefinition(obj),
                    Token::Kind(k) => {
                        world.add_object(obj);
                        InterpretorState::ObjectDeclaration(Object::from_kind(k))
                    },
                    Token::EndOfFile => {
                        world.add_object(obj);
                        InterpretorState::Done
                    },
                    _ => return Err(InterpretorError { unexpected: t, expected: fault }),
                },
                InterpretorState::PositionDefinition(obj) => match t {
                    Token::Vector(x, y) => InterpretorState::ObjectDeclaration(
                        obj.position(Vec2::new(scale(x, unit.0), scale(y, unit.1))),
                    ),
                    _ => return Err(InterpretorError { unexpected: t, expected: fault }),
                },
                InterpretorState::SizeDefinition(obj) => match t {
                    Token::Vector(x, y) => InterpretorState::ObjectDeclaration(
                        obj.size(Vec2::new(scale(x, unit.0), scale(y, unit.1))),
                    ),
                    _ => return Err(InterpretorError { unexpected: t, expected: fault }),
                },
                InterpretorState::InitialSpeedDefinition(obj) => match t {
                    Token::Scalar(v, u) => {
                        let factor: i32 = match u {
                            Unit::Default => unit.0,
                            Unit::Pixel => 1,
                        };
                        InterpretorState::ObjectDeclaration(
                            obj.speed(Vec2::new(scale(v, factor), 0)),
                        )
                    },
                    _ => return Err(InterpretorError { unexpected: t, expected: fault }),
                },
                InterpretorState::Done => {
                    return Err(InterpretorError { unexpected: t, expected: fault });
                },
            };
            assert(step(here, t) == Ok::<Scan, ParseFault>(
                Scan { phase: state@, unit, objects: world@.objects },
            ));
            i = i + 1;
        }
        assert(ts.skip(i as int) =~= Seq::<Token>::empty());
        Ok(world)
    }
}

// ---------------------------------------------------------------------------
// Laws

/// One clause of an object declaration.
pub enum Clause {
    /// `at (x,y)`
    At(i32, i32),
    /// `of size (x,y)`
    OfSize(i32, i32),
    /// `with initial speed of v`, with its unit suffix
    Speed(i32, Unit),
}

/// An object declaration: a kind and its clauses.
pub struct Declaration {
    pub kind: ObjectKind,
    pub clauses: Seq<Clause>,
}

pub open spec fn clause_tokens(c: Clause) -> Seq<Token> {
    match c {
        Clause::At(x, y) => seq![Token::At, Token::Vector(x, y)],
        Clause::OfSize(x, y) => seq![Token::OfSize, Token::Vector(x, y)],
        Clause::Speed(v, u) => seq![Token::WithIS, Token::Scalar(v, u)],
    }
}

pub open spec fn clauses_tokens(cs: Seq<Clause>) -> Seq<Token>
    decreases cs.len(),
{
    if cs.len() == 0 {
        Seq::empty()
    } else {
        clauses_tokens(cs.drop_last()) + clause_tokens(cs.last())
    }
}

/// The tokens of `Unit is (x,y)` declarations.
pub open spec fn units_tokens(us: Seq<(i32, i32)>) -> Seq<Token>
    decreases us.len(),
{
    if us.len() == 0 {
        Seq::empty()
    } else {
        units_tokens(us.drop_last()) + seq![
            Token::Unit,
            Token::Is,
            Token::Vector(us.last().0, us.last().1),
        ]
    }
}

pub open spec fn declarations_tokens(ds: Seq<Declaration>) -> Seq<Token>
    decreases ds.len(),
{
    if ds.len() == 0 {
        Seq::empty()
    } else {
        declarations_tokens(ds.drop_last()) + seq![Token::Kind(ds.last().kind)] + clauses_tokens(
            ds.last().clauses,
        )
    }
}

/// The tokens of a level in the grammar of the language: unit
/// declarations, then object declarations, then the end of the file.
pub open spec fn level_tokens(us: Seq<(i32, i32)>, ds: Seq<Declaration>) -> Seq<Token> {
    units_tokens(us) + declarations_tokens(ds) + seq![Token::EndOfFile]
}

proof fn lemma_run_append(s: Scan, a: Seq<Token>, b: Seq<Token>)
    ensures
        run(s, a + b) == match run(s, a) {
            Ok(m) => run(m, b),
            Err(e) => Err(e),
        },
    decreases a.len(),
{
    if a.len() > 0 {
        assert((a + b)[0] == a[0]);
        assert((a + b).skip(1) =~= a.skip(1) + b);
        match step(s, a[0]) {
            Ok(n) => lemma_run_append(n, a.skip(1), b),
            Err(_) => {},
        }
    } else {
        assert(a + b =~= b);
    }
}

proof fn lemma_run_single(s: Scan, t: Token)
    ensures
        run(s, seq![t]) == match step(s, t) {
            Ok(n) => Ok::<Scan, ParseFault>(n),
            Err(e) => Err(e),
        },
{
    assert(seq![t].skip(1) =~= Seq::<Token>::empty());
    match step(s, t) {
        Ok(n) => {
            assert(run(n, Seq::<Token>::empty()) == Ok::<Scan, ParseFault>(n));
        },
        Err(_) => {},
    }
}

/// Running over two tokens.
proof fn lemma_run_pair(s: Scan, a: Token, b: Token)
    ensures
        run(s, seq![a, b]) == match step(s, a) {
            Ok(n) => run(n, seq![b]),
            Err(e) => Err(e),
        },
{
    assert(seq![a, b] =~= seq![a] + seq![b]);
    lemma_run_append(s, seq![a], seq![b]);
    lemma_run_single(s, a);
}

proof fn lemma_run_units(s: Scan, us: Seq<(i32, i32)>)
    requires
        s.phase is Initial,
    ensures
        run(s, units_tokens(us)) matches Ok(m) && m.phase is Initial && m.objects == s.objects,
    decreases us.len(),
{
    if us.len() > 0 {
        let v = Token::Vector(us.last().0, us.last().1);
        let last = seq![Token::Unit, Token::Is, v];
        lemma_run_units(s, us.drop_last());
        lemma_run_append(s, units_tokens(us.drop_last()), last);
        let m = run(s, units_tokens(us.drop_last()))->Ok_0;
        assert(last =~= seq![Token::Unit] + seq![Token::Is, v]);
        lemma_run_append(m, seq![Token::Unit], seq![Token::Is, v]);
        lemma_run_single(m, Token::Unit);
        let m1 = step(m, Token::Unit)->Ok_0;
        lemma_run_pair(m1, Token::Is, v);
        let m2 = step(m1, Token::Is)->Ok_0;
        lemma_run_single(m2, v);
    } else {
        assert(units_tokens(us) =~= Seq::<Token>::empty());
    }
}

proof fn lemma_run_clauses(s: Scan, cs: Seq<Clause>)
    requires
        s.phase is ObjectDeclaration,
    ensures
        run(s, clauses_tokens(cs)) matches Ok(m) && m.phase is ObjectDeclaration && m.objects
            == s.objects,
    decreases cs.len(),
{
    if cs.len() > 0 {
        lemma_run_clauses(s, cs.drop_last());
        lemma_run_append(s, clauses_tokens(cs.drop_last()), clause_tokens(cs.last()));
        let m = run(s, clauses_tokens(cs.drop_last()))->Ok_0;
        match cs.last() {
            Clause::At(x, y) => {
                lemma_run_pair(m, Token::At, Token::Vector(x, y));
                lemma_run_single(step(m, Token::At)->Ok_0, Token::Vector(x, y));
            },
            Clause::OfSize(x, y) => {
                lemma_run_pair(m, Token::OfSize, Token::Vector(x, y));
                lemma_run_single(step(m, Token::OfSize)->Ok_0, Token::Vector(x, y));
            },
            Clause::Speed(v, u) => {
                lemma_run_pair(m, Token::WithIS, Token::Scalar(v, u));
                lemma_run_single(step(m, Token::WithIS)->Ok_0, Token::Scalar(v, u));
            },
        }
    } else {
        assert(clauses_tokens(cs) =~= Seq::<Token>::empty());
    }
}

proof fn lemma_run_declarations(s: Scan, ds: Seq<Declaration>)
    requires
        s.phase is Initial,
        ds.len() > 0,
    ensures
        run(s, declarations_tokens(ds)) matches Ok(m) && m.phase is ObjectDeclaration
            && m.objects.len() == s.objects.len() + ds.len() - 1,
    decreases ds.len(),
{
    let d = ds.last();
    let head = declarations_tokens(ds.drop_last());
    let kind = seq![Token::Kind(d.kind)];
    lemma_run_append(s, head + kind, clauses_tokens(d.clauses));
    lemma_run_append(s, head, kind);
    if ds.len() == 1 {
        assert(head =~= Seq::<Token>::empty());
        assert(run(s, head) == Ok::<Scan, ParseFault>(s));
    } else {
        lemma_run_declarations(s, ds.drop_last());
    }
    let m = run(s, head)->Ok_0;
    lemma_run_single(m, Token::Kind(d.kind));
    let n = run(m, kind)->Ok_0;
    lemma_run_clauses(n, d.clauses);
}

/// Every level written in the grammar of the language is read whole: when
/// the tokens of a text are those of unit declarations followed by at least
/// one object declaration, interpreting them succeeds with exactly one
/// object per declared kind.
pub proof fn lemma_levels_load(text: Seq<char>, us: Seq<(i32, i32)>, ds: Seq<Declaration>)
    requires
        ds.len() > 0,
        lex(text) == Ok::<Seq<Token>, crate::tokenizer::LexFault>(level_tokens(us, ds)),
    ensures
        lex(text) matches Ok(tokens) && interpretation(tokens) matches Ok(objects)
            && objects.len() == ds.len(),
{
    let s = start();
    let ut = units_tokens(us);
    let dt = declarations_tokens(ds);
    let end = seq![Token::EndOfFile];
    lemma_run_units(s, us);
    let m = run(s, ut)->Ok_0;
    lemma_run_declarations(m, ds);
    lemma_run_append(s, ut + dt, end);
    lemma_run_append(s, ut, dt);
    let n = run(m, dt)->Ok_0;
    lemma_run_single(n, Token::EndOfFile);
}

/// Every kind among `ts` has clips that can advance.
pub open spec fn kinds_wf(ts: Seq<Token>) -> bool {
    forall|i: int| 0 <= i < ts.len() ==> (#[trigger] ts[i] matches Token::Kind(k) ==> kind_wf(k))
}

/// The object being declared in `p`, if any, is well formed.
pub open spec fn phase_wf(p: Phase) -> bool {
    match p {
        Phase::ObjectDeclaration(o) => o.wf(),
        Phase::PositionDefinition(o) => o.wf(),
        Phase::InitialSpeedDefinition(o) => o.wf(),
        Phase::SizeDefinition(o) => o.wf(),
        _ => true,
    }
}

/// Interpretation builds well-formed objects out of well-formed kinds.
pub proof fn lemma_run_wf(s: Scan, ts: Seq<Token>)
    requires
        phase_wf(s.phase),
        forall|i: int| 0 <= i < s.objects.len() ==> (#[trigger] s.objects[i]).wf(),
        kinds_wf(ts),
    ensures
        run(s, ts) matches Ok(m) ==> forall|i: int|
            0 <= i < m.objects.len() ==> (#[trigger] m.objects[i]).wf(),
    decreases ts.len(),
{
    if ts.len() > 0 {
        let t = ts[0];
        assert(t matches Token::Kind(k) ==> kind_wf(k));
        assert(fresh(ObjectKind::Wall).trail.len() == 0);
        match step(s, t) {
            Ok(n) => {
                assert(phase_wf(n.phase));
                assert forall|i: int| 0 <= i < n.objects.len() implies (#[trigger] n.objects[i]).wf() by {
                    if i < s.objects.len() {
                        assert(n.objects[i] == s.objects[i]);
                    }
                }
                assert forall|i: int| 0 <= i < ts.skip(1).len() implies (#[trigger] ts.skip(1)[i]
                    matches Token::Kind(k) ==> kind_wf(k)) by {
                    assert(ts.skip(1)[i] == ts[i + 1]);
                }
                lemma_run_wf(n, ts.skip(1));
            },
            Err(_) => {},
        }
    }
}

} // verus!
