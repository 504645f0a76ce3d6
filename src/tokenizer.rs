//! Lexer of the level description language.
//!
//! A level text becomes a flat sequence of tokens in four steps: spaces
//! inside parentheses are removed, the text is cut into lines and the blank
//! and `#` comment lines are dropped, the remaining lines are cut into words
//! at spaces, and the fixed phrases `with initial speed of` and `of size` are
//! merged into the single words `wiso` and `ofsize`. Each word is then a
//! keyword, a vector literal `(x,y)` or a scalar literal `n` / `npx`.

use vstd::prelude::*;
use crate::object::{kind_wf, player_kind, ObjectKind};
use crate::text::{chars_of, copy_chars, same_chars, string_of};

verus! {

/// Unit suffix of a scalar literal.
#[derive(Clone, Copy, Debug, PartialEq, Eq, Structural)]
pub enum Unit {
    /// No suffix: the value is scaled by the level's unit.
    Default,
    /// The `px` suffix: the value is in pixels.
    Pixel,
}

#[derive(Clone, Copy, Debug, PartialEq, Eq, Structural)]
pub enum Token {
    Unit,
    Kind(ObjectKind),
    Is,
    At,
    OfSize,
    WithIS,
    Vector(i32, i32),
    Scalar(i32, Unit),
    EndOfFile,
}

#[derive(Debug)]
pub enum TokenizerError {
    /// A word that is neither a keyword nor a literal.
    UnknownToken(String),
    /// A vector literal that ends before its closing parenthesis.
    UnexpectedEOF,
    /// A scalar literal with a suffix other than `px`.
    UnknownUnit(String),
}

/// What a [`TokenizerError`] says, with its words as character sequences.
pub enum LexFault {
    UnknownToken(Seq<char>),
    UnexpectedEOF,
    UnknownUnit(Seq<char>),
}

impl View for TokenizerError {
    type V = LexFault;

    open spec fn view(&self) -> LexFault {
        match self {
            TokenizerError::UnknownToken(w) => LexFault::UnknownToken(w@),
            TokenizerError::UnexpectedEOF => LexFault::UnexpectedEOF,
            TokenizerError::UnknownUnit(u) => LexFault::UnknownUnit(u@),
        }
    }
}

/// The contents of a sequence of character vectors.
pub open spec fn views(v: Seq<Vec<char>>) -> Seq<Seq<char>> {
    v.map_values(|w: Vec<char>| w@)
}

// ---------------------------------------------------------------------------
// Cutting the text into words

/// Parenthesis nesting depth after reading `s`: one up for each `(`, one
/// down for each `)`.
pub open spec fn depth(s: Seq<char>) -> int
    decreases s.len(),
{
    if s.len() == 0 {
        0
    } else {
        let d = depth(s.drop_last());
        if s.last() == '(' {
            d + 1
        } else if s.last() == ')' {
            d - 1
        } else {
            d
        }
    }
}

/// `s` without the spaces that stand inside parentheses.
pub open spec fn compact(s: Seq<char>) -> Seq<char>
    decreases s.len(),
{
    if s.len() == 0 {
        Seq::empty()
    } else {
        let p = compact(s.drop_last());
        if s.last() == ' ' && depth(s.drop_last()) != 0 {
            p
        } else {
            p.push(s.last())
        }
    }
}

/// The pieces of `s` between occurrences of `sep`, in order; there is one
/// more piece than there are separators.
pub open spec fn split(s: Seq<char>, sep: char) -> Seq<Seq<char>>
    decreases s.len(),
{
    if s.len() == 0 {
        seq![Seq::empty()]
    } else {
        let p = split(s.drop_last(), sep);
        if s.last() == sep {
            p.push(Seq::empty())
        } else {
            p.update(p.len() - 1, p.last().push(s.last()))
        }
    }
}

/// The non-empty elements of `ws`, in order.
pub open spec fn nonempty(ws: Seq<Seq<char>>) -> Seq<Seq<char>>
    decreases ws.len(),
{
    if ws.len() == 0 {
        Seq::empty()
    } else {
        let p = nonempty(ws.drop_last());
        if ws.last().len() > 0 {
            p.push(ws.last())
        } else {
            p
        }
    }
}

/// A line that is neither empty nor a comment.
pub open spec fn is_content(line: Seq<char>) -> bool {
    line.len() > 0 && line[0] != '#'
}

/// The words of the content lines among `lines`, in order.
pub open spec fn words_of_lines(lines: Seq<Seq<char>>) -> Seq<Seq<char>>
    decreases lines.len(),
{
    if lines.len() == 0 {
        Seq::empty()
    } else {
        let w = words_of_lines(lines.drop_last());
        if is_content(lines.last()) {
            w + nonempty(split(lines.last(), ' '))
        } else {
            w
        }
    }
}

/// The words of a level text.
pub open spec fn words(text: Seq<char>) -> Seq<Seq<char>> {
    words_of_lines(split(compact(text), '\n'))
}

/// `s` without the spaces inside parentheses.
fn compact_chars(s: &Vec<char>) -> (r: Vec<char>)
    ensures
        r@ == compact(s@),
{
    let mut r: Vec<char> = Vec::new();
    let mut d: i128 = 0;
    let mut i: usize = 0;
    while i < s.len()
        invariant
            i <= s@.len(),
            r@ == compact(s@.take(i as int)),
            d == depth(s@.take(i as int)),
            -(i as int) <= d <= i,
        decreases s@.len() - i,
    {
        let c = s[i];
        assert(s@.take(i + 1).drop_last() =~= s@.take(i as int));
        if !(c == ' ' && d != 0) {
            r.push(c);
        }
        if c == '(' {
            d = d + 1;
        } else if c == ')' {
            d = d - 1;
        }
        i = i + 1;
    }
    assert(s@.take(s@.len() as int) =~= s@);
    r
}

/// The pieces of `s` between occurrences of `sep`.
fn split_chars(s: &Vec<char>, sep: char) -> (r: Vec<Vec<char>>)
    ensures
        views(r@) == split(s@, sep),
{
    let mut r: Vec<Vec<char>> = Vec::new();
    r.push(Vec::new());
    assert(views(r@) =~= split(s@.take(0), sep));
    let mut i: usize = 0;
    while i < s.len()
        invariant
            i <= s@.len(),
            r@.len() >= 1,
            views(r@) == split(s@.take(i as int), sep),
        decreases s@.len() - i,
    {
        let c = s[i];
        assert(s@.take(i + 1).drop_last() =~= s@.take(i as int));
        let ghost before = r@;
        if c == sep {
            r.push(Vec::new());
            assert(views(r@) =~= views(before).push(Seq::empty()));
        } else {
            let mut last = r.pop().unwrap();
            last.push(c);
            r.push(last);
            assert(views(r@) =~= views(before).update(
                views(before).len() - 1,
                views(before).last().push(c),
            ));
        }
        i = i + 1;
    }
    assert(s@.take(s@.len() as int) =~= s@);
    r
}

/// The words of a level text, given as characters.
fn words_of(s: &Vec<char>) -> (r: Vec<Vec<char>>)
    ensures
        views(r@) == words(s@),
{
    let compacted = compact_chars(s);
    let lines = split_chars(&compacted, '\n');
    let mut r: Vec<Vec<char>> = Vec::new();
    let mut k: usize = 0;
    assert(views(r@) =~= words_of_lines(views(lines@).take(0)));
    while k < lines.len()
        invariant
            k <= lines@.len(),
            views(r@) == words_of_lines(views(lines@).take(k as int)),
        decreases lines@.len() - k,
    {
        let line = &lines[k];
        assert(views(lines@).take(k + 1).drop_last() =~= views(lines@).take(k as int));
        assert(views(lines@).take(k + 1).last() == line@);
        if line.len() > 0 && line[0] != '#' {
            let pieces = split_chars(line, ' ');
            let ghost base = views(r@);
            let mut j: usize = 0;
            assert(views(r@) =~= base + nonempty(views(pieces@).take(0)));
            while j < pieces.len()
                invariant
                    j <= pieces@.len(),
                    views(r@) == base + nonempty(views(pieces@).take(j as int)),
                decreases pieces@.len() - j,
            {
                let ghost before = views(r@);
                assert(views(pieces@).take(j + 1).drop_last() =~= views(pieces@).take(j as int));
                if pieces[j].len() > 0 {
                    r.push(copy_chars(&pieces[j]));
                    assert(views(r@) =~= before.push(pieces@[j as int]@));
                }
                j = j + 1;
            }
            assert(views(pieces@).take(pieces@.len() as int) =~= views(pieces@));
        }
        k = k + 1;
    }
    assert(views(lines@).take(lines@.len() as int) =~= views(lines@));
    r
}

// ---------------------------------------------------------------------------
// Merging fixed phrases

/// `ws` with every occurrence of the phrase `target` replaced by the single
/// word `repl`, matching greedily from the left without overlap.
pub open spec fn collapse(ws: Seq<Seq<char>>, target: Seq<Seq<char>>, repl: Seq<char>) -> Seq<
    Seq<char>,
>
    decreases ws.len(),
{
    if ws.len() == 0 {
        Seq::empty()
    } else if 0 < target.len() <= ws.len() && ws.take(target.len() as int) == target {
        seq![repl] + collapse(ws.skip(target.len() as int), target, repl)
    } else {
        seq![ws[0]] + collapse(ws.skip(1), target, repl)
    }
}

pub open spec fn wiso_phrase() -> Seq<Seq<char>> {
    seq![
        seq!['w', 'i', 't', 'h'],
        seq!['i', 'n', 'i', 't', 'i', 'a', 'l'],
        seq!['s', 'p', 'e', 'e', 'd'],
        seq!['o', 'f'],
    ]
}

pub open spec fn wiso_word() -> Seq<char> {
    seq!['w', 'i', 's', 'o']
}

pub open spec fn ofsize_phrase() -> Seq<Seq<char>> {
    seq![seq!['o', 'f'], seq!['s', 'i', 'z', 'e']]
}

pub open spec fn ofsize_word() -> Seq<char> {
    seq!['o', 'f', 's', 'i', 'z', 'e']
}

/// The words after both phrases have been merged.
pub open spec fn merged(ws: Seq<Seq<char>>) -> Seq<Seq<char>> {
    collapse(collapse(ws, wiso_phrase(), wiso_word()), ofsize_phrase(), ofsize_word())
}

/// Whether the words of `ws` from index `i` on begin with `target`.
fn phrase_at(ws: &Vec<Vec<char>>, i: usize, target: &Vec<Vec<char>>) -> (r: bool)
    requires
        i <= ws@.len(),
    ensures
        r == (target@.len() <= ws@.len() - i && views(ws@).skip(i as int).take(
            target@.len() as int,
        ) == views(target@)),
{
    if target.len() > ws.len() - i {
        return false;
    }
    let mut j: usize = 0;
    while j < target.len()
        invariant
            i <= ws@.len(),
            target@.len() <= ws@.len() - i,
            j <= target@.len(),
            forall|k: int| 0 <= k < j ==> ws@[i + k]@ == target@[k]@,
        decreases target@.len() - j,
    {
        assert(i + j < ws.len());
        if !same_chars(&ws[i + j], &target[j]) {
            assert(views(ws@).skip(i as int).take(target@.len() as int)[j as int] != views(
                target@,
            )[j as int]);
            return false;
        }
        j = j + 1;
    }
    assert(views(ws@).skip(i as int).take(target@.len() as int) =~= views(target@));
    true
}

// ---------------------------------------------------------------------------
// Classifying words

pub open spec fn is_digit(c: char) -> bool {
    '0' <= c <= '9'
}

/// Length of the run of decimal digits that `s` starts with.
pub open spec fn digit_run(s: Seq<char>) -> nat
    decreases s.len(),
{
    if s.len() > 0 && is_digit(s[0]) {
        1 + digit_run(s.skip(1))
    } else {
        0
    }
}

/// The number that a string of decimal digits writes.
pub open spec fn decimal(s: Seq<char>) -> int
    decreases s.len(),
{
    if s.len() == 0 {
        0
    } else {
        decimal(s.drop_last()) * 10 + (s.last() as u32 - '0' as u32)
    }
}

/// A non-empty string of digits whose number fits an `i32`.
pub open spec fn fits_i32(s: Seq<char>) -> bool {
    s.len() > 0 && decimal(s) <= i32::MAX
}

/// Reading of a word that starts with `(`: `(x,y)` with two decimal numbers.
pub open spec fn vector_literal(w: Seq<char>) -> Result<Token, LexFault> {
    let body = w.skip(1);
    let a = digit_run(body);
    if a == body.len() {
        Err(LexFault::UnexpectedEOF)
    } else if body[a as int] != ',' {
        Err(LexFault::UnknownToken(w))
    } else {
        let rest = body.skip(a + 1int);
        let b = digit_run(rest);
        if b == rest.len() {
            Err(LexFault::UnexpectedEOF)
        } else if rest[b as int] != ')' || rest.len() != b + 1 {
            Err(LexFault::UnknownToken(w))
        } else if fits_i32(body.take(a as int)) && fits_i32(rest.take(b as int)) {
            Ok(Token::Vector(decimal(body.take(a as int)) as i32, decimal(rest.take(b as int)) as i32))
        } else {
            Err(LexFault::UnknownToken(w))
        }
    }
}

/// Reading of a word that starts with a digit: a decimal number, with no
/// suffix or with `px`.
pub open spec fn scalar_literal(w: Seq<char>) -> Result<Token, LexFault> {
    let n = digit_run(w);
    let suffix = w.skip(n as int);
    if !fits_i32(w.take(n as int)) {
        Err(LexFault::UnknownToken(w))
    } else if suffix.len() == 0 {
        Ok(Token::Scalar(decimal(w.take(n as int)) as i32, Unit::Default))
    } else if suffix == seq!['p', 'x'] {
        Ok(Token::Scalar(decimal(w.take(n as int)) as i32, Unit::Pixel))
    } else {
        Err(LexFault::UnknownUnit(suffix))
    }
}

/// The token that one word stands for.
pub open spec fn classify(w: Seq<char>) -> Result<Token, LexFault> {
    if w == seq!['U', 'n', 'i', 't'] {
        Ok(Token::Unit)
    } else if w == seq!['S', 'p', 'i', 'k', 'e'] {
        Ok(Token::Kind(ObjectKind::Spike))
    } else if w == seq!['P', 'l', 'a', 'y', 'e', 'r'] {
        Ok(Token::Kind(player_kind()))
    } else if w == seq!['W', 'a', 'l', 'l'] {
        Ok(Token::Kind(ObjectKind::Wall))
    } else if w == seq!['i', 's'] {
        Ok(Token::Is)
    } else if w == seq!['a', 't'] {
        Ok(Token::At)
    } else if w == ofsize_word() {
        Ok(Token::OfSize)
    } else if w == wiso_word() {
        Ok(Token::WithIS)
    } else if w.len() > 0 && w[0] == '(' {
        vector_literal(w)
    } else if w.len() > 0 && is_digit(w[0]) {
        scalar_literal(w)
    } else {
        Err(LexFault::UnknownToken(w))
    }
}

/// The tokens of `ws`, or the fault of the first word that has none.
pub open spec fn classify_all(ws: Seq<Seq<char>>) -> Result<Seq<Token>, LexFault>
    decreases ws.len(),
{
    if ws.len() == 0 {
        Ok(Seq::empty())
    } else {
        match classify_all(ws.drop_last()) {
            Err(e) => Err(e),
            Ok(ts) => match classify(ws.last()) {
                Ok(t) => Ok(ts.push(t)),
                Err(e) => Err(e),
            },
        }
    }
}

/// The tokens of a level text, closed by [`Token::EndOfFile`].
pub open spec fn lex(text: Seq<char>) -> Result<Seq<Token>, LexFault> {
    match classify_all(merged(words(text))) {
        Ok(ts) => Ok(ts.push(Token::EndOfFile)),
        Err(e) => Err(e),
    }
}

/// Index just past the run of digits that starts at `start`.
fn digits_end(w: &Vec<char>, start: usize) -> (r: usize)
    requires
        start <= w@.len(),
    ensures
        r == start + digit_run(w@.skip(start as int)),
        r <= w@.len(),
        forall|k: int| start <= k < r ==> is_digit(#[trigger] w@[k]),
{
    let mut i: usize = start;
    while i < w.len() && '0' <= w[i] && w[i] <= '9'
        invariant
            start <= i <= w@.len(),
            digit_run(w@.skip(start as int)) == (i - start) + digit_run(w@.skip(i as int)),
            forall|k: int| start <= k < i ==> is_digit(#[trigger] w@[k]),
        decreases w@.len() - i,
    {
        assert(w@.skip(i as int).skip(1) =~= w@.skip(i + 1));
        i = i + 1;
    }
    proof {
        lemma_no_digit_run(w@, i);
    }
    i
}

proof fn lemma_no_digit_run(w: Seq<char>, i: usize)
    requires
        i <= w.len(),
        i == w.len() || !is_digit(w[i as int]),
    ensures
        digit_run(w.skip(i as int)) == 0,
{
}

proof fn lemma_decimal_nonneg(s: Seq<char>)
    requires
        forall|k: int| 0 <= k < s.len() ==> is_digit(#[trigger] s[k]),
    ensures
        decimal(s) >= 0,
    decreases s.len(),
{
    if s.len() > 0 {
        lemma_decimal_nonneg(s.drop_last());
    }
}

/// The number written by the digits of `w` from `from` up to `to`, when it
/// fits an `i32`.
fn decimal_of(w: &Vec<char>, from: usize, to: usize) -> (r: Option<i32>)
    requires
        from <= to <= w@.len(),
        forall|k: int| from <= k < to ==> is_digit(#[trigger] w@[k]),
    ensures
        r is Some <==> fits_i32(w@.subrange(from as int, to as int)),
        r matches Some(v) ==> v == decimal(w@.subrange(from as int, to as int)),
{
    let mut acc: u64 = 0;
    let mut i: usize = from;
    while i < to
        invariant
            from <= i <= to <= w@.len(),
            forall|k: int| from <= k < to ==> is_digit(#[trigger] w@[k]),
            acc <= i32::MAX ==> acc == decimal(w@.subrange(from as int, i as int)),
            acc > i32::MAX ==> decimal(w@.subrange(from as int, i as int)) > i32::MAX,
            acc <= 10 * (i32::MAX as u64) + 9,
        decreases to - i,
    {
        let ghost prev = w@.subrange(from as int, i as int);
        let ghost next = w@.subrange(from as int, i + 1);
        assert(next.drop_last() =~= prev);
        assert(next.last() == w@[i as int]);
        proof {
            lemma_decimal_nonneg(prev);
        }
        let d: u64 = (w[i] as u32 - '0' as u32) as u64;
        if acc <= i32::MAX as u64 {
            acc = acc * 10 + d;
        }
        i = i + 1;
    }
    if i == from || acc > i32::MAX as u64 {
        None
    } else {
        Some(acc as i32)
    }
}

/// Reads a word that starts with `(`.
fn read_vector(w: &Vec<char>) -> (r: Result<Token, TokenizerError>)
    requires
        w@.len() > 0,
        w@[0] == '(',
    ensures
        match r {
            Ok(t) => vector_literal(w@) == Ok::<Token, LexFault>(t),
            Err(e) => vector_literal(w@) == Err::<Token, LexFault>(e@),
        },
{
    let ghost body = w@.skip(1);
    let a_end = digits_end(w, 1);
    assert(w@.skip(1) =~= body);
    if a_end == w.len() {
        return Err(TokenizerError::UnexpectedEOF);
    }
    assert(body[a_end - 1] == w@[a_end as int]);
    if w[a_end] != ',' {
        return Err(TokenizerError::UnknownToken(string_of(w, 0, w.len())));
    }
    let b_start = a_end + 1;
    let ghost rest = body.skip(a_end as int);
    assert(rest =~= w@.skip(b_start as int));
    let b_end = digits_end(w, b_start);
    if b_end == w.len() {
        return Err(TokenizerError::UnexpectedEOF);
    }
    assert(rest[b_end - b_start] == w@[b_end as int]);
    if w[b_end] != ')' || w.len() != b_end + 1 {
        return Err(TokenizerError::UnknownToken(string_of(w, 0, w.len())));
    }
    assert(body.take(a_end - 1) =~= w@.subrange(1, a_end as int));
    assert(rest.take(b_end - b_start) =~= w@.subrange(b_start as int, b_end as int));
    let x = decimal_of(w, 1, a_end);
    let y = decimal_of(w, b_start, b_end);
    match (x, y) {
        (Some(x), Some(y)) => Ok(Token::Vector(x, y)),
        _ => Err(TokenizerError::UnknownToken(string_of(w, 0, w.len()))),
    }
}

/// Reads a word that starts with a digit.
fn read_scalar(w: &Vec<char>) -> (r: Result<Token, TokenizerError>)
    requires
        w@.len() > 0,
        is_digit(w@[0]),
    ensures
        match r {
            Ok(t) => scalar_literal(w@) == Ok::<Token, LexFault>(t),
            Err(e) => scalar_literal(w@) == Err::<Token, LexFault>(e@),
        },
{
    let n = digits_end(w, 0);
    assert(w@.skip(0) =~= w@);
    assert(w@.take(n as int) =~= w@.subrange(0, n as int));
    let ghost suffix = w@.skip(n as int);
    match decimal_of(w, 0, n) {
        None => Err(TokenizerError::UnknownToken(string_of(w, 0, w.len()))),
        Some(v) => {
            if n == w.len() {
                Ok(Token::Scalar(v, Unit::Default))
            } else if w.len() - n == 2 && w[n] == 'p' && w[n + 1] == 'x' {
                assert(suffix =~= seq!['p', 'x']);
                Ok(Token::Scalar(v, Unit::Pixel))
            } else {
                assert(suffix.len() == 2 ==> suffix[0] == w@[n as int] && suffix[1] == w@[n + 1]);
                assert(w@.subrange(n as int, w@.len() as int) =~= suffix);
                Err(TokenizerError::UnknownUnit(string_of(w, n, w.len())))
            }
        },
    }
}

/// The token that one word stands for.
fn classify_word(w: &Vec<char>) -> (r: Result<Token, TokenizerError>)
    ensures
        match r {
            Ok(t) => classify(w@) == Ok::<Token, LexFault>(t),
            Err(e) => classify(w@) == Err::<Token, LexFault>(e@),
        },
{
    if same_chars(w, &vec!['U', 'n', 'i', 't']) {
        Ok(Token::Unit)
    } else if same_chars(w, &vec!['S', 'p', 'i', 'k', 'e']) {
        Ok(Token::Kind(ObjectKind::Spike))
    } else if same_chars(w, &vec!['P', 'l', 'a', 'y', 'e', 'r']) {
        Ok(Token::Kind(ObjectKind::player()))
    } else if same_chars(w, &vec!['W', 'a', 'l', 'l']) {
        Ok(Token::Kind(ObjectKind::Wall))
    } else if same_chars(w, &vec!['i', 's']) {
        Ok(Token::Is)
    } else if same_chars(w, &vec!['a', 't']) {
        Ok(Token::At)
    } else if same_chars(w, &vec!['o', 'f', 's', 'i', 'z', 'e']) {
        Ok(Token::OfSize)
    } else if same_chars(w, &vec!['w', 'i', 's', 'o']) {
        Ok(Token::WithIS)
    } else if w.len() > 0 && w[0] == '(' {
        read_vector(w)
    } else if w.len() > 0 && '0' <= w[0] && w[0] <= '9' {
        read_scalar(w)
    } else {
        Err(TokenizerError::UnknownToken(string_of(w, 0, w.len())))
    }
}

/// The lexer of level texts.
pub struct Tokenizer;

impl Tokenizer {
    /// The tokens of a level text, closed by [`Token::EndOfFile`], or the
    /// fault of its first word that is neither a keyword nor a literal.
    pub fn tokenize(source: &str) -> (r: Result<Vec<Token>, TokenizerError>)
        ensures
            match r {
                Ok(ts) => lex(source@) == Ok::<Seq<Token>, LexFault>(ts@),
                Err(e) => lex(source@) == Err::<Seq<Token>, LexFault>(e@),
            },
    {
        let chars = chars_of(source);
        let ws = words_of(&chars);
        let long_phrase = vec![
            vec!['w', 'i', 't', 'h'],
            vec!['i', 'n', 'i', 't', 'i', 'a', 'l'],
            vec!['s', 'p', 'e', 'e', 'd'],
            vec!['o', 'f'],
        ];
        assert(views(long_phrase@) =~= wiso_phrase());
        let long_word = vec!['w', 'i', 's', 'o'];
        assert(long_word@ =~= wiso_word());
        let ws = Self::collapse(ws, &long_phrase, &long_word);
        let short_phrase = vec![vec!['o', 'f'], vec!['s', 'i', 'z', 'e']];
        assert(views(short_phrase@) =~= ofsize_phrase());
        let short_word = vec!['o', 'f', 's', 'i', 'z', 'e'];
        assert(short_word@ =~= ofsize_word());
        let ws = Self::collapse(ws, &short_phrase, &short_word);
        let ghost all = views(ws@);
        let mut r: Vec<Token> = Vec::new();
        let mut i: usize = 0;
        assert(all.take(0) =~= Seq::<Seq<char>>::empty());
        while i < ws.len()
            invariant
                i <= ws@.len(),
                all == views(ws@),
                all == merged(words(source@)),
                classify_all(all.take(i as int)) == Ok::<Seq<Token>, LexFault>(r@),
            decreases ws@.len() - i,
        {
            assert(all.take(i + 1).drop_last() =~= all.take(i as int));
            assert(all.take(i + 1).last() == ws@[i as int]@);
            match classify_word(&ws[i]) {
                Ok(t) => r.push(t),
                Err(e) => {
                    assert(classify_all(all.take(i + 1)) == Err::<Seq<Token>, LexFault>(e@));
                    proof {
                        lemma_fault_persists(all, i as int + 1);
                    }
                    return Err(e);
                },
            }
            i = i + 1;
        }
        assert(all.take(ws@.len() as int) =~= all);
        r.push(Token::EndOfFile);
        Ok(r)
    }

    /// `source` with every occurrence of the phrase `target` replaced by the
    /// single word `replacement`.
    fn collapse(source: Vec<Vec<char>>, target: &Vec<Vec<char>>, replacement: &Vec<char>) -> (r: Vec<
        Vec<char>,
    >)
        ensures
            views(r@) == collapse(views(source@), views(target@), replacement@),
    {
        let ghost ws = views(source@);
        let ghost t = views(target@);
        let mut r: Vec<Vec<char>> = Vec::new();
        let mut i: usize = 0;
        assert(ws.skip(0) =~= ws);
        assert(views(r@) + ws =~= ws);
        while i < source.len()
            invariant
                i <= source@.len(),
                ws == views(source@),
                t == views(target@),
                collapse(ws, t, replacement@) == views(r@) + collapse(ws.skip(i as int), t, replacement@),
            decreases source@.len() - i,
        {
            let ghost rest = ws.skip(i as int);
            let ghost before = views(r@);
            if target.len() > 0 && phrase_at(&source, i, target) {
                r.push(copy_chars(replacement));
                assert(rest.skip(t.len() as int) =~= ws.skip(i + t.len()));
                assert(views(r@) =~= before + seq![replacement@]);
                i = i + target.len();
            } else {
                r.push(copy_chars(&source[i]));
                assert(rest.skip(1) =~= ws.skip(i + 1));
                assert(rest[0] == source@[i as int]@);
                assert(views(r@) =~= before + seq![rest[0]]);
                i = i + 1;
            }
        }
        assert(ws.skip(source@.len() as int) =~= Seq::<Seq<char>>::empty());
        assert(views(r@) + Seq::<Seq<char>>::empty() =~= views(r@));
        r
    }
}

/// Once a word has no token, no longer sequence of words has one either.
proof fn lemma_fault_persists(ws: Seq<Seq<char>>, n: int)
    requires
        0 <= n <= ws.len(),
        classify_all(ws.take(n)) is Err,
    ensures
        classify_all(ws) == classify_all(ws.take(n)),
    decreases ws.len() - n,
{
    if n < ws.len() {
        assert(ws.take(n + 1).drop_last() =~= ws.take(n));
        lemma_fault_persists(ws, n + 1);
    } else {
        assert(ws.take(n) =~= ws);
    }
}

// ---------------------------------------------------------------------------
// Laws

/// Merging a phrase splits at a word that cannot continue a phrase: no
/// occurrence starting before it runs past it.
proof fn lemma_collapse_split(
    pre: Seq<Seq<char>>,
    post: Seq<Seq<char>>,
    t: Seq<Seq<char>>,
    r: Seq<char>,
)
    requires
        t.len() > 0,
        post.len() > 0,
        forall|k: int| 1 <= k < t.len() ==> post[0] != #[trigger] t[k],
    ensures
        collapse(pre + post, t, r) == collapse(pre, t, r) + collapse(post, t, r),
    decreases pre.len(),
{
    let ws = pre + post;
    let n = t.len() as int;
    if pre.len() == 0 {
        assert(ws =~= post);
        assert(collapse(pre, t, r) + collapse(post, t, r) =~= collapse(post, t, r));
    } else if n <= ws.len() && ws.take(n) == t {
        if n <= pre.len() {
            assert(pre.take(n) =~= ws.take(n));
            assert(ws.skip(n) =~= pre.skip(n) + post);
            lemma_collapse_split(pre.skip(n), post, t, r);
            assert(collapse(ws, t, r) =~= collapse(pre, t, r) + collapse(post, t, r));
        } else {
            let k = pre.len() as int;
            assert(ws.take(n)[k] == post[0]);
            assert(post[0] == t[k]);
        }
    } else {
        if n <= pre.len() && pre.take(n) == t {
            assert(ws.take(n) =~= pre.take(n));
        }
        assert(ws.skip(1) =~= pre.skip(1) + post);
        lemma_collapse_split(pre.skip(1), post, t, r);
        assert(collapse(ws, t, r) =~= collapse(pre, t, r) + collapse(post, t, r));
    }
}

/// The keyword `wiso` cannot continue the phrase `with initial speed of`,
/// and neither can the phrase's own first word.
proof fn lemma_wiso_words()
    ensures
        forall|k: int| 1 <= k < wiso_phrase().len() ==> wiso_word() != #[trigger] wiso_phrase()[k],
        forall|k: int| 1 <= k < wiso_phrase().len() ==> wiso_phrase()[0] != #[trigger] wiso_phrase()[k],
        wiso_word() != wiso_phrase()[0],
{
    let t = wiso_phrase();
    let w = wiso_word();
    assert(w.len() != t[1].len());
    assert(w.len() != t[2].len());
    assert(w[0] != t[3][0]);
    assert(t[0].len() != t[1].len());
    assert(t[0].len() != t[2].len());
    assert(t[0][0] != t[3][0]);
    assert(w[2] != t[0][2]);
}

/// Writing `with initial speed of` or its keyword `wiso` makes no
/// difference: wherever the phrase stands among the words of a level, the
/// merged words, and so the tokens, are those of the keyword.
pub proof fn lemma_phrase_or_keyword(pre: Seq<Seq<char>>, post: Seq<Seq<char>>)
    ensures
        merged(pre + wiso_phrase() + post) == merged(pre + seq![wiso_word()] + post),
        classify_all(merged(pre + wiso_phrase() + post)) == classify_all(
            merged(pre + seq![wiso_word()] + post),
        ),
{
    let t = wiso_phrase();
    let w = wiso_word();
    lemma_wiso_words();
    let long = t + post;
    let short = seq![w] + post;
    assert(pre + t + post =~= pre + long);
    assert(pre + seq![w] + post =~= pre + short);
    assert(long[0] == t[0]);
    assert(short[0] == w);
    lemma_collapse_split(pre, long, t, w);
    lemma_collapse_split(pre, short, t, w);
    assert(long.take(t.len() as int) =~= t);
    assert(long.skip(t.len() as int) =~= post);
    assert(collapse(long, t, w) == seq![w] + collapse(post, t, w));
    if t.len() <= short.len() {
        assert(short.take(t.len() as int)[0] == w);
        assert(short.take(t.len() as int) != t);
    }
    assert(short.skip(1) =~= post);
    assert(collapse(short, t, w) == seq![w] + collapse(post, t, w));
}

/// The kinds that a text names have clips that can advance.
pub proof fn lemma_lexed_kinds_wf(text: Seq<char>)
    ensures
        lex(text) matches Ok(ts) ==> forall|i: int|
            0 <= i < ts.len() ==> (#[trigger] ts[i] matches Token::Kind(k) ==> kind_wf(k)),
{
    lemma_classified_kinds_wf(merged(words(text)));
    if let Ok(ts) = classify_all(merged(words(text))) {
        let all = ts.push(Token::EndOfFile);
        assert forall|i: int| 0 <= i < all.len() implies (#[trigger] all[i] matches Token::Kind(k)
            ==> kind_wf(k)) by {
            if i < ts.len() {
                assert(all[i] == ts[i]);
            }
        }
    }
}

proof fn lemma_classified_kinds_wf(ws: Seq<Seq<char>>)
    ensures
        classify_all(ws) matches Ok(ts) ==> forall|i: int|
            0 <= i < ts.len() ==> (#[trigger] ts[i] matches Token::Kind(k) ==> kind_wf(k)),
    decreases ws.len(),
{
    if ws.len() > 0 {
        lemma_classified_kinds_wf(ws.drop_last());
        assert(kind_wf(player_kind()));
        if let Ok(ts) = classify_all(ws) {
            let head = classify_all(ws.drop_last())->Ok_0;
            assert(ts == head.push(classify(ws.last())->Ok_0));
            assert forall|i: int| 0 <= i < ts.len() implies (#[trigger] ts[i] matches Token::Kind(k)
                ==> kind_wf(k)) by {
                if i < head.len() {
                    assert(ts[i] == head[i]);
                }
            }
        }
    }
}

} // verus!
