use runner::geometry::Vec2;
use runner::interpretor::Interpretor;
use runner::object::ObjectKind;
use runner::tokenizer::{Token, Tokenizer, TokenizerError, Unit};
use runner::world::{LevelError, World};

const PX: i64 = 1000;

fn load(text: &str) -> World {
    let tokens = Tokenizer::tokenize(text).expect("tokens");
    Interpretor::interpret(tokens).expect("level")
}

#[test]
fn keywords_and_literals() {
    let tokens = Tokenizer::tokenize("Unit is (10,20)\nWall at (2,3) ofsize (4,5) wiso 7px").unwrap();
    assert_eq!(
        tokens,
        vec![
            Token::Unit,
            Token::Is,
            Token::Vector(10, 20),
            Token::Kind(ObjectKind::Wall),
            Token::At,
            Token::Vector(2, 3),
            Token::OfSize,
            Token::Vector(4, 5),
            Token::WithIS,
            Token::Scalar(7, Unit::Pixel),
            Token::EndOfFile,
        ]
    );
}

#[test]
fn empty_text_is_only_end_of_file() {
    assert_eq!(Tokenizer::tokenize("").unwrap(), vec![Token::EndOfFile]);
    assert_eq!(Tokenizer::tokenize("\n\n# nothing\n").unwrap(), vec![Token::EndOfFile]);
}

#[test]
fn comments_blank_lines_and_spaces_in_parentheses() {
    let tokens = Tokenizer::tokenize("# a comment with Nonsense\n\n  Spike   at ( 12 , 3 )  \n").unwrap();
    assert_eq!(
        tokens,
        vec![Token::Kind(ObjectKind::Spike), Token::At, Token::Vector(12, 3), Token::EndOfFile]
    );
}

#[test]
fn phrases_are_merged() {
    let tokens = Tokenizer::tokenize("Wall of size (1,2) with initial speed of 3").unwrap();
    assert_eq!(
        tokens,
        vec![
            Token::Kind(ObjectKind::Wall),
            Token::OfSize,
            Token::Vector(1, 2),
            Token::WithIS,
            Token::Scalar(3, Unit::Default),
            Token::EndOfFile,
        ]
    );
}

#[test]
fn phrase_and_keyword_read_alike() {
    let long = Tokenizer::tokenize("Player with initial speed of 5").unwrap();
    let short = Tokenizer::tokenize("Player wiso 5").unwrap();
    assert_eq!(long, short);
    let a = Interpretor::interpret(long).unwrap();
    let b = Interpretor::interpret(short).unwrap();
    assert_eq!(a.objects.len(), 1);
    assert_eq!(a.objects[0].speed, b.objects[0].speed);
    assert_eq!(a.objects[0].speed, Vec2::new(5 * PX, 0));
    assert_eq!(a.objects[0].position, b.objects[0].position);
    assert_eq!(a.objects[0].size, b.objects[0].size);
}

#[test]
fn player_keyword_makes_a_player() {
    let tokens = Tokenizer::tokenize("Player").unwrap();
    assert_eq!(tokens, vec![Token::Kind(ObjectKind::player()), Token::EndOfFile]);
    assert_eq!(ObjectKind::from("Player"), ObjectKind::player());
    assert_eq!(ObjectKind::from("Spike"), ObjectKind::Spike);
    assert_eq!(ObjectKind::from("Anything"), ObjectKind::Wall);
}

#[test]
fn unknown_word_is_refused() {
    match Tokenizer::tokenize("Wall at (1,2)\nTree") {
        Err(TokenizerError::UnknownToken(w)) => assert_eq!(w, "Tree"),
        other => panic!("unexpected {:?}", other),
    }
    match Tokenizer::tokenize("(1,2)x") {
        Err(TokenizerError::UnknownToken(w)) => assert_eq!(w, "(1,2)x"),
        other => panic!("unexpected {:?}", other),
    }
    match Tokenizer::tokenize("(a,2)") {
        Err(TokenizerError::UnknownToken(w)) => assert_eq!(w, "(a,2)"),
        other => panic!("unexpected {:?}", other),
    }
}

#[test]
fn first_fault_wins() {
    match Tokenizer::tokenize("Tree 5m") {
        Err(TokenizerError::UnknownToken(w)) => assert_eq!(w, "Tree"),
        other => panic!("unexpected {:?}", other),
    }
}

#[test]
fn unterminated_vector_is_unexpected_end() {
    assert!(matches!(Tokenizer::tokenize("Wall at (1,2"), Err(TokenizerError::UnexpectedEOF)));
    assert!(matches!(Tokenizer::tokenize("(3"), Err(TokenizerError::UnexpectedEOF)));
    assert!(matches!(Tokenizer::tokenize("("), Err(TokenizerError::UnexpectedEOF)));
}

#[test]
fn unknown_unit_is_refused() {
    match Tokenizer::tokenize("Wall wiso 5pt") {
        Err(TokenizerError::UnknownUnit(u)) => assert_eq!(u, "pt"),
        other => panic!("unexpected {:?}", other),
    }
    match Tokenizer::tokenize("5m") {
        Err(TokenizerError::UnknownUnit(u)) => assert_eq!(u, "m"),
        other => panic!("unexpected {:?}", other),
    }
}

#[test]
fn numbers_beyond_i32_are_refused() {
    assert_eq!(
        Tokenizer::tokenize("2147483647").unwrap(),
        vec![Token::Scalar(2147483647, Unit::Default), Token::EndOfFile]
    );
    match Tokenizer::tokenize("2147483648") {
        Err(TokenizerError::UnknownToken(w)) => assert_eq!(w, "2147483648"),
        other => panic!("unexpected {:?}", other),
    }
    match Tokenizer::tokenize("(1,99999999999)") {
        Err(TokenizerError::UnknownToken(w)) => assert_eq!(w, "(1,99999999999)"),
        other => panic!("unexpected {:?}", other),
    }
}

#[test]
fn unit_scales_positions() {
    let w = load("Unit is (10,20)\nWall at (2,3)");
    assert_eq!(w.objects.len(), 1);
    assert_eq!(w.objects[0].position, Vec2::new(20 * PX, 60 * PX));
}

#[test]
fn at_sets_size_to_unit_first() {
    let w = load("Unit is (10,20)\nWall at (2,3)\nSpike");
    assert_eq!(w.objects[0].size, Vec2::new(10 * PX, 20 * PX));
    // An object with no clause keeps the default thirty-pixel size.
    assert_eq!(w.objects[1].size, Vec2::new(30 * PX, 30 * PX));
    assert_eq!(w.objects[1].kind, ObjectKind::Spike);
}

#[test]
fn size_clause_is_scaled() {
    let w = load("Unit is (2,3)\nWall ofsize (5,7)");
    assert_eq!(w.objects[0].size, Vec2::new(10 * PX, 21 * PX));
}

#[test]
fn speed_in_units_or_pixels() {
    let w = load("Unit is (10,20)\nPlayer wiso 3\nWall wiso 3px");
    assert_eq!(w.objects[0].speed, Vec2::new(30 * PX, 0));
    assert_eq!(w.objects[1].speed, Vec2::new(3 * PX, 0));
}

#[test]
fn scenario_level_parses() {
    let w = load("Unit is (1,1)\nPlayer at (0,0)\nWall at (0,40) ofsize (1000,20)\nSpike at (100,30)\n");
    assert_eq!(w.objects.len(), 3);
    assert_eq!(w.objects[0].position, Vec2::new(0, 0));
    assert_eq!(w.objects[1].position, Vec2::new(0, 40 * PX));
    assert_eq!(w.objects[1].size, Vec2::new(1000 * PX, 20 * PX));
    assert_eq!(w.objects[2].position, Vec2::new(100 * PX, 30 * PX));
    assert!(w.objects[0].is_player());
    assert!(w.is_playing());
    assert_eq!(w.camera, Vec2::new(0, 0));
}

#[test]
fn one_object_per_kind() {
    let texts = [
        ("Wall", 1),
        ("Unit is (3,3)\nUnit is (1,2)\nWall Spike Wall", 3),
        ("Player at (1,1) wiso 2\nWall at (0,5) ofsize (10,1)\nSpike at (4,4)\nSpike", 4),
        ("# only comments\nWall\n\n# and one wall", 1),
    ];
    for (text, count) in texts {
        assert_eq!(load(text).objects.len(), count, "{}", text);
    }
}

#[test]
fn missing_vector_is_a_parse_error() {
    let tokens = Tokenizer::tokenize("Player at").unwrap();
    let err = Interpretor::interpret(tokens).unwrap_err();
    assert_eq!(err.unexpected, Token::EndOfFile);
    assert_eq!(err.expected, vec![Token::Vector(0, 0)]);
}

#[test]
fn unit_needs_a_vector() {
    let err = Interpretor::interpret(Tokenizer::tokenize("Unit is Wall").unwrap()).unwrap_err();
    assert_eq!(err.unexpected, Token::Kind(ObjectKind::Wall));
    assert_eq!(err.expected, vec![Token::Vector(0, 0)]);
    let err = Interpretor::interpret(Tokenizer::tokenize("Unit (1,1)").unwrap()).unwrap_err();
    assert_eq!(err.unexpected, Token::Vector(1, 1));
    assert_eq!(err.expected, vec![Token::Is]);
}

#[test]
fn level_must_start_with_unit_or_kind() {
    let err = Interpretor::interpret(Tokenizer::tokenize("at (1,1)").unwrap()).unwrap_err();
    assert_eq!(err.unexpected, Token::At);
    assert_eq!(
        err.expected,
        vec![
            Token::Unit,
            Token::Kind(ObjectKind::player()),
            Token::Kind(ObjectKind::Wall),
            Token::Kind(ObjectKind::Spike),
        ]
    );
    let err = Interpretor::interpret(Tokenizer::tokenize("").unwrap()).unwrap_err();
    assert_eq!(err.unexpected, Token::EndOfFile);
}

#[test]
fn unit_after_an_object_is_refused() {
    let err = Interpretor::interpret(Tokenizer::tokenize("Wall\nUnit is (2,2)").unwrap()).unwrap_err();
    assert_eq!(err.unexpected, Token::Unit);
    assert_eq!(err.expected.len(), 7);
    assert_eq!(err.expected[6], Token::EndOfFile);
}

#[test]
fn speed_needs_a_scalar() {
    let err = Interpretor::interpret(Tokenizer::tokenize("Wall wiso (1,1)").unwrap()).unwrap_err();
    assert_eq!(err.unexpected, Token::Vector(1, 1));
    assert_eq!(err.expected, vec![Token::Scalar(0, Unit::Default), Token::Scalar(0, Unit::Pixel)]);
}

#[test]
fn nothing_after_the_end() {
    let tokens = vec![Token::Kind(ObjectKind::Wall), Token::EndOfFile, Token::EndOfFile];
    let err = Interpretor::interpret(tokens).unwrap_err();
    assert_eq!(err.unexpected, Token::EndOfFile);
    assert_eq!(err.expected, vec![Token::EndOfFile]);
}

#[test]
fn huge_coordinates_saturate() {
    let w = load("Unit is (2147483647,1)\nWall at (2147483647,1)");
    assert_eq!(w.objects[0].position, Vec2::new(i64::MAX, PX));
}

#[test]
fn level_text_loads_or_says_why() {
    let w = World::from_source("Unit is (2,2)\nWall at (1,1)\nSpike").unwrap();
    assert_eq!(w.objects.len(), 2);
    assert_eq!(w.objects[0].position, Vec2::new(2 * PX, 2 * PX));
    assert!(w.is_playing());
    match World::from_source("Wall at (1,") {
        Err(LevelError::Tokenizer(TokenizerError::UnexpectedEOF)) => {},
        other => panic!("unexpected {:?}", other),
    }
    match World::from_source("Player at") {
        Err(LevelError::Interpretor(e)) => assert_eq!(e.expected, vec![Token::Vector(0, 0)]),
        other => panic!("unexpected {:?}", other),
    }
}
