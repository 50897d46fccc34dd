use turing::Direction;
use turing::ErrorKind;
use turing::LabelStorage;
use turing::LookAhead;
use turing::Token;
use turing::Tokenizer;
use turing::VecSource;

fn tokenizer_for(text: &str) -> Tokenizer<VecSource<char>> {
    Tokenizer::new(VecSource::new(text.chars().collect()))
}

fn all_tokens(text: &str) -> Vec<Token> {
    let mut tk = tokenizer_for(text);
    let mut out = Vec::new();
    loop {
        match tk.next_token() {
            Ok(Some(t)) => out.push(t),
            Ok(None) => return out,
            Err(e) => panic!("unexpected lexical error: {:?}", e),
        }
    }
}

fn first_error(text: &str) -> (ErrorKind, usize) {
    let mut tk = tokenizer_for(text);
    loop {
        match tk.next_token() {
            Ok(Some(_)) => (),
            Ok(None) => panic!("no error in {:?}", text),
            Err(e) => return (e.kind, e.offset),
        }
    }
}

#[test]
fn scenario_grammar() {
    let toks = all_tokens("if a write b move left goto target");
    assert_eq!(toks.len(), 4);
    assert!(matches!(toks[0], Token::If('a')));
    assert!(matches!(toks[1], Token::Write('b')));
    assert!(matches!(toks[2], Token::Move(Direction::Left)));
    match &toks[3] {
        Token::Goto(label) => assert_eq!(label.as_str(), "target"),
        other => panic!("expected a goto token, got {:?}", other),
    }
}

#[test]
fn goto_target_is_resolved_through_the_store() {
    let mut tk = tokenizer_for("start: goto start");
    let heading = match tk.next_token() {
        Ok(Some(Token::Heading(l))) => l,
        other => panic!("expected a heading, got {:?}", other),
    };
    let target = match tk.next_token() {
        Ok(Some(Token::Goto(l))) => l,
        other => panic!("expected a goto, got {:?}", other),
    };
    assert_eq!(heading, target);
    assert!(matches!(tk.next_token(), Ok(None)));
}

#[test]
fn scenario_keyword_label_ambiguity() {
    let toks = all_tokens("movement: accept");
    assert_eq!(toks.len(), 2);
    match &toks[0] {
        Token::Heading(l) => assert_eq!(l.as_str(), "movement"),
        other => panic!("expected a heading, got {:?}", other),
    }
    assert!(matches!(toks[1], Token::Accept));

    let toks = all_tokens("goto movements");
    match &toks[0] {
        Token::Goto(l) => assert_eq!(l.as_str(), "movements"),
        other => panic!("expected a goto, got {:?}", other),
    }
}

#[test]
fn directions_and_negated_guards() {
    let toks = all_tokens("if not x move right; move left reject");
    assert_eq!(toks.len(), 4);
    assert!(matches!(toks[0], Token::IfNot('x')));
    assert!(matches!(toks[1], Token::Move(Direction::Right)));
    assert!(matches!(toks[2], Token::Move(Direction::Left)));
    assert!(matches!(toks[3], Token::Reject));
}

#[test]
fn hex_escapes_denote_one_character() {
    let toks = all_tokens("write 0x41 if 0x62 accept");
    assert_eq!(toks.len(), 3);
    assert!(matches!(toks[0], Token::Write('A')));
    assert!(matches!(toks[1], Token::If('b')));
    assert!(matches!(toks[2], Token::Accept));
}

#[test]
fn hex_escape_boundary_values() {
    let toks = all_tokens("write 0x10ffff");
    assert!(matches!(toks[0], Token::Write('\u{10FFFF}')));
    let toks = all_tokens("write 0x0");
    assert!(matches!(toks[0], Token::Write('\u{0}')));
    let (kind, _) = first_error("write 0x110000");
    assert_eq!(kind, ErrorKind::MalformedSymbol);
}

#[test]
fn comments_are_insignificant_between_tokens() {
    let toks = all_tokens("if /* guard */ c // trailing\nwrite d");
    assert_eq!(toks.len(), 2);
    assert!(matches!(toks[0], Token::If('c')));
    assert!(matches!(toks[1], Token::Write('d')));
}

#[test]
fn block_comment_inside_a_label_is_elided() {
    let toks = all_tokens("my/* gap */label: accept");
    assert_eq!(toks.len(), 2);
    match &toks[0] {
        Token::Heading(l) => assert_eq!(l.as_str(), "mylabel"),
        other => panic!("expected a heading, got {:?}", other),
    }

    let toks = all_tokens("goto simple sample /* note */");
    match &toks[0] {
        Token::Goto(l) => assert_eq!(l.as_str(), "simple sample"),
        other => panic!("expected a goto, got {:?}", other),
    }
}

#[test]
fn empty_input_is_exhausted_immediately_and_stays_so() {
    let mut tk = tokenizer_for("   ;; \n // only trivia\n");
    assert!(matches!(tk.next_token(), Ok(None)));
    assert!(matches!(tk.next_token(), Ok(None)));
    let mut empty = tokenizer_for("");
    assert!(matches!(empty.next_token(), Ok(None)));
}

#[test]
fn malformed_symbol_errors() {
    let (kind, offset) = first_error("write 0xg");
    assert_eq!(kind, ErrorKind::MalformedSymbol);
    assert_eq!(offset, 6);

    let (kind, _) = first_error("write 0x110000");
    assert_eq!(kind, ErrorKind::MalformedSymbol);

    let (kind, _) = first_error("write 0xD800");
    assert_eq!(kind, ErrorKind::MalformedSymbol);
}

#[test]
fn unterminated_block_comment_errors() {
    let (kind, offset) = first_error("/* never closed");
    assert_eq!(kind, ErrorKind::UnterminatedBlockComment);
    assert_eq!(offset, 0);

    let (kind, offset) = first_error("accept /* gone");
    assert_eq!(kind, ErrorKind::UnterminatedBlockComment);
    assert_eq!(offset, 7);
}

#[test]
fn reserved_word_conflict_errors() {
    let (kind, offset) = first_error("goto move on");
    assert_eq!(kind, ErrorKind::ReservedWordConflict);
    assert_eq!(offset, 5);

    let (kind, _) = first_error("move/* */ fast: accept");
    assert_eq!(kind, ErrorKind::ReservedWordConflict);
}

#[test]
fn unexpected_end_of_stream_errors() {
    let (kind, offset) = first_error("if");
    assert_eq!(kind, ErrorKind::UnexpectedEndOfStream);
    assert_eq!(offset, 2);

    let (kind, _) = first_error("goto ");
    assert_eq!(kind, ErrorKind::UnexpectedEndOfStream);

    let (kind, _) = first_error("unfinished heading");
    assert_eq!(kind, ErrorKind::UnexpectedEndOfStream);
}

#[test]
fn unexpected_character_errors() {
    let (kind, offset) = first_error(": accept");
    assert_eq!(kind, ErrorKind::UnexpectedCharacter);
    assert_eq!(offset, 0);

    let (kind, _) = first_error("goto ;");
    assert_eq!(kind, ErrorKind::UnexpectedCharacter);
}

#[test]
fn expected_direction_errors() {
    let (kind, offset) = first_error("move up");
    assert_eq!(kind, ErrorKind::ExpectedDirection);
    assert_eq!(offset, 5);
}

#[test]
fn interning_while_scanning_counts_handles() {
    let mut tk = tokenizer_for("goto place; goto place");
    let a = match tk.next_token() {
        Ok(Some(Token::Goto(l))) => l,
        other => panic!("expected a goto, got {:?}", other),
    };
    let b = match tk.next_token() {
        Ok(Some(Token::Goto(l))) => l,
        other => panic!("expected a goto, got {:?}", other),
    };
    assert_eq!(a, b);
    assert!(matches!(tk.next_token(), Ok(None)));
}

#[test]
fn with_buffers_reuses_a_store() {
    let mut store = LabelStorage::new();
    let outside = store.get_or_add("shared");
    let buffer = LookAhead::new(VecSource::new("goto shared".chars().collect()));
    let mut tk = Tokenizer::with_buffers(buffer, store);
    match tk.next_token() {
        Ok(Some(Token::Goto(l))) => assert_eq!(l, outside),
        other => panic!("expected a goto, got {:?}", other),
    }
}

#[test]
fn full_block_sample() {
    let sample = "\nsimple sample:\n    if a write b move left goto simple sample\n    if b move left write a goto simple sample // comment here\n    reject\n";
    let toks = all_tokens(sample);
    assert_eq!(toks.len(), 10);
    match &toks[0] {
        Token::Heading(l) => assert_eq!(l.as_str(), "simple sample"),
        other => panic!("expected a heading, got {:?}", other),
    }
    assert!(matches!(toks[1], Token::If('a')));
    assert!(matches!(toks[2], Token::Write('b')));
    assert!(matches!(toks[3], Token::Move(Direction::Left)));
    match &toks[4] {
        Token::Goto(l) => assert_eq!(l.as_str(), "simple sample"),
        other => panic!("expected a goto, got {:?}", other),
    }
    assert!(matches!(toks[5], Token::If('b')));
    assert!(matches!(toks[6], Token::Move(Direction::Left)));
    assert!(matches!(toks[7], Token::Write('a')));
    match &toks[8] {
        Token::Goto(l) => assert_eq!(l.as_str(), "simple sample"),
        other => panic!("expected a goto, got {:?}", other),
    }
    assert!(matches!(toks[9], Token::Reject));
}

#[test]
fn transition_record_holds_its_fields() {
    let t = turing::Transition::new(0, 1, 'a', 'b', Direction::Left);
    assert_eq!(t.from, 0);
    assert_eq!(t.goto, 1);
    assert_eq!(t.read, 'a');
    assert_eq!(t.write, 'b');
    assert!(matches!(t.next, Direction::Left));
}
