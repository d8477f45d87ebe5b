use keyword_lexer::lexer::Lexer;
use keyword_lexer::token::{is_strict_reserved, Token, TokenType};

/// Lexes the first identifier-or-keyword token of `src`, the way the outer
/// tokenizer loop would: consume the first character, then resolve.
/// Returns the token and the cursor position the lexer was left at.
fn lex(src: &str) -> (Token, usize) {
    let chars: Vec<char> = src.chars().collect();
    let mut lx = Lexer::new(chars);
    let first = lx.advance().expect("source must not be empty");
    let tok = lx.resolve_ident_or_keyword(first);
    let pos = lx.pos;
    (tok, pos)
}

fn all_keywords() -> Vec<(&'static str, TokenType)> {
    vec![
        ("break", TokenType::Break),
        ("case", TokenType::Case),
        ("catch", TokenType::Catch),
        ("class", TokenType::Class),
        ("continue", TokenType::Continue),
        ("debugger", TokenType::Debugger),
        ("default", TokenType::Default),
        ("delete", TokenType::Delete),
        ("do", TokenType::Do),
        ("else", TokenType::Else),
        ("enum", TokenType::Enum),
        ("export", TokenType::Export),
        ("extends", TokenType::Extends),
        ("false", TokenType::False),
        ("finally", TokenType::Finally),
        ("for", TokenType::For),
        ("function", TokenType::Function),
        ("if", TokenType::If),
        ("implements", TokenType::Implements),
        ("import", TokenType::Import),
        ("in", TokenType::In),
        ("instanceof", TokenType::Instanceof),
        ("interface", TokenType::Interface),
        ("new", TokenType::New),
        ("null", TokenType::Null),
        ("package", TokenType::Package),
        ("private", TokenType::Private),
        ("protected", TokenType::Protected),
        ("public", TokenType::Public),
        ("return", TokenType::Return),
        ("static", TokenType::Static),
        ("super", TokenType::Super),
        ("switch", TokenType::Switch),
        ("this", TokenType::This),
        ("throw", TokenType::Throw),
        ("try", TokenType::Try),
        ("typeof", TokenType::Typeof),
        ("void", TokenType::Void),
        ("while", TokenType::While),
        ("with", TokenType::With),
        ("yield", TokenType::Yield),
        ("let", TokenType::DeclarationLet),
        ("await", TokenType::Await),
    ]
}

#[test]
fn every_keyword_at_end_of_input() {
    for (word, expected) in all_keywords() {
        let (tok, pos) = lex(word);
        assert_eq!(tok.token_type, expected, "word: {}", word);
        assert_eq!(tok.start, 0, "word: {}", word);
        assert_eq!(tok.end, word.len(), "word: {}", word);
        assert_eq!(pos, word.len(), "word: {}", word);
    }
}

#[test]
fn every_keyword_before_non_continuation_character() {
    for (word, expected) in all_keywords() {
        let src = format!("{};", word);
        let (tok, pos) = lex(&src);
        assert_eq!(tok.token_type, expected, "word: {}", word);
        assert_eq!(tok.start, 0, "word: {}", word);
        assert_eq!(tok.end, word.len(), "word: {}", word);
        // The cursor is left on the boundary character, not past it.
        assert_eq!(pos, word.len(), "word: {}", word);
    }
}

#[test]
fn every_keyword_extended_by_continuation_character() {
    // No reserved word extends another by a trailing 'q' or '_', so each of
    // these longer runs must resolve as one identifier spanning everything.
    for (word, _) in all_keywords() {
        for suffix in ["q", "_", "9"] {
            let src = format!("{}{}", word, suffix);
            let (tok, pos) = lex(&src);
            assert_eq!(tok.token_type, TokenType::Identifier, "src: {}", src);
            assert_eq!(tok.start, 0, "src: {}", src);
            assert_eq!(tok.end, word.len() + 1, "src: {}", src);
            assert_eq!(pos, word.len() + 1, "src: {}", src);
        }
    }
}

#[test]
fn keyword_extended_scenario() {
    let (tok, pos) = lex("breaking");
    assert_eq!(tok.token_type, TokenType::Identifier);
    assert_eq!((tok.start, tok.end), (0, 8));
    assert_eq!(pos, 8);
}

#[test]
fn strict_prefix_of_keyword_is_identifier() {
    for src in ["br", "br;", "cla", "cla ", "de", "fo!", "retur;", "awai"] {
        let (tok, _) = lex(src);
        let expected_len = src
            .chars()
            .take_while(|c| c.is_ascii_alphanumeric() || *c == '_' || *c == '$')
            .count();
        assert_eq!(tok.token_type, TokenType::Identifier, "src: {}", src);
        assert_eq!(tok.start, 0, "src: {}", src);
        assert_eq!(tok.end, expected_len, "src: {}", src);
    }
}

#[test]
fn lowercase_non_keyword_is_identifier() {
    for src in ["brk", "foo", "klass", "xyz", "inn", "letter", "awaits"] {
        let (tok, _) = lex(src);
        assert_eq!(tok.token_type, TokenType::Identifier, "src: {}", src);
        assert_eq!(tok.start, 0, "src: {}", src);
        assert_eq!(tok.end, src.len(), "src: {}", src);
    }
}

#[test]
fn non_lowercase_start_matches_plain_identifier_scan() {
    for src in ["_foo", "$bar", "Foo", "Break", "X", "_", "$9a"] {
        let (tok, pos) = lex(src);

        // Resolving must coincide with running the identifier scanner
        // directly from offset 0.
        let chars: Vec<char> = src.chars().collect();
        let mut direct = Lexer::new(chars);
        let _ = direct.advance();
        let scanned = direct.resolve_identifier(0);

        assert_eq!(tok.token_type, TokenType::Identifier, "src: {}", src);
        assert_eq!(tok, scanned, "src: {}", src);
        assert_eq!(pos, direct.pos, "src: {}", src);
    }
}

#[test]
fn relexing_same_input_is_deterministic() {
    for src in ["in", "instanceof", "int", "return;", "breaking", "_foo", "do it"] {
        let (tok1, pos1) = lex(src);
        let (tok2, pos2) = lex(src);
        assert_eq!(tok1, tok2, "src: {}", src);
        assert_eq!(pos1, pos2, "src: {}", src);
    }
}

#[test]
fn shared_prefix_keywords_all_reachable() {
    let (tok, _) = lex("in");
    assert_eq!(tok.token_type, TokenType::In);
    assert_eq!((tok.start, tok.end), (0, 2));

    let (tok, _) = lex("instanceof");
    assert_eq!(tok.token_type, TokenType::Instanceof);
    assert_eq!((tok.start, tok.end), (0, 10));

    let (tok, _) = lex("interface");
    assert_eq!(tok.token_type, TokenType::Interface);
    assert_eq!((tok.start, tok.end), (0, 9));

    let (tok, _) = lex("int");
    assert_eq!(tok.token_type, TokenType::Identifier);
    assert_eq!((tok.start, tok.end), (0, 3));

    let (tok, _) = lex("ins");
    assert_eq!(tok.token_type, TokenType::Identifier);
    assert_eq!((tok.start, tok.end), (0, 3));

    let (tok, _) = lex("instanceofs");
    assert_eq!(tok.token_type, TokenType::Identifier);
    assert_eq!((tok.start, tok.end), (0, 11));
}

#[test]
fn strict_reserved_words_lexed_unconditionally() {
    // "let x": `let` gets its own token type regardless of context;
    // strict-mode legality is the parser's business, not this stage's.
    let chars: Vec<char> = "let x".chars().collect();
    let mut lx = Lexer::new(chars);
    let first = lx.advance().unwrap();
    let tok = lx.resolve_ident_or_keyword(first);
    assert_eq!(tok.token_type, TokenType::DeclarationLet);
    assert_eq!((tok.start, tok.end), (0, 3));
    assert_eq!(lx.pos, 3);

    let space = lx.advance().unwrap();
    assert_eq!(space, ' ');
    let x = lx.advance().unwrap();
    assert_eq!(x, 'x');
    let tok = lx.resolve_ident_or_keyword(x);
    assert_eq!(tok.token_type, TokenType::Identifier);
    assert_eq!((tok.start, tok.end), (4, 5));

    let (tok, _) = lex("await");
    assert_eq!(tok.token_type, TokenType::Await);
    assert_eq!((tok.start, tok.end), (0, 5));
}

#[test]
fn strict_reserved_set_is_exactly_let_and_await() {
    assert!(is_strict_reserved(TokenType::DeclarationLet));
    assert!(is_strict_reserved(TokenType::Await));
    assert!(!is_strict_reserved(TokenType::Identifier));
    for (_, t) in all_keywords() {
        let expected = t == TokenType::DeclarationLet || t == TokenType::Await;
        assert_eq!(is_strict_reserved(t), expected);
    }
}

#[test]
fn return_before_semicolon_and_extended() {
    let (tok, pos) = lex("return;");
    assert_eq!(tok.token_type, TokenType::Return);
    assert_eq!((tok.start, tok.end), (0, 6));
    // The cursor is left just before the ';'.
    assert_eq!(pos, 6);

    let (tok, pos) = lex("returning");
    assert_eq!(tok.token_type, TokenType::Identifier);
    assert_eq!((tok.start, tok.end), (0, 9));
    assert_eq!(pos, 9);
}

#[test]
fn keyword_at_nonzero_offset() {
    let chars: Vec<char> = "a do".chars().collect();
    let mut lx = Lexer::new(chars);
    let a = lx.advance().unwrap();
    let tok = lx.resolve_ident_or_keyword(a);
    assert_eq!(tok.token_type, TokenType::Identifier);
    assert_eq!((tok.start, tok.end), (0, 1));

    let space = lx.advance().unwrap();
    assert_eq!(space, ' ');
    let d = lx.advance().unwrap();
    let tok = lx.resolve_ident_or_keyword(d);
    assert_eq!(tok.token_type, TokenType::Do);
    assert_eq!((tok.start, tok.end), (2, 4));
    assert_eq!(lx.pos, 4);
}

#[test]
fn identifier_run_stops_at_non_continuation() {
    let (tok, pos) = lex("a1_$z()");
    assert_eq!(tok.token_type, TokenType::Identifier);
    assert_eq!((tok.start, tok.end), (0, 5));
    assert_eq!(pos, 5);

    let (tok, pos) = lex("x");
    assert_eq!(tok.token_type, TokenType::Identifier);
    assert_eq!((tok.start, tok.end), (0, 1));
    assert_eq!(pos, 1);
}

#[test]
fn keyword_lookup_requires_exact_spelling() {
    let chars: Vec<char> = "breaks".chars().collect();
    let lx = Lexer::new(chars);
    assert_eq!(lx.resolve_keyword(0, 5), Some(TokenType::Break));
    assert_eq!(lx.resolve_keyword(0, 6), None);
    assert_eq!(lx.resolve_keyword(0, 4), None);
    assert_eq!(lx.resolve_keyword(1, 5), None);
    assert_eq!(lx.resolve_keyword(0, 0), None);
}

#[test]
fn peek_does_not_consume_and_advance_consumes() {
    let chars: Vec<char> = "if".chars().collect();
    let mut lx = Lexer::new(chars);
    assert_eq!(lx.peek(), Some('i'));
    assert_eq!(lx.peek(), Some('i'));
    assert_eq!(lx.pos, 0);
    assert_eq!(lx.advance(), Some('i'));
    assert_eq!(lx.advance(), Some('f'));
    assert_eq!(lx.advance(), None);
    assert_eq!(lx.peek(), None);
    assert_eq!(lx.pos, 2);
}
