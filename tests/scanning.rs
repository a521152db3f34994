use lexer::{Lexer, Literal, Token};

fn scan_all(src: &str) -> Vec<(usize, Token)> {
    let mut lex = Lexer::new(src.to_string());
    let mut out = Vec::new();
    for _ in 0..src.len() + 2 {
        let (end, tok) = lex.next_token();
        let done = tok == Token::EOF;
        out.push((end, tok));
        if done {
            return out;
        }
    }
    panic!("no end-of-input after {} tokens", out.len());
}

fn ident(s: &str) -> Token {
    Token::Ident(s.to_string())
}

fn num(s: &str) -> Token {
    Token::Lit(Literal::Num(s.to_string()))
}

fn text(s: &str) -> Token {
    Token::Lit(Literal::Str(s.to_string()))
}

fn num_value(t: &Token) -> f64 {
    match t {
        Token::Lit(Literal::Num(n)) => n.parse::<f64>().unwrap(),
        other => panic!("not a number: {:?}", other),
    }
}

#[test]
fn every_symbol_alone() {
    let table = [
        ('{', Token::LSquirly),
        ('}', Token::RSquirly),
        ('(', Token::LParen),
        (')', Token::RParen),
        ('[', Token::LBrack),
        (']', Token::RBrack),
        ('<', Token::LAngle),
        ('>', Token::RAngle),
        (',', Token::Comma),
        ('.', Token::Dot),
        ('?', Token::Question),
        (':', Token::Colon),
        (';', Token::SemiColon),
        ('!', Token::Bang),
        ('@', Token::At),
        ('#', Token::Octothorpe),
        ('$', Token::Dollar),
        ('%', Token::Percent),
        ('^', Token::Caret),
        ('&', Token::Ampersand),
        ('*', Token::Asterisk),
        ('-', Token::Dash),
        ('=', Token::Equal),
        ('+', Token::Plus),
        ('|', Token::Pipe),
        ('\\', Token::BSlash),
        ('/', Token::FSlash),
        ('~', Token::Tilde),
        ('`', Token::Grave),
    ];
    for (c, tok) in table {
        assert_eq!(scan_all(&c.to_string()), vec![(1, tok), (1, Token::EOF)], "symbol {:?}", c);
    }
}

#[test]
fn every_keyword_alone() {
    let table = [
        ("let", Token::Let),
        ("mut", Token::Mut),
        ("def", Token::Def),
        ("struct", Token::Struct),
        ("enum", Token::Enum),
        ("object", Token::Object),
        ("if", Token::If),
        ("elif", Token::Elif),
        ("else", Token::Else),
        ("match", Token::Match),
        ("true", Token::True),
        ("false", Token::False),
    ];
    for (w, tok) in table {
        let n = w.len();
        assert_eq!(scan_all(w), vec![(n, tok), (n, Token::EOF)], "keyword {}", w);
    }
}

#[test]
fn keywords_are_case_sensitive() {
    assert_eq!(scan_all("Let"), vec![(3, ident("Let")), (3, Token::EOF)]);
    assert_eq!(scan_all("lets"), vec![(4, ident("lets")), (4, Token::EOF)]);
}

#[test]
fn identifier_then_digit() {
    assert_eq!(
        scan_all("foo1"),
        vec![(3, ident("foo")), (4, num("1")), (4, Token::EOF)]
    );
    assert_eq!(scan_all("x1"), vec![(1, ident("x")), (2, num("1")), (2, Token::EOF)]);
}

#[test]
fn underscore_starts_an_identifier() {
    assert_eq!(scan_all("_a_b"), vec![(4, ident("_a_b")), (4, Token::EOF)]);
}

#[test]
fn four_spaces_after_newline_are_a_tab() {
    assert_eq!(
        scan_all("\n    x"),
        vec![(1, Token::NewLine), (5, Token::Tab), (6, ident("x")), (6, Token::EOF)]
    );
}

#[test]
fn four_spaces_after_tab_are_a_tab() {
    assert_eq!(
        scan_all("\t    x"),
        vec![(1, Token::Tab), (5, Token::Tab), (6, ident("x")), (6, Token::EOF)]
    );
}

#[test]
fn two_spaces_after_newline_are_spaces() {
    assert_eq!(
        scan_all("\n  foo"),
        vec![
            (1, Token::NewLine),
            (2, Token::Space),
            (3, Token::Space),
            (6, ident("foo")),
            (6, Token::EOF)
        ]
    );
}

#[test]
fn spaces_mid_line_never_fold() {
    assert_eq!(
        scan_all("a    b"),
        vec![
            (1, ident("a")),
            (2, Token::Space),
            (3, Token::Space),
            (4, Token::Space),
            (5, Token::Space),
            (6, ident("b")),
            (6, Token::EOF)
        ]
    );
}

#[test]
fn spaces_at_text_start_are_spaces() {
    assert_eq!(
        scan_all("    "),
        vec![
            (1, Token::Space),
            (2, Token::Space),
            (3, Token::Space),
            (4, Token::Space),
            (4, Token::EOF)
        ]
    );
}

#[test]
fn indentation_too_close_to_end_is_end_of_input() {
    assert_eq!(scan_all("\n  "), vec![(1, Token::NewLine), (1, Token::EOF)]);
    assert_eq!(
        scan_all("\n    "),
        vec![(1, Token::NewLine), (5, Token::Tab), (5, Token::EOF)]
    );
}

#[test]
fn decimal_number() {
    let toks = scan_all("3.14");
    assert_eq!(toks, vec![(4, num("3.14")), (4, Token::EOF)]);
    assert_eq!(num_value(&toks[0].1), 3.14);
}

#[test]
fn second_point_ends_the_number() {
    let toks = scan_all("3.1.4");
    assert_eq!(
        toks,
        vec![(3, num("3.1")), (4, Token::Dot), (5, num("4")), (5, Token::EOF)]
    );
    assert_eq!(num_value(&toks[0].1), 3.1);
    assert_eq!(num_value(&toks[2].1), 4.0);
}

#[test]
fn integer_with_trailing_point() {
    let toks = scan_all("12.");
    assert_eq!(toks, vec![(3, num("12.")), (3, Token::EOF)]);
    assert_eq!(num_value(&toks[0].1), 12.0);
}

#[test]
fn double_and_single_quotes_give_same_text() {
    assert_eq!(scan_all("\"hello\""), vec![(7, text("hello")), (7, Token::EOF)]);
    assert_eq!(scan_all("'hello'"), vec![(7, text("hello")), (7, Token::EOF)]);
}

#[test]
fn quote_closes_only_on_its_own_kind() {
    assert_eq!(
        scan_all("'it''s'"),
        vec![(4, text("it")), (7, text("s")), (7, Token::EOF)]
    );
    assert_eq!(scan_all("\"it's\""), vec![(6, text("it's")), (6, Token::EOF)]);
}

#[test]
fn backslash_does_not_escape_a_quote() {
    assert_eq!(
        scan_all("'a\\'b"),
        vec![(4, text("a\\")), (5, ident("b")), (5, Token::EOF)]
    );
}

#[test]
fn empty_string_literal() {
    assert_eq!(scan_all("''"), vec![(2, text("")), (2, Token::EOF)]);
}

#[test]
fn string_literal_keeps_non_ascii_text() {
    assert_eq!(scan_all("'héllo'"), vec![(8, text("héllo")), (8, Token::EOF)]);
}

#[test]
fn unterminated_string_is_end_of_input() {
    let mut lex = Lexer::new("x 'abc".to_string());
    assert_eq!(lex.next_token(), (1, ident("x")));
    assert_eq!(lex.next_token(), (2, Token::Space));
    assert_eq!(lex.next_token(), (2, Token::EOF));
    assert_eq!(lex.next_token(), (2, Token::EOF));
}

#[test]
fn unknown_byte_is_end_of_input() {
    assert_eq!(scan_all("a\u{1}b"), vec![(1, ident("a")), (1, Token::EOF)]);
    assert_eq!(scan_all("a\0b"), vec![(1, ident("a")), (1, Token::EOF)]);
}

#[test]
fn empty_text_is_end_of_input() {
    assert_eq!(scan_all(""), vec![(0, Token::EOF)]);
}

#[test]
fn end_of_input_repeats_at_same_offset() {
    let mut lex = Lexer::new("ab;".to_string());
    assert_eq!(lex.next_token(), (2, ident("ab")));
    assert_eq!(lex.next_token(), (3, Token::SemiColon));
    for _ in 0..5 {
        assert_eq!(lex.next_token(), (3, Token::EOF));
    }
}

#[test]
fn offsets_cover_the_text() {
    let src = "let mut x = 3.5;\n    if x > 2 {\n\tfoo(\"a b\", 'c')\n}";
    let toks = scan_all(src);
    let mut start = 0;
    let mut rebuilt = String::new();
    for (end, tok) in &toks {
        assert!(*end >= start);
        if *end == start {
            assert_eq!(*tok, Token::EOF);
        }
        rebuilt.push_str(&src[start..*end]);
        start = *end;
    }
    assert_eq!(start, src.len());
    assert_eq!(rebuilt, src);
    assert_eq!(toks[0].1, Token::Let);
    assert_eq!(toks[2].1, Token::Mut);
    assert_eq!(toks[8].1, num("3.5"));
    assert_eq!(toks[10].1, Token::NewLine);
    assert_eq!(toks[11].1, Token::Tab);
    assert_eq!(toks[12].1, Token::If);
}

#[test]
fn newline_is_a_token() {
    assert_eq!(
        scan_all("a\nb"),
        vec![(1, ident("a")), (2, Token::NewLine), (3, ident("b")), (3, Token::EOF)]
    );
}

#[test]
fn prev_and_peek() {
    let mut lex = Lexer::new("ab c".to_string());
    assert!(!lex.prev_match(b'a'));
    assert_eq!(lex.peek_match("b"), Some(true));
    assert_eq!(lex.peek_match("b c"), Some(true));
    assert_eq!(lex.peek_match("x"), Some(false));
    assert_eq!(lex.peek_match("b cd"), None);
    lex.next_char();
    assert!(lex.prev_match(b'a'));
    assert!(!lex.prev_match(b'b'));
    assert_eq!(lex.peek_match("  "), Some(false));
    assert_eq!(lex.peek_match("   "), None);
    assert_eq!(lex.peek_match(" c"), Some(true));
}

#[test]
fn next_char_moves_on_past_end() {
    let mut lex = Lexer::new("a".to_string());
    lex.next_char();
    assert!(lex.prev_match(b'a'));
    assert_eq!(lex.next_token(), (1, Token::EOF));
    lex.next_char();
    lex.next_char();
    assert!(!lex.prev_match(b'a'));
    assert_eq!(lex.peek_match(""), None);
    assert_eq!(lex.next_token(), (3, Token::EOF));
    assert_eq!(lex.next_token(), (3, Token::EOF));
}

#[test]
fn next_char_on_empty_text() {
    let mut lex = Lexer::new(String::new());
    lex.next_char();
    assert_eq!(lex.next_token(), (1, Token::EOF));
}

#[test]
fn well_formed_scan_ends_at_text_length() {
    let src = "def f(a, b) {\n\tmatch a { true => 'x', _ => \"y\" }\n}";
    let toks = scan_all(src);
    assert_eq!(toks.last(), Some(&(src.len(), Token::EOF)));
    assert!(toks.len() <= src.len() + 1);
}

#[test]
fn read_helpers_leave_cursor_after_run() {
    let mut lex = Lexer::new("abc_D9".to_string());
    assert_eq!(lex.read_ident(), "abc_D");
    assert_eq!(lex.read_number_literal(), "9");
    assert_eq!(lex.next_token(), (6, Token::EOF));
}

#[test]
fn read_string_literal_stops_on_closing_quote() {
    let mut lex = Lexer::new("\"ab\"c".to_string());
    assert_eq!(lex.read_string_literal(), Some("ab".to_string()));
    assert!(lex.prev_match(b'b'));
    let mut open = Lexer::new("\"ab".to_string());
    assert_eq!(open.read_string_literal(), None);
    assert!(!open.prev_match(b'"'));
}

#[test]
fn read_whitespace_folds_only_at_line_start() {
    let mut lex = Lexer::new("\n    ".to_string());
    lex.next_char();
    assert_eq!(lex.read_whitespace(), Token::Tab);
    let mut mid = Lexer::new("x    ".to_string());
    mid.next_char();
    assert_eq!(mid.read_whitespace(), Token::Space);
}
