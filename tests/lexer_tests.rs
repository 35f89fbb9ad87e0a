use interpreter::tokens::{
    AddToken, AssignToken, BangToken, CharToken, CommaToken, DivToken, ElseToken,
    EndOfInputToken, EqualityToken, FalseToken, FunctionToken, GreaterThanToken, IdToken,
    IfToken, IllegalToken, LBraceToken, LParenToken, LessThanToken, LetToken, MinusToken,
    MultToken, NotEqualToken, NumberToken, RBraceToken, RParenToken, RealToken, ReturnToken,
    SemiToken, TrueToken,
};
use interpreter::{scan, LexError, Lexer, Token};

fn integer(s: &str) -> Token {
    Token::Integer(NumberToken { value: s.to_string() })
}

fn decimal(s: &str) -> Token {
    Token::Real(RealToken { value: s.to_string() })
}

fn ident(s: &str) -> Token {
    Token::Identifier(IdToken { value: s.to_string() })
}

fn end() -> Token {
    Token::EndOfInput(EndOfInputToken {})
}

#[test]
fn test_next_token() {
    let input = String::from(
        "let five = 5;
 let ten = 10;
 let add = fn(x,y) {
     x + y;
 };

 let result = add(five, ten);
!-/*5;
5 < 10 > 5;
if (5 < 10) {
    return true;
} else {
    return false;
}
10 == 10;
5 != 10;
",
    );
    let mut l = Lexer::new(input);
    let expected = vec![
        Token::Let(LetToken {}),
        ident("five"),
        Token::Assign(AssignToken {}),
        integer("5"),
        Token::Semicolon(SemiToken {}),
        Token::Let(LetToken {}),
        ident("ten"),
        Token::Assign(AssignToken {}),
        integer("10"),
        Token::Semicolon(SemiToken {}),
        Token::Let(LetToken {}),
        ident("add"),
        Token::Assign(AssignToken {}),
        Token::Function(FunctionToken {}),
        Token::LParen(LParenToken {}),
        ident("x"),
        Token::Comma(CommaToken {}),
        ident("y"),
        Token::RParen(RParenToken {}),
        Token::LBrace(LBraceToken {}),
        ident("x"),
        Token::Plus(AddToken {}),
        ident("y"),
        Token::Semicolon(SemiToken {}),
        Token::RBrace(RBraceToken {}),
        Token::Semicolon(SemiToken {}),
        Token::Let(LetToken {}),
        ident("result"),
        Token::Assign(AssignToken {}),
        ident("add"),
        Token::LParen(LParenToken {}),
        ident("five"),
        Token::Comma(CommaToken {}),
        ident("ten"),
        Token::RParen(RParenToken {}),
        Token::Semicolon(SemiToken {}),
        Token::Bang(BangToken {}),
        Token::Minus(MinusToken {}),
        Token::Slash(DivToken {}),
        Token::Asterisk(MultToken {}),
        integer("5"),
        Token::Semicolon(SemiToken {}),
        integer("5"),
        Token::LessThan(LessThanToken {}),
        integer("10"),
        Token::GreaterThan(GreaterThanToken {}),
        integer("5"),
        Token::Semicolon(SemiToken {}),
        Token::If(IfToken {}),
        Token::LParen(LParenToken {}),
        integer("5"),
        Token::LessThan(LessThanToken {}),
        integer("10"),
        Token::RParen(RParenToken {}),
        Token::LBrace(LBraceToken {}),
        Token::Return(ReturnToken {}),
        Token::True(TrueToken {}),
        Token::Semicolon(SemiToken {}),
        Token::RBrace(RBraceToken {}),
        Token::Else(ElseToken {}),
        Token::LBrace(LBraceToken {}),
        Token::Return(ReturnToken {}),
        Token::False(FalseToken {}),
        Token::Semicolon(SemiToken {}),
        Token::RBrace(RBraceToken {}),
        integer("10"),
        Token::Equal(EqualityToken {}),
        integer("10"),
        Token::Semicolon(SemiToken {}),
        integer("5"),
        Token::NotEqual(NotEqualToken {}),
        integer("10"),
        Token::Semicolon(SemiToken {}),
    ];

    expected.iter().for_each(|token| {
        let t = l.read_next_token().unwrap();
        println!("{:?}", t);
        assert_eq!(token, &t);
    })
}

#[test]
fn simple_math_expressions() {
    let minus = String::from("1 - 2");
    let mult = String::from("1 * 2");
    let divide = String::from("1 / 2");
    let res_minus = scan(minus).unwrap();
    let res_mult = scan(mult).unwrap();
    let res_divide = scan(divide).unwrap();

    assert_eq!(res_minus.len(), 3);
    assert_eq!(res_mult.len(), 3);
    assert_eq!(res_divide.len(), 3);
}

#[test]
fn simple_binop() {
    let plus = String::from("1 + 2");
    let res_plus = scan(plus).unwrap();
    assert_eq!(res_plus.len(), 3);

    let one_enum = res_plus.get(0).unwrap();
    let one = &integer("1");
    assert_eq!(one_enum, one);

    assert_eq!(res_plus.get(1).unwrap(), &Token::Plus(AddToken {}));

    let two = &integer("2");
    assert_eq!(res_plus.get(2).unwrap(), two);
}

#[test]
/// the string contains some weird spacing just to make sure it works
fn with_parens() {
    let parens = String::from("(1+2  )*   3");
    let tokens = scan(parens).unwrap();
    assert_eq!(tokens.len(), 7);

    assert_eq!(tokens.get(0).unwrap(), &Token::LParen(LParenToken {}));
    assert_eq!(tokens.get(1).unwrap(), &integer("1"));
    assert_eq!(tokens.get(2).unwrap(), &Token::Plus(AddToken {}));
    assert_eq!(tokens.get(3).unwrap(), &integer("2"));
    assert_eq!(tokens.get(4).unwrap(), &Token::RParen(RParenToken {}));
    assert_eq!(tokens.get(5).unwrap(), &Token::Asterisk(MultToken {}));
    assert_eq!(tokens.get(6).unwrap(), &integer("3"));
}

#[test]
fn simple_variable_initialization() {
    let test = String::from("let x = 5;");
    let res = scan(test).unwrap();

    assert_eq!(res.len(), 5);
    assert!(matches!(res.get(0).unwrap(), Token::Let(_)));

    assert_eq!(res.get(1).unwrap(), &ident("x"));

    assert!(matches!(res.get(2).unwrap(), Token::Assign(_)));

    assert_eq!(res.get(3).unwrap(), &integer("5"));

    assert!(matches!(res.get(4).unwrap(), Token::Semicolon(_)));
}

#[test]
fn simple_char_variable() {
    let tokens = scan(String::from("let x='a';")).unwrap();

    assert_eq!(tokens.len(), 5);
    assert!(matches!(tokens.get(0).unwrap(), Token::Let(_)));
    assert_eq!(tokens.get(1).unwrap(), &ident("x"));
}

#[test]
fn equality_not_equal() {
    let tokens = scan(String::from("1 == 2")).unwrap();

    assert_eq!(tokens.len(), 3);
    assert!(matches!(tokens.get(1).unwrap(), Token::Equal(_)));
}

#[test]
fn char_literal_full_sequence() {
    let tokens = scan(String::from("let x='a';")).unwrap();
    assert_eq!(
        tokens,
        vec![
            Token::Let(LetToken {}),
            ident("x"),
            Token::Assign(AssignToken {}),
            Token::Char(CharToken { value: 'a' }),
            Token::Semicolon(SemiToken {}),
        ]
    );
}

#[test]
fn not_equal_and_single_operators() {
    let tokens = scan(String::from("1 != 2")).unwrap();
    assert_eq!(tokens, vec![integer("1"), Token::NotEqual(NotEqualToken {}), integer("2")]);

    let tokens = scan(String::from("1 == 2")).unwrap();
    assert_eq!(tokens, vec![integer("1"), Token::Equal(EqualityToken {}), integer("2")]);

    let tokens = scan(String::from("x = !y")).unwrap();
    assert_eq!(
        tokens,
        vec![ident("x"), Token::Assign(AssignToken {}), Token::Bang(BangToken {}), ident("y")]
    );

    let tokens = scan(String::from("= =")).unwrap();
    assert_eq!(tokens, vec![Token::Assign(AssignToken {}), Token::Assign(AssignToken {})]);

    let tokens = scan(String::from("!")).unwrap();
    assert_eq!(tokens, vec![Token::Bang(BangToken {})]);
}

#[test]
fn malformed_char_literals_abort() {
    assert_eq!(scan(String::from("''")), Err(LexError::MalformedCharLiteral));
    assert_eq!(scan(String::from("'a")), Err(LexError::MalformedCharLiteral));
    assert_eq!(scan(String::from("let c = 'ab';")), Err(LexError::MalformedCharLiteral));

    let mut l = Lexer::new(String::from("x ''"));
    assert_eq!(l.read_next_token(), Ok(ident("x")));
    assert_eq!(l.read_next_token(), Err(LexError::MalformedCharLiteral));
}

#[test]
fn whitespace_only_input() {
    assert_eq!(scan(String::from("")), Ok(vec![]));
    assert_eq!(scan(String::from(" \t\n  ")), Ok(vec![]));

    let mut l = Lexer::new(String::from("   "));
    assert_eq!(l.read_next_token(), Ok(end()));
}

#[test]
fn reserved_words_and_prefixes() {
    assert_eq!(scan(String::from("if")), Ok(vec![Token::If(IfToken {})]));
    assert_eq!(scan(String::from("let")), Ok(vec![Token::Let(LetToken {})]));
    assert_eq!(scan(String::from("true")), Ok(vec![Token::True(TrueToken {})]));
    assert_eq!(scan(String::from("false")), Ok(vec![Token::False(FalseToken {})]));
    assert_eq!(scan(String::from("else")), Ok(vec![Token::Else(ElseToken {})]));
    assert_eq!(scan(String::from("return")), Ok(vec![Token::Return(ReturnToken {})]));
    assert_eq!(scan(String::from("fn")), Ok(vec![Token::Function(FunctionToken {})]));
    assert_eq!(scan(String::from("iffy")), Ok(vec![ident("iffy")]));
    assert_eq!(scan(String::from("letter")), Ok(vec![ident("letter")]));
    assert_eq!(scan(String::from("fn_1 x2")), Ok(vec![ident("fn_1"), ident("x2")]));
}

#[test]
fn numbers_integer_and_real() {
    assert_eq!(scan(String::from("42")), Ok(vec![integer("42")]));
    assert_eq!(scan(String::from("3.14")), Ok(vec![decimal("3.14")]));
    assert_eq!(
        scan(String::from("12+3.5)")),
        Ok(vec![
            integer("12"),
            Token::Plus(AddToken {}),
            decimal("3.5"),
            Token::RParen(RParenToken {}),
        ])
    );
    // A `.` not followed by a digit does not belong to the number.
    assert_eq!(scan(String::from("7.")), Ok(vec![integer("7"), Token::Illegal(IllegalToken {})]));
    // A second `.` ends the number.
    assert_eq!(
        scan(String::from("1.2.3")),
        Ok(vec![decimal("1.2"), Token::Illegal(IllegalToken {}), integer("3")])
    );
}

#[test]
fn illegal_characters_do_not_stop_the_scan() {
    assert_eq!(
        scan(String::from("a @ b # 1")),
        Ok(vec![
            ident("a"),
            Token::Illegal(IllegalToken {}),
            ident("b"),
            Token::Illegal(IllegalToken {}),
            integer("1"),
        ])
    );
    // Carriage return is not whitespace in this grammar.
    assert_eq!(scan(String::from("\r")), Ok(vec![Token::Illegal(IllegalToken {})]));
}

#[test]
fn end_of_input_repeats() {
    let mut l = Lexer::new(String::from("x"));
    assert_eq!(l.read_next_token(), Ok(ident("x")));
    assert_eq!(l.read_next_token(), Ok(end()));
    assert_eq!(l.read_next_token(), Ok(end()));
    assert_eq!(l.read_next_token(), Ok(end()));
}

#[test]
fn scan_equals_pulling() {
    let text = "let f = fn(a, b) { return a * 2.5 <= b; }; 'z' ~";
    let batch = scan(String::from(text)).unwrap();
    let mut l = Lexer::new(String::from(text));
    let mut pulled = Vec::new();
    let mut calls = 0;
    loop {
        calls += 1;
        assert!(calls <= text.len() + 1);
        let t = l.read_next_token().unwrap();
        if t == end() {
            break;
        }
        pulled.push(t);
    }
    assert_eq!(batch, pulled);
    assert_eq!(batch.len(), 22);
}

#[test]
fn token_values() {
    assert_eq!(integer("12").value(), Some("12".to_string()));
    assert_eq!(decimal("1.5").value(), Some("1.5".to_string()));
    assert_eq!(ident("abc").value(), Some("abc".to_string()));
    assert_eq!(Token::Char(CharToken { value: 'q' }).value(), Some("q".to_string()));
    assert_eq!(Token::Equal(EqualityToken {}).value(), Some("==".to_string()));
    assert_eq!(Token::NotEqual(NotEqualToken {}).value(), Some("!=".to_string()));
    assert_eq!(Token::Let(LetToken {}).value(), Some("let".to_string()));
    assert_eq!(Token::If(IfToken {}).value(), Some("if".to_string()));
    assert_eq!(Token::Function(FunctionToken {}).value(), Some("fn".to_string()));
    assert_eq!(Token::Semicolon(SemiToken {}).value(), Some(";".to_string()));
    assert_eq!(Token::Illegal(IllegalToken {}).value(), None);
    assert_eq!(end().value(), None);
}

#[test]
fn lexer_cursor_primitives() {
    let mut l = Lexer::new(String::from("a=b"));
    assert_eq!(l.current(), Some('a'));
    assert_eq!(l.peek_next(), Some('='));
    l.read_char();
    assert_eq!(l.current(), Some('='));
    l.read_char();
    assert_eq!(l.current(), Some('b'));
    assert_eq!(l.peek_next(), None);
    l.read_char();
    assert_eq!(l.current(), None);
    l.read_char();
    assert_eq!(l.current(), None);

    let mut w = Lexer::new(String::from(" \t\nz"));
    w.skip_whitespace();
    assert_eq!(w.current(), Some('z'));
}

#[test]
fn unicode_input_is_decoded_by_character() {
    assert_eq!(
        scan(String::from("'é' é")),
        Ok(vec![Token::Char(CharToken { value: 'é' }), Token::Illegal(IllegalToken {})])
    );
}
