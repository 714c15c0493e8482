use limonite::lexer::Lexer;
use limonite::tokens::{Keywords, Symbols, Token, Types};

fn lex_all(src: &str) -> Vec<Token> {
    let mut lexer = Lexer::new(src);
    let mut out = Vec::new();
    while let Some(tok) = lexer.next() {
        out.push(tok);
    }
    out
}

#[test]
fn test_decimal_literal() {
    assert_eq!(
        lex_all("12345"),
        vec![Token::Numeric("12345".to_string(), None)]
    );
    assert_eq!(lex_all("7"), vec![Token::Numeric("7".to_string(), None)]);
    assert_eq!(
        lex_all("1_000"),
        vec![Token::Numeric("1_000".to_string(), None)]
    );
}

#[test]
fn test_zero_literals() {
    assert_eq!(
        lex_all("0"),
        vec![Token::Error("Invalid number type None".to_string())]
    );
    assert_eq!(
        lex_all("01"),
        vec![
            Token::Error("Invalid number type Some('1')".to_string()),
            Token::Numeric("1".to_string(), None),
        ]
    );
}

#[test]
fn test_hex_literal() {
    assert_eq!(
        lex_all("0xAB12"),
        vec![Token::Numeric("0xAB12".to_string(), None)]
    );
    assert_eq!(
        lex_all("0x1_f"),
        vec![Token::Numeric("0x1_f".to_string(), None)]
    );
    assert_eq!(
        lex_all("0x"),
        vec![Token::Error("No hexadecimal value was found.".to_string())]
    );
}

#[test]
fn test_binary_literal() {
    assert_eq!(
        lex_all("0b1010"),
        vec![Token::Numeric("0b1010".to_string(), None)]
    );
    assert_eq!(
        lex_all("0b"),
        vec![Token::Error("No binary value was found.".to_string())]
    );
    assert_eq!(
        lex_all("0b11u64"),
        vec![Token::Numeric("0b11".to_string(), Some(Types::UInt64Bit))]
    );
}

#[test]
fn test_suffix_roundtrip() {
    assert_eq!(
        lex_all("42i32"),
        vec![Token::Numeric("42".to_string(), Some(Types::Int32Bit))]
    );
    assert_eq!(
        lex_all("42i3"),
        vec![Token::Error("Hit EOF when looking for suffix i32.".to_string())]
    );
    assert_eq!(
        lex_all("42i65"),
        vec![Token::Error("Invalid suffix i65. Did you mean i64?".to_string())]
    );
}

#[test]
fn test_more_suffixes() {
    assert_eq!(
        lex_all("42u64"),
        vec![Token::Numeric("42".to_string(), Some(Types::UInt64Bit))]
    );
    assert_eq!(
        lex_all("42u3x"),
        vec![Token::Error("Invalid suffix u3x. Did you mean u32?".to_string())]
    );
    assert_eq!(
        lex_all("42z"),
        vec![Token::Error(
            "Invalid suffix z. Did you mean u32, u64, i32, or i64?".to_string()
        )]
    );
    assert_eq!(
        lex_all("0x1g"),
        vec![Token::Error(
            "Invalid suffix g. Did you mean u32, u64, i32, or i64?".to_string()
        )]
    );
    assert_eq!(
        lex_all("42i"),
        vec![Token::Error(
            "Hit EOF when looking for a suffix i32 or i64.".to_string()
        )]
    );
    assert_eq!(
        lex_all("42i3\n"),
        vec![
            Token::Error("Invalid suffix i3. Did you mean i32?".to_string()),
            Token::Indent(0),
        ]
    );
    assert_eq!(
        lex_all("42i\n"),
        vec![
            Token::Error("Invalid suffix i. Did you mean i32 or i64?".to_string()),
            Token::Indent(0),
        ]
    );
}

#[test]
fn test_float_fraction() {
    assert_eq!(
        lex_all("1."),
        vec![Token::Error(
            "No numbers found after the decimal point.".to_string()
        )]
    );
    assert_eq!(lex_all("1.0"), vec![Token::Numeric("1.0".to_string(), None)]);
    assert_eq!(
        lex_all("1.5f64"),
        vec![Token::Numeric("1.5".to_string(), Some(Types::Float64Bit))]
    );
    assert_eq!(
        lex_all("1.5x"),
        vec![Token::Error("Invalid suffix x. Did you mean f32, f64?".to_string())]
    );
}

#[test]
fn test_indentation() {
    assert_eq!(
        lex_all("\n\t\tfoo"),
        vec![Token::Indent(2), Token::Identifier("foo".to_string())]
    );
    assert_eq!(lex_all("\n"), vec![Token::Indent(0)]);
}

#[test]
fn test_out_of_place_tab() {
    assert_eq!(
        lex_all("\tx"),
        vec![
            Token::Error("Found an out of place tab.".to_string()),
            Token::Identifier("x".to_string()),
        ]
    );
}

#[test]
fn test_comment_single_line() {
    assert_eq!(
        lex_all(">> hi\n"),
        vec![Token::Comment(" hi".to_string()), Token::Indent(0)]
    );
    assert_eq!(lex_all(">>"), vec![Token::Comment(String::new())]);
}

#[test]
fn test_comment_multi_line() {
    assert_eq!(
        lex_all(">>> body <<<"),
        vec![Token::Comment(" body ".to_string())]
    );
    assert_eq!(
        lex_all(">>> <<a<<<"),
        vec![Token::Comment(" <<a".to_string())]
    );
    assert_eq!(
        lex_all(">>> unterminated"),
        vec![Token::Error(
            "Hit eof before end of multi-line comment.".to_string()
        )]
    );
}

#[test]
fn test_string_and_char_escapes() {
    assert_eq!(
        lex_all("\"a\\nb\""),
        vec![Token::StrLiteral("a\nb".to_string())]
    );
    assert_eq!(lex_all("'\\''"), vec![Token::CharLiteral('\'')]);
    assert_eq!(
        lex_all("''"),
        vec![Token::Error("Empty character literal is invalid.".to_string())]
    );
}

#[test]
fn test_literal_edges() {
    assert_eq!(
        lex_all("\"abc"),
        vec![Token::Error("Hit EOF before end of string literal.".to_string())]
    );
    assert_eq!(
        lex_all("'ab"),
        vec![Token::Error("Char literal was not closed with a '".to_string())]
    );
    assert_eq!(
        lex_all("'\\q'"),
        vec![
            Token::Error("Unknown character escape: \\q".to_string()),
            Token::Error("Hit eof before end of character literal.".to_string()),
        ]
    );
    assert_eq!(
        lex_all("\"a\rb\""),
        vec![Token::StrLiteral("ab".to_string())]
    );
    assert_eq!(
        lex_all("\"two\nlines\""),
        vec![Token::StrLiteral("two\nlines".to_string())]
    );
}

#[test]
fn test_keywords_and_booleans() {
    assert_eq!(
        lex_all("if x True False var"),
        vec![
            Token::Keyword(Keywords::If),
            Token::Identifier("x".to_string()),
            Token::BoolLiteral(true),
            Token::BoolLiteral(false),
            Token::Keyword(Keywords::Var),
        ]
    );
    assert_eq!(
        lex_all("_private fn9"),
        vec![
            Token::Identifier("_private".to_string()),
            Token::Identifier("fn9".to_string()),
        ]
    );
}

#[test]
fn test_symbol_maximal_munch() {
    assert_eq!(lex_all("-="), vec![Token::Symbol(Symbols::MinusEquals)]);
    assert_eq!(lex_all("->"), vec![Token::Symbol(Symbols::RightThinArrow)]);
    assert_eq!(lex_all("-"), vec![Token::Symbol(Symbols::Minus)]);
}

#[test]
fn test_symbols() {
    assert_eq!(
        lex_all("( ) [ ] { } . , : ^ ~ ="),
        vec![
            Token::Symbol(Symbols::ParenOpen),
            Token::Symbol(Symbols::ParenClose),
            Token::Symbol(Symbols::SBracketOpen),
            Token::Symbol(Symbols::SBracketClose),
            Token::Symbol(Symbols::CBracketOpen),
            Token::Symbol(Symbols::CBracketClose),
            Token::Symbol(Symbols::Period),
            Token::Symbol(Symbols::Comma),
            Token::Symbol(Symbols::Colon),
            Token::Symbol(Symbols::Caret),
            Token::Symbol(Symbols::Tilde),
            Token::Symbol(Symbols::Equals),
        ]
    );
    assert_eq!(
        lex_all("+= *= /= %= + * / %"),
        vec![
            Token::Symbol(Symbols::PlusEquals),
            Token::Symbol(Symbols::AsteriskEquals),
            Token::Symbol(Symbols::SlashEquals),
            Token::Symbol(Symbols::PercentEquals),
            Token::Symbol(Symbols::Plus),
            Token::Symbol(Symbols::Asterisk),
            Token::Symbol(Symbols::Slash),
            Token::Symbol(Symbols::Percent),
        ]
    );
    assert_eq!(
        lex_all("> >= < <="),
        vec![
            Token::Symbol(Symbols::GreaterThan),
            Token::Symbol(Symbols::GreaterThanEqual),
            Token::Symbol(Symbols::LessThan),
            Token::Symbol(Symbols::LessThanEqual),
        ]
    );
}

#[test]
fn test_unknown_character() {
    assert_eq!(
        lex_all("@"),
        vec![Token::Error("Unknown character (@).".to_string())]
    );
}

#[test]
fn test_relex_deterministic() {
    let src = "fn foo(bar: i32) -> str\n\t>> note\n\tvar x = 0x42u32\n\t'\\n' \"s\" 1.5f32 @";
    let first = lex_all(src);
    let second = lex_all(src);
    assert_eq!(first, second);
}

#[test]
fn test_exhausted_after_end() {
    let mut lexer = Lexer::new("a");
    assert_eq!(lexer.next(), Some(Token::Identifier("a".to_string())));
    assert_eq!(lexer.next(), None);
    assert_eq!(lexer.next(), None);
}

#[test]
fn test_position_tracking() {
    let mut lexer = Lexer::new("a\nbb");
    assert_eq!(lexer.position(), (1, 1));
    lexer.next();
    assert_eq!(lexer.position(), (1, 2));
    lexer.next();
    assert_eq!(lexer.position(), (2, 1));
    lexer.next();
    assert_eq!(lexer.position(), (2, 3));
}

#[test]
fn test_unicode_input() {
    assert_eq!(
        lex_all("héllo"),
        vec![Token::Identifier("héllo".to_string())]
    );
    assert_eq!(
        lex_all("a\u{00A0}b"),
        vec![
            Token::Identifier("a".to_string()),
            Token::Identifier("b".to_string()),
        ]
    );
}

#[test]
fn test_empty_and_blank_input() {
    assert_eq!(lex_all(""), Vec::<Token>::new());
    assert_eq!(lex_all("   \r "), Vec::<Token>::new());
}

#[test]
fn test_table_lookups() {
    assert_eq!(
        Keywords::lookup(&"while".to_string()),
        Some(Keywords::While)
    );
    assert_eq!(Keywords::lookup(&"spam".to_string()), None);
    assert_eq!(Types::lookup(&"i32".to_string()), Some(Types::Int32Bit));
    assert_eq!(Types::lookup(&"f64".to_string()), Some(Types::Float64Bit));
    assert_eq!(Types::lookup(&"None".to_string()), Some(Types::NoneType));
    assert_eq!(Types::lookup(&"blob".to_string()), None);
}
