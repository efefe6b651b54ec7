use cool_scanner::scanner::tokenize;
use cool_scanner::token::{Error, Keyword, Token, TokenType};

fn scan(text: &str) -> (Vec<Token>, Vec<Error>) {
    tokenize(text.chars().collect())
}

fn kinds(text: &str) -> Vec<TokenType> {
    scan(text).0.into_iter().map(|t| t.kind).collect()
}

fn messages(text: &str) -> Vec<String> {
    scan(text).1.into_iter().map(|e| e.msg).collect()
}

fn object(name: &str) -> TokenType {
    TokenType::ObjectID(name.to_string())
}

fn type_id(name: &str) -> TokenType {
    TokenType::TypeID(name.to_string())
}

fn number(digits: &str) -> TokenType {
    TokenType::IntConst(digits.to_string())
}

fn literal(value: &str) -> TokenType {
    TokenType::StrConst(value.to_string())
}

#[test]
fn empty_input_has_no_tokens() {
    let (tokens, errors) = scan("");
    assert!(tokens.is_empty());
    assert!(errors.is_empty());
}

#[test]
fn whitespace_only_input_has_no_tokens() {
    let (tokens, errors) = scan(" \t\n  \n\t\t \n");
    assert!(tokens.is_empty());
    assert!(errors.is_empty());
}

#[test]
fn class_alone_is_a_keyword() {
    let (tokens, errors) = scan("class");
    assert_eq!(tokens, vec![Token { kind: TokenType::Keyword(Keyword::Class), lineno: 1, pos: 0 }]);
    assert!(errors.is_empty());
}

#[test]
fn keyword_prefix_does_not_split_an_identifier() {
    let (tokens, errors) = scan("classFoo");
    assert_eq!(tokens, vec![Token { kind: object("classFoo"), lineno: 1, pos: 0 }]);
    assert!(errors.is_empty());
}

#[test]
fn digits_then_letters_are_two_tokens() {
    let (tokens, errors) = scan("123abc");
    assert_eq!(
        tokens,
        vec![
            Token { kind: number("123"), lineno: 1, pos: 0 },
            Token { kind: object("abc"), lineno: 1, pos: 3 },
        ]
    );
    assert!(errors.is_empty());
}

#[test]
fn identifiers_may_hold_digits_behind_the_first_letter() {
    assert_eq!(kinds("a1b2 X9"), vec![object("a1b2"), type_id("X9")]);
}

#[test]
fn integer_literals_keep_their_digits() {
    assert_eq!(
        kinds("0 007 99999999999999999999999999"),
        vec![number("0"), number("007"), number("99999999999999999999999999")]
    );
}

#[test]
fn assign_is_one_token() {
    assert_eq!(kinds("<-"), vec![TokenType::Assign]);
}

#[test]
fn double_arrow_is_one_token() {
    assert_eq!(kinds("=>"), vec![TokenType::DArrow]);
}

#[test]
fn less_or_equal_is_one_token() {
    assert_eq!(kinds("<="), vec![TokenType::Le]);
}

#[test]
fn less_than_before_a_letter_stands_alone() {
    let (tokens, errors) = scan("<x");
    assert_eq!(
        tokens,
        vec![
            Token { kind: TokenType::SSymbol('<'), lineno: 1, pos: 0 },
            Token { kind: object("x"), lineno: 1, pos: 1 },
        ]
    );
    assert!(errors.is_empty());
}

#[test]
fn lookahead_character_is_left_for_the_next_token() {
    assert_eq!(
        kinds("<<-"),
        vec![TokenType::SSymbol('<'), TokenType::Assign]
    );
    assert_eq!(
        kinds("=="),
        vec![TokenType::SSymbol('='), TokenType::SSymbol('=')]
    );
    assert_eq!(
        kinds("=<"),
        vec![TokenType::SSymbol('='), TokenType::SSymbol('<')]
    );
    assert_eq!(
        kinds("<=>"),
        vec![TokenType::Le, TokenType::SSymbol('>')]
    );
    assert_eq!(
        kinds("-<"),
        vec![TokenType::SSymbol('-'), TokenType::SSymbol('<')]
    );
}

#[test]
fn symbol_at_the_end_of_input_stands_alone() {
    assert_eq!(kinds("<"), vec![TokenType::SSymbol('<')]);
    assert_eq!(kinds("("), vec![TokenType::SSymbol('(')]);
    assert_eq!(kinds("*"), vec![TokenType::SSymbol('*')]);
    assert_eq!(kinds("="), vec![TokenType::SSymbol('=')]);
}

#[test]
fn every_symbol_stands_alone() {
    let symbols = "{ } ( ) * : < > - @ . = + / ~ ;";
    let expected: Vec<TokenType> = symbols
        .chars()
        .filter(|c| *c != ' ')
        .map(TokenType::SSymbol)
        .collect();
    assert_eq!(expected.len(), 16);
    assert_eq!(kinds(symbols), expected);
    assert!(messages(symbols).is_empty());
}

#[test]
fn nested_comment_is_skipped() {
    let (tokens, errors) = scan("(* a (* nested *) comment *) 42");
    assert_eq!(tokens, vec![Token { kind: number("42"), lineno: 1, pos: 29 }]);
    assert!(errors.is_empty());
}

#[test]
fn comment_ends_only_at_depth_zero() {
    assert_eq!(kinds("(* (* *) 1 *) 2"), vec![number("2")]);
    assert_eq!(kinds("(**)7"), vec![number("7")]);
    assert_eq!(kinds("(* (* (* *) *) *)x(**)y"), vec![object("x"), object("y")]);
}

#[test]
fn consecutive_comments_are_all_skipped() {
    assert_eq!(kinds("(* a *)(* b *) (* c *)\n(* d *) z"), vec![object("z")]);
}

#[test]
fn unterminated_comment_is_reported_once() {
    let (tokens, errors) = scan("(* unterminated");
    assert!(tokens.is_empty());
    assert_eq!(
        errors,
        vec![Error { lineno: 1, pos: 15, msg: "EOF in comment".to_string() }]
    );
}

#[test]
fn comment_opener_followed_by_paren_is_still_open() {
    let (tokens, errors) = scan("(*)");
    assert!(tokens.is_empty());
    assert_eq!(messages("(*)"), vec!["EOF in comment".to_string()]);
    assert_eq!(errors[0].pos, 3);
}

#[test]
fn unterminated_nested_comment_is_reported() {
    let (tokens, errors) = scan("1 (* a (* b *) c\nd");
    assert_eq!(tokens, vec![Token { kind: number("1"), lineno: 1, pos: 0 }]);
    assert_eq!(
        errors,
        vec![Error { lineno: 2, pos: 18, msg: "EOF in comment".to_string() }]
    );
}

#[test]
fn unmatched_comment_close_is_reported_and_scanning_resumes() {
    let (tokens, errors) = scan("a *) b");
    assert_eq!(
        tokens,
        vec![
            Token { kind: object("a"), lineno: 1, pos: 0 },
            Token { kind: object("b"), lineno: 1, pos: 5 },
        ]
    );
    assert_eq!(
        errors,
        vec![Error { lineno: 1, pos: 2, msg: "unmatched comment close".to_string() }]
    );
}

#[test]
fn unterminated_string_is_reported_and_discarded() {
    let (tokens, errors) = scan("\"abc");
    assert!(tokens.is_empty());
    assert_eq!(
        errors,
        vec![Error { lineno: 1, pos: 4, msg: "EOF in string constant".to_string() }]
    );
}

#[test]
fn tokens_before_an_unterminated_string_are_kept() {
    let (tokens, errors) = scan("x <- \"abc");
    assert_eq!(
        tokens,
        vec![
            Token { kind: object("x"), lineno: 1, pos: 0 },
            Token { kind: TokenType::Assign, lineno: 1, pos: 2 },
        ]
    );
    assert_eq!(
        errors,
        vec![Error { lineno: 1, pos: 9, msg: "EOF in string constant".to_string() }]
    );
}

#[test]
fn true_is_a_boolean_literal() {
    let (tokens, errors) = scan("true");
    assert_eq!(tokens, vec![Token { kind: TokenType::BoolConst(true), lineno: 1, pos: 0 }]);
    assert!(errors.is_empty());
}

#[test]
fn capitalised_true_is_a_type_identifier() {
    let (tokens, errors) = scan("True");
    assert_eq!(tokens, vec![Token { kind: type_id("True"), lineno: 1, pos: 0 }]);
    assert!(errors.is_empty());
}

#[test]
fn false_is_a_boolean_literal() {
    assert_eq!(kinds("false"), vec![TokenType::BoolConst(false)]);
    assert_eq!(kinds("False"), vec![type_id("False")]);
    assert_eq!(kinds("fALSE tRUE"), vec![object("fALSE"), object("tRUE")]);
    assert_eq!(kinds("truely falsey"), vec![object("truely"), object("falsey")]);
}

#[test]
fn leading_case_decides_the_kind_of_identifier() {
    assert_eq!(
        kinds("foo Foo fOO FOO x X"),
        vec![
            object("foo"),
            type_id("Foo"),
            object("fOO"),
            type_id("FOO"),
            object("x"),
            type_id("X"),
        ]
    );
}

#[test]
fn every_keyword_is_recognised() {
    let text = "class else fi if in inherits let loop pool then while case esac of new isvoid not";
    let expected = vec![
        Keyword::Class,
        Keyword::Else,
        Keyword::Fi,
        Keyword::If,
        Keyword::In,
        Keyword::Inherits,
        Keyword::Let,
        Keyword::Loop,
        Keyword::Pool,
        Keyword::Then,
        Keyword::While,
        Keyword::Case,
        Keyword::Esac,
        Keyword::Of,
        Keyword::New,
        Keyword::Isvoid,
        Keyword::Not,
    ];
    let expected: Vec<TokenType> = expected.into_iter().map(TokenType::Keyword).collect();
    assert_eq!(kinds(text), expected);
}

#[test]
fn keywords_are_case_sensitive() {
    assert_eq!(
        kinds("Class CLASS cLASS If iF"),
        vec![
            type_id("Class"),
            type_id("CLASS"),
            object("cLASS"),
            type_id("If"),
            object("iF"),
        ]
    );
}

#[test]
fn keyword_with_a_suffix_is_an_identifier() {
    assert_eq!(
        kinds("if1 inn nots esac2 classes"),
        vec![
            object("if1"),
            object("inn"),
            object("nots"),
            object("esac2"),
            object("classes"),
        ]
    );
}

#[test]
fn plain_string_literal() {
    let (tokens, errors) = scan("\"hello world\"");
    assert_eq!(tokens, vec![Token { kind: literal("hello world"), lineno: 1, pos: 0 }]);
    assert!(errors.is_empty());
}

#[test]
fn empty_string_literal() {
    assert_eq!(kinds("\"\""), vec![literal("")]);
}

#[test]
fn escape_sequences_are_resolved() {
    assert_eq!(kinds("\"a\\nb\""), vec![literal("a\nb")]);
    assert_eq!(kinds("\"a\\tb\""), vec![literal("a\tb")]);
    assert_eq!(kinds("\"a\\bb\""), vec![literal("a\u{8}b")]);
    assert_eq!(kinds("\"a\\fb\""), vec![literal("a\u{c}b")]);
    assert_eq!(kinds("\"a\\\\b\""), vec![literal("a\\b")]);
    assert_eq!(kinds("\"a\\\"b\""), vec![literal("a\"b")]);
    assert!(messages("\"\\n\\t\\b\\f\\\\\\\"\"").is_empty());
}

#[test]
fn escaped_quote_does_not_close_the_string() {
    let (tokens, errors) = scan("\"say \\\"hi\\\"\" x");
    assert_eq!(
        tokens,
        vec![
            Token { kind: literal("say \"hi\""), lineno: 1, pos: 0 },
            Token { kind: object("x"), lineno: 1, pos: 13 },
        ]
    );
    assert!(errors.is_empty());
}

#[test]
fn backslash_newline_continues_the_string() {
    let (tokens, errors) = scan("\"ab\\\ncd\" e");
    assert_eq!(
        tokens,
        vec![
            Token { kind: literal("ab\ncd"), lineno: 1, pos: 0 },
            Token { kind: object("e"), lineno: 2, pos: 9 },
        ]
    );
    assert!(errors.is_empty());
}

#[test]
fn string_may_hold_symbols_and_comment_marks() {
    assert_eq!(kinds("\"(* <- *)\""), vec![literal("(* <- *)")]);
}

#[test]
fn null_character_in_string_is_reported() {
    let (tokens, errors) = scan("\"a\0b\" 7");
    assert_eq!(tokens, vec![Token { kind: number("7"), lineno: 1, pos: 6 }]);
    assert_eq!(
        errors,
        vec![Error { lineno: 1, pos: 2, msg: "string contains null character".to_string() }]
    );
}

#[test]
fn escaped_null_character_in_string_is_reported() {
    let (tokens, errors) = scan("\"a\\\0b\" 7");
    assert_eq!(tokens, vec![Token { kind: number("7"), lineno: 1, pos: 7 }]);
    assert_eq!(
        errors,
        vec![Error { lineno: 1, pos: 3, msg: "string contains null character".to_string() }]
    );
}

#[test]
fn malformed_escape_sequence_is_reported() {
    let (tokens, errors) = scan("\"a\\qb\" 7");
    assert_eq!(tokens, vec![Token { kind: number("7"), lineno: 1, pos: 7 }]);
    assert_eq!(
        errors,
        vec![Error { lineno: 1, pos: 2, msg: "malformed escape sequence".to_string() }]
    );
}

#[test]
fn every_error_in_a_string_is_reported_in_order() {
    let (tokens, errors) = scan("\"\0\\x\0");
    assert!(tokens.is_empty());
    assert_eq!(
        errors,
        vec![
            Error { lineno: 1, pos: 1, msg: "string contains null character".to_string() },
            Error { lineno: 1, pos: 2, msg: "malformed escape sequence".to_string() },
            Error { lineno: 1, pos: 4, msg: "string contains null character".to_string() },
            Error { lineno: 1, pos: 5, msg: "EOF in string constant".to_string() },
        ]
    );
}

#[test]
fn backslash_at_the_end_of_input_leaves_the_string_open() {
    let (tokens, errors) = scan("\"ab\\");
    assert!(tokens.is_empty());
    assert_eq!(
        errors,
        vec![Error { lineno: 1, pos: 4, msg: "EOF in string constant".to_string() }]
    );
}

#[test]
fn invalid_character_is_reported_and_skipped() {
    let (tokens, errors) = scan("a # b");
    assert_eq!(
        tokens,
        vec![
            Token { kind: object("a"), lineno: 1, pos: 0 },
            Token { kind: object("b"), lineno: 1, pos: 4 },
        ]
    );
    assert_eq!(
        errors,
        vec![Error { lineno: 1, pos: 2, msg: "invalid character: #".to_string() }]
    );
}

#[test]
fn run_of_invalid_characters_gives_one_diagnostic_each() {
    let (tokens, errors) = scan("#$%1");
    assert_eq!(tokens, vec![Token { kind: number("1"), lineno: 1, pos: 3 }]);
    assert_eq!(
        errors,
        vec![
            Error { lineno: 1, pos: 0, msg: "invalid character: #".to_string() },
            Error { lineno: 1, pos: 1, msg: "invalid character: $".to_string() },
            Error { lineno: 1, pos: 2, msg: "invalid character: %".to_string() },
        ]
    );
}

#[test]
fn null_character_outside_a_string_is_invalid() {
    let (tokens, errors) = scan("a\0b");
    assert_eq!(
        tokens,
        vec![
            Token { kind: object("a"), lineno: 1, pos: 0 },
            Token { kind: object("b"), lineno: 1, pos: 2 },
        ]
    );
    assert_eq!(
        errors,
        vec![Error { lineno: 1, pos: 1, msg: "invalid character: \0".to_string() }]
    );
}

#[test]
fn carriage_return_is_no_white_space() {
    let (tokens, errors) = scan("a\r\nb");
    assert_eq!(
        tokens,
        vec![
            Token { kind: object("a"), lineno: 1, pos: 0 },
            Token { kind: object("b"), lineno: 2, pos: 3 },
        ]
    );
    assert_eq!(
        errors,
        vec![Error { lineno: 1, pos: 1, msg: "invalid character: \r".to_string() }]
    );
}

#[test]
fn underscore_and_non_ascii_letters_are_invalid() {
    assert_eq!(kinds("a_b"), vec![object("a"), object("b")]);
    assert_eq!(messages("a_b"), vec!["invalid character: _".to_string()]);
    assert_eq!(kinds("é"), Vec::<TokenType>::new());
    assert_eq!(messages("é"), vec!["invalid character: é".to_string()]);
}

#[test]
fn lines_are_counted_from_one() {
    let (tokens, _) = scan("a\nb\n\nc d\n");
    assert_eq!(
        tokens,
        vec![
            Token { kind: object("a"), lineno: 1, pos: 0 },
            Token { kind: object("b"), lineno: 2, pos: 2 },
            Token { kind: object("c"), lineno: 4, pos: 5 },
            Token { kind: object("d"), lineno: 4, pos: 7 },
        ]
    );
}

#[test]
fn newlines_in_comments_and_strings_are_counted() {
    let (tokens, errors) = scan("(* one\ntwo *) a \"x\ny\" b #");
    assert_eq!(
        tokens,
        vec![
            Token { kind: object("a"), lineno: 2, pos: 14 },
            Token { kind: literal("x\ny"), lineno: 2, pos: 16 },
            Token { kind: object("b"), lineno: 3, pos: 22 },
        ]
    );
    assert_eq!(
        errors,
        vec![Error { lineno: 3, pos: 24, msg: "invalid character: #".to_string() }]
    );
}

#[test]
fn offsets_count_characters_not_bytes() {
    let (tokens, errors) = scan("é x");
    assert_eq!(tokens, vec![Token { kind: object("x"), lineno: 1, pos: 2 }]);
    assert_eq!(errors[0].pos, 0);
}

#[test]
fn token_offsets_increase_and_lines_never_decrease() {
    let text = "class Main inherits IO {\n  main() : Object { out_string(\"hi\\n\") };\n};\n";
    let (tokens, _) = scan(text);
    assert!(tokens.len() > 10);
    for pair in tokens.windows(2) {
        assert!(pair[0].pos < pair[1].pos);
        assert!(pair[0].lineno <= pair[1].lineno);
    }
}

#[test]
fn scanner_never_yields_an_error_token() {
    let (tokens, errors) = scan("# \"abc\\q\" *) \0 ? (* open");
    assert!(tokens.iter().all(|t| !matches!(t.kind, TokenType::Error(_))));
    assert_eq!(errors.len(), 6);
}

#[test]
fn rescanning_yields_identical_results() {
    let text = "class A { x : Int <- 1; (* c *) \"s\\q\" # *) };\n\"open";
    let first = scan(text);
    let second = scan(text);
    assert_eq!(first.0, second.0);
    assert_eq!(first.1, second.1);
    assert!(!first.0.is_empty());
    assert!(!first.1.is_empty());
}

#[test]
fn small_program() {
    let text = "class Main {\n  x : Int <- 42;\n  f() : Bool { not x <= 7 };\n};";
    let expected = vec![
        TokenType::Keyword(Keyword::Class),
        type_id("Main"),
        TokenType::SSymbol('{'),
        object("x"),
        TokenType::SSymbol(':'),
        type_id("Int"),
        TokenType::Assign,
        number("42"),
        TokenType::SSymbol(';'),
        object("f"),
        TokenType::SSymbol('('),
        TokenType::SSymbol(')'),
        TokenType::SSymbol(':'),
        type_id("Bool"),
        TokenType::SSymbol('{'),
        TokenType::Keyword(Keyword::Not),
        object("x"),
        TokenType::Le,
        number("7"),
        TokenType::SSymbol('}'),
        TokenType::SSymbol(';'),
        TokenType::SSymbol('}'),
        TokenType::SSymbol(';'),
    ];
    assert_eq!(kinds(text), expected);
    assert!(messages(text).is_empty());
}

#[test]
fn case_branch_uses_double_arrow() {
    assert_eq!(
        kinds("case e of x : T => 1; esac"),
        vec![
            TokenType::Keyword(Keyword::Case),
            object("e"),
            TokenType::Keyword(Keyword::Of),
            object("x"),
            TokenType::SSymbol(':'),
            type_id("T"),
            TokenType::DArrow,
            number("1"),
            TokenType::SSymbol(';'),
            TokenType::Keyword(Keyword::Esac),
        ]
    );
}
