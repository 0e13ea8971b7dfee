use pipeline_lexer::lexer::{strip_final_newline, LexError, Lexer};
use pipeline_lexer::token::Token;

fn lex(input: &str) -> Result<Vec<Token>, LexError> {
    let mut lexer = Lexer { input: input.to_string(), position: 0, line: 0, column: 0 };
    lexer.all_tokens()
}

fn tokens(input: &str) -> Vec<(String, String)> {
    lex(input)
        .expect("input should scan")
        .into_iter()
        .map(|t| (t.token_type, t.value))
        .collect()
}

fn pair(kind: &str, text: &str) -> (String, String) {
    (kind.to_string(), text.to_string())
}

#[test]
fn if_statement_scenario() {
    let ts = lex("if (x >= 10) { return x; }").unwrap();
    let expected = [
        ("if", "if", 1),
        ("(", "(", 4),
        ("identifier", "x", 5),
        (">=", ">=", 7),
        ("integerLiteral", "10", 10),
        (")", ")", 12),
        ("{", "{", 14),
        ("return", "return", 16),
        ("identifier", "x", 23),
        (";", ";", 24),
        ("}", "}", 26),
        ("eof", "", 27),
    ];
    assert_eq!(ts.len(), expected.len());
    for (t, (kind, text, column)) in ts.iter().zip(expected.iter()) {
        assert_eq!(t.token_type, *kind);
        assert_eq!(t.value, *text);
        assert_eq!(t.line, 1);
        assert_eq!(t.column, *column);
    }
}

#[test]
fn unterminated_string_scenario() {
    let ts = lex("\"abc").unwrap();
    assert_eq!(ts.len(), 2);
    assert_eq!((ts[0].token_type.as_str(), ts[0].value.as_str()), ("unknown", ""));
    assert_eq!((ts[0].line, ts[0].column), (1, 1));
    assert_eq!(ts[1].token_type, "eof");
    assert_eq!((ts[1].line, ts[1].column), (1, 5));
}

#[test]
fn exponent_number_scenario() {
    assert_eq!(tokens("12.5e-3"), vec![pair("integerLiteral", "12.5e-3"), pair("eof", "")]);
}

#[test]
fn rune_scenario() {
    assert_eq!(tokens("'z'"), vec![pair("runeLiteral", "z"), pair("eof", "")]);
}

#[test]
fn bare_pipe_scenario() {
    assert_eq!(
        tokens("a|b"),
        vec![
            pair("identifier", "a"),
            pair("unknown", "|b"),
            pair("identifier", "b"),
            pair("eof", ""),
        ]
    );
}

#[test]
fn bare_pipe_at_end_of_input() {
    assert_eq!(tokens("|"), vec![pair("unknown", "|\0"), pair("eof", "")]);
}

#[test]
fn two_character_operators_are_munched_whole() {
    for op in ["==", "!=", "<=", ">=", "&&", "||", "++", "--"] {
        let input = format!("a {} b", op);
        assert_eq!(
            tokens(&input),
            vec![pair("identifier", "a"), pair(op, op), pair("identifier", "b"), pair("eof", "")],
            "operator {}",
            op
        );
    }
}

#[test]
fn single_character_operators() {
    assert_eq!(
        tokens("= ! < > + - * / . &"),
        vec![
            pair("=", "="),
            pair("!", "!"),
            pair("<", "<"),
            pair(">", ">"),
            pair("+", "+"),
            pair("-", "-"),
            pair("*", "*"),
            pair("/", "/"),
            pair(".", "."),
            pair("&", "&"),
            pair("eof", ""),
        ]
    );
}

#[test]
fn mixed_operator_pairs_stay_apart() {
    assert_eq!(
        tokens("+-*+&|"),
        vec![
            pair("+", "+"),
            pair("-", "-"),
            pair("*", "*"),
            pair("+", "+"),
            pair("&", "&"),
            pair("unknown", "|\0"),
            pair("eof", ""),
        ]
    );
}

#[test]
fn negative_number_is_two_tokens() {
    assert_eq!(tokens("-12"), vec![pair("-", "-"), pair("integerLiteral", "12"), pair("eof", "")]);
}

#[test]
fn every_keyword_gets_its_own_kind() {
    let words = [
        "integer", "rune", "string", "boolean", "user", "repo", "ciConfig", "deployment",
        "manifest", "if", "else", "while", "void", "var", "complex", "return", "command", "func",
    ];
    for w in words {
        assert_eq!(tokens(w), vec![pair(w, w), pair("eof", "")]);
    }
}

#[test]
fn keyword_prefix_is_an_identifier() {
    assert_eq!(tokens("iffy"), vec![pair("identifier", "iffy"), pair("eof", "")]);
    assert_eq!(tokens("var_1"), vec![pair("identifier", "var_1"), pair("eof", "")]);
}

#[test]
fn boolean_literals() {
    assert_eq!(
        tokens("true false truth"),
        vec![
            pair("booleanLiteral", "true"),
            pair("booleanLiteral", "false"),
            pair("identifier", "truth"),
            pair("eof", ""),
        ]
    );
}

#[test]
fn delimiters() {
    assert_eq!(
        tokens("(){};,"),
        vec![
            pair("(", "("),
            pair(")", ")"),
            pair("{", "{"),
            pair("}", "}"),
            pair(";", ";"),
            pair(",", ","),
            pair("eof", ""),
        ]
    );
}

#[test]
fn string_literal_drops_quotes() {
    assert_eq!(tokens("\"lulz\" x"), vec![
        pair("stringLiteral", "lulz"),
        pair("identifier", "x"),
        pair("eof", ""),
    ]);
}

#[test]
fn string_cut_by_newline_is_unknown_and_keeps_the_line() {
    let ts = lex("\"ab\ncd").unwrap();
    assert_eq!((ts[0].token_type.as_str(), ts[0].value.as_str()), ("unknown", ""));
    assert_eq!(ts[1].value, "cd");
    assert_eq!((ts[1].line, ts[1].column), (1, 5));
    assert_eq!(ts[2].token_type, "eof");
}

#[test]
fn malformed_runes() {
    assert_eq!(
        tokens("'ab'"),
        vec![pair("unknown", "'ab"), pair("unknown", "'"), pair("eof", "")]
    );
    assert_eq!(tokens("'a"), vec![pair("unknown", "'a"), pair("eof", "")]);
}

#[test]
fn incomplete_numbers_are_unknown_and_scanning_moves_on() {
    assert_eq!(tokens("1."), vec![pair("unknown", ""), pair("eof", "")]);
    assert_eq!(tokens("1e"), vec![pair("unknown", ""), pair("eof", "")]);
    assert_eq!(tokens("2e+x"), vec![pair("unknown", ""), pair("identifier", "x"), pair("eof", "")]);
}

#[test]
fn number_forms() {
    assert_eq!(tokens("42"), vec![pair("integerLiteral", "42"), pair("eof", "")]);
    assert_eq!(tokens("3.25"), vec![pair("integerLiteral", "3.25"), pair("eof", "")]);
    assert_eq!(tokens("7E10"), vec![pair("integerLiteral", "7E10"), pair("eof", "")]);
    assert_eq!(tokens("12.5.3"), vec![pair("integerLiteral", "12.5.3"), pair("eof", "")]);
    assert_eq!(
        tokens("10)"),
        vec![pair("integerLiteral", "10"), pair(")", ")"), pair("eof", "")]
    );
}

#[test]
fn unknown_character_is_fatal_with_position() {
    let err = lex("a\n  b # c").unwrap_err();
    assert_eq!(err.character, '#');
    assert_eq!((err.line, err.column), (2, 5));
}

#[test]
fn carriage_return_inside_input_is_fatal() {
    let err = lex("a\r\n").unwrap_err();
    assert_eq!(err.character, '\r');
    assert_eq!((err.line, err.column), (1, 2));
}

#[test]
fn positions_across_lines() {
    let ts = lex("a\n\t b\n\nc").unwrap();
    assert_eq!((ts[0].line, ts[0].column), (1, 1));
    assert_eq!((ts[1].line, ts[1].column), (2, 3));
    assert_eq!((ts[2].line, ts[2].column), (4, 1));
    assert_eq!((ts[3].line, ts[3].column), (4, 2));
}

#[test]
fn one_trailing_newline_is_dropped() {
    let ts = lex("a\n").unwrap();
    assert_eq!(ts.len(), 2);
    assert_eq!((ts[1].line, ts[1].column), (1, 2));
    let ts = lex("a\r").unwrap();
    assert_eq!(ts.len(), 2);
    let ts = lex("a\n\n").unwrap();
    assert_eq!(ts.len(), 2);
    assert_eq!((ts[1].line, ts[1].column), (2, 1));
}

#[test]
fn empty_and_blank_inputs_give_only_eof() {
    assert_eq!(tokens(""), vec![pair("eof", "")]);
    let ts = lex("   ").unwrap();
    assert_eq!(ts.len(), 1);
    assert_eq!((ts[0].line, ts[0].column), (1, 4));
}

#[test]
fn exactly_one_eof_at_the_end() {
    for input in ["a b c", "1. 2. 3.", "\"x", "'", "|||", "x = 1;\ny = 2;\n"] {
        let ts = lex(input).unwrap();
        assert_eq!(ts.last().unwrap().token_type, "eof");
        assert_eq!(ts.iter().filter(|t| t.token_type == "eof").count(), 1, "input {:?}", input);
    }
}

#[test]
fn columns_count_characters() {
    let ts = lex("é x").unwrap();
    assert_eq!(ts[0].value, "é");
    assert_eq!((ts[1].line, ts[1].column), (1, 3));
}

#[test]
fn lexer_input_is_stripped_after_a_scan() {
    let mut lexer = Lexer { input: "x\n".to_string(), position: 7, line: 9, column: 9 };
    lexer.all_tokens().unwrap();
    assert_eq!(lexer.input, "x");
}

#[test]
fn strip_final_newline_drops_at_most_one() {
    assert_eq!(strip_final_newline("ab\n".to_string()), "ab");
    assert_eq!(strip_final_newline("ab\r".to_string()), "ab");
    assert_eq!(strip_final_newline("ab\n\n".to_string()), "ab\n");
    assert_eq!(strip_final_newline("ab".to_string()), "ab");
    assert_eq!(strip_final_newline(String::new()), "");
}
