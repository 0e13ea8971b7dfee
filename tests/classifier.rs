use pipeline_lexer::char_utils::{
    is_arithmetic_operator, is_boolean_literal, is_bracket, is_comparison_operator, is_digit,
    is_identifier_reserved, is_letter, is_logical_operator, is_new_line, is_operator,
    is_parenthesis, is_postfix_operator, is_punctuation, is_whitespace_or_new_line,
    return_boolean_value, same_text,
};
use pipeline_lexer::fsm::NO_NEXT_STATE;
use pipeline_lexer::number_fsm::{
    next_state, NumberFSM, BEGIN_EXPONENT, BEGIN_FRACTIONAL, BEGIN_SIGNED_EXPONENT, EXPONENT,
    FRACTIONAL, INITIAL, INTEGER,
};

#[test]
fn letters_and_digits() {
    assert!(is_letter('a'));
    assert!(is_letter('Z'));
    assert!(is_letter('é'));
    assert!(!is_letter('1'));
    assert!(!is_letter('_'));
    assert!(is_digit('0'));
    assert!(is_digit('9'));
    assert!(!is_digit('a'));
}

#[test]
fn operator_classes() {
    for op in ["|", "&", "!", "&&", "||", "==", "!=", "<", ">", "<=", ">=", "+", "-", "*", "/", "=", ".", "++", "--"] {
        assert!(is_operator(op), "{}", op);
    }
    for s in ["", "&|", "=!", "===", "+=", "a", "(", "**"] {
        assert!(!is_operator(s), "{}", s);
    }
    assert!(is_comparison_operator('<') && !is_comparison_operator('+'));
    assert!(is_arithmetic_operator('.') && !is_arithmetic_operator('&'));
    assert!(is_logical_operator('|') && !is_logical_operator('!'));
    assert!(is_postfix_operator('-') && !is_postfix_operator('*'));
}

#[test]
fn delimiter_and_blank_classes() {
    assert!(is_parenthesis('(') && is_parenthesis(')') && !is_parenthesis('{'));
    assert!(is_bracket('{') && is_bracket('}') && !is_bracket('('));
    assert!(is_punctuation(';') && is_punctuation(',') && !is_punctuation('.'));
    assert!(is_new_line('\n') && !is_new_line('\r'));
    assert!(is_whitespace_or_new_line(' ') && is_whitespace_or_new_line('\t'));
    assert!(is_whitespace_or_new_line('\n') && !is_whitespace_or_new_line('\r'));
}

#[test]
fn reserved_and_boolean_words() {
    assert!(is_identifier_reserved("ciConfig"));
    assert!(is_identifier_reserved("func"));
    assert!(!is_identifier_reserved("CiConfig"));
    assert!(!is_identifier_reserved("function"));
    assert!(is_boolean_literal("true") && is_boolean_literal("false"));
    assert!(!is_boolean_literal("True"));
    assert!(return_boolean_value("true"));
    assert!(!return_boolean_value("false"));
    assert!(same_text("abc", "abc") && !same_text("abc", "abd") && !same_text("ab", "abc"));
}

#[test]
fn number_transitions() {
    assert_eq!(next_state(INITIAL, '4'), INTEGER);
    assert_eq!(next_state(INITIAL, '.'), BEGIN_FRACTIONAL);
    assert_eq!(next_state(EXPONENT, '.'), BEGIN_FRACTIONAL);
    assert_eq!(next_state(INTEGER, 'e'), BEGIN_EXPONENT);
    assert_eq!(next_state(FRACTIONAL, 'E'), BEGIN_EXPONENT);
    assert_eq!(next_state(BEGIN_EXPONENT, '-'), BEGIN_SIGNED_EXPONENT);
    assert_eq!(next_state(BEGIN_SIGNED_EXPONENT, '7'), EXPONENT);
    assert_eq!(next_state(BEGIN_FRACTIONAL, 'e'), NO_NEXT_STATE);
    assert_eq!(next_state(INITIAL, 'x'), NO_NEXT_STATE);
}

#[test]
fn number_automaton_runs() {
    let fsm = NumberFSM::new();
    let r = fsm.run("12.5e-3xyz");
    assert!(r.recognized);
    assert_eq!(r.value, "12.5e-3");
    assert_eq!(r.state, EXPONENT);

    let r = fsm.run("1e");
    assert!(!r.recognized);
    assert_eq!(r.value, "1e");
    assert_eq!(r.state, BEGIN_EXPONENT);

    let r = fsm.run("x1");
    assert!(!r.recognized);
    assert_eq!(r.value, "");
    assert_eq!(r.state, INITIAL);

    let r = fsm.run("");
    assert!(!r.recognized);
    assert_eq!(r.value, "");
}
