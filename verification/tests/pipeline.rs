use felisp::data::FelispExp;
use felisp::data::Row;
use felisp::env::default_env;
use felisp::eval::parse_eval;
use felisp::num::i64_to_string;
use felisp::num::parse_i64;
use felisp::parser::parse;
use felisp::parser::parse_atom;
use felisp::parser::tokenize;

fn as_number(e: &FelispExp) -> i64 {
    match e {
        FelispExp::Number(n) => *n,
        _ => panic!("expected a number expression"),
    }
}

#[test]
fn test_tokenize_simple_form() {
    let tokens = tokenize("(+ 1 2)".to_string());
    assert_eq!(tokens, vec!["(", "+", "1", "2", ")"]);
}

#[test]
fn test_tokenize_empty_input() {
    let tokens = tokenize("".to_string());
    assert!(tokens.is_empty());
}

#[test]
fn test_tokenize_tight_parens() {
    let tokens = tokenize("(defn x(+ 1 2))".to_string());
    assert_eq!(tokens, vec!["(", "defn", "x", "(", "+", "1", "2", ")", ")"]);
}

#[test]
fn test_parse_simple_form() {
    let tokens = tokenize("(+ 1 2)".to_string());
    let (exp, rest) = parse(&tokens).unwrap();
    assert!(rest.is_empty());
    match exp {
        FelispExp::List(elems) => {
            assert_eq!(elems.len(), 3);
            assert!(matches!(&elems[0], FelispExp::Symbol(s) if s == "+"));
            assert_eq!(as_number(&elems[1]), 1);
            assert_eq!(as_number(&elems[2]), 2);
        }
        _ => panic!("expected a list"),
    }
}

#[test]
fn test_parse_leaves_trailing_tokens() {
    let tokens = tokenize("5 6 7".to_string());
    let (exp, rest) = parse(&tokens).unwrap();
    assert_eq!(as_number(&exp), 5);
    assert_eq!(rest, &["6", "7"]);
}

#[test]
fn test_parse_unterminated_list() {
    let tokens = tokenize("(+ 1".to_string());
    let err = parse(&tokens).unwrap_err();
    assert_eq!(err.message(), "could not find closing `)`");
}

#[test]
fn test_parse_stray_closing_paren() {
    let tokens = tokenize(")".to_string());
    let err = parse(&tokens).unwrap_err();
    assert_eq!(err.message(), "unexpected `)`");
}

#[test]
fn test_parse_no_tokens() {
    let tokens: Vec<String> = Vec::new();
    let err = parse(&tokens).unwrap_err();
    assert_eq!(err.message(), "Could not get token");
}

#[test]
fn test_parse_atom_booleans() {
    assert!(matches!(parse_atom("true"), FelispExp::Bool(true)));
    assert!(matches!(parse_atom("false"), FelispExp::Bool(false)));
}

#[test]
fn test_parse_atom_numbers_and_symbols() {
    assert_eq!(as_number(&parse_atom("12")), 12);
    assert_eq!(as_number(&parse_atom("-5")), -5);
    assert!(matches!(parse_atom("x1"), FelispExp::Symbol(s) if s == "x1"));
    // only integral decimal tokens denote numbers here
    assert!(matches!(parse_atom("1.5"), FelispExp::Symbol(s) if s == "1.5"));
    assert!(matches!(parse_atom("-"), FelispExp::Symbol(s) if s == "-"));
}

#[test]
fn test_parse_i64_bounds() {
    assert_eq!(parse_i64("9223372036854775807"), Some(i64::MAX));
    assert_eq!(parse_i64("-9223372036854775808"), Some(i64::MIN));
    assert_eq!(parse_i64("9223372036854775808"), None);
    assert_eq!(parse_i64("-9223372036854775809"), None);
    assert_eq!(parse_i64("0007"), Some(7));
}

#[test]
fn test_number_rendering() {
    assert_eq!(i64_to_string(0), "0");
    assert_eq!(i64_to_string(3), "3");
    assert_eq!(i64_to_string(-3), "-3");
    assert_eq!(i64_to_string(1234567890), "1234567890");
    assert_eq!(i64_to_string(i64::MIN), "-9223372036854775808");
}

#[test]
fn test_display_of_forms() {
    let tokens = tokenize("(+ 1 (- 2 3))".to_string());
    let (exp, _) = parse(&tokens).unwrap();
    assert_eq!(exp.display_string(), "(+,1,(-,2,3))");
}

#[test]
fn test_parse_eval_simple_sum() {
    let mut arena = default_env();
    let mut shown: Vec<Row> = Vec::new();
    let r = parse_eval("(+ 1 2)".to_string(), &mut arena, 0, 100, &mut shown).unwrap();
    assert_eq!(as_number(&r), 3);
    assert!(shown.is_empty());
}
