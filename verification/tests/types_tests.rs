use lopiper::{
    Cons, QuoteType, Sexps, arg_extract_bool, arg_extract_int, arg_extract_str, arg_extractor,
    char_to_quote, cons, cons_to_sexps, err, quote_to_str, same_type, value_eq, value_partial_cmp,
};
use lopiper::Lexeme;
use std::cmp::Ordering;

fn list(items: Vec<Sexps>) -> Sexps {
    let mut c = Cons::Nil;
    for x in items.into_iter().rev() {
        c = cons(x, c);
    }
    cons_to_sexps(c)
}

#[test]
fn quote_characters_round_trip() {
    assert_eq!(char_to_quote('`'), Some(QuoteType::BackQuote));
    assert_eq!(char_to_quote('\''), Some(QuoteType::Q));
    assert_eq!(char_to_quote(','), Some(QuoteType::Comma));
    assert_eq!(char_to_quote('a'), None);
    assert_eq!(char_to_quote('('), None);
    for q in [QuoteType::BackQuote, QuoteType::Q, QuoteType::Comma] {
        let text = quote_to_str(q);
        assert_eq!(text.chars().count(), 1);
        assert_eq!(char_to_quote(text.chars().next().unwrap()), Some(q));
    }
}

#[test]
fn quote_text_of_each_kind() {
    assert_eq!(quote_to_str(QuoteType::BackQuote), "`");
    assert_eq!(quote_to_str(QuoteType::Q), "'");
    assert_eq!(quote_to_str(QuoteType::Comma), ",");
}

#[test]
fn same_type_compares_variants_only() {
    assert!(same_type(&Sexps::Int(1), &Sexps::Int(2)));
    assert!(same_type(&Sexps::Str("a".to_string()), &Sexps::Str("b".to_string())));
    assert!(same_type(&err("x"), &err("y")));
    assert!(same_type(&list(vec![]), &list(vec![Sexps::Int(1)])));
    assert!(same_type(&Sexps::Quote(QuoteType::Q), &Sexps::Quote(QuoteType::Comma)));
    assert!(same_type(&Sexps::Lambda(0, "self".to_string()), &Sexps::Lambda(3, "g".to_string())));
    assert!(same_type(&Sexps::Float(0), &Sexps::Float(7)));
    assert!(same_type(&Sexps::Bool(true), &Sexps::Bool(false)));
    assert!(same_type(&Sexps::Var("a".to_string()), &Sexps::Var("b".to_string())));
    assert!(!same_type(&Sexps::Int(1), &Sexps::Float(1)));
    assert!(!same_type(&Sexps::Var("a".to_string()), &Sexps::Str("a".to_string())));
    assert!(!same_type(&err("a"), &Sexps::Str("a".to_string())));
}

#[test]
fn arg_extractor_gives_flat_arguments() {
    let e = list(vec![Sexps::Int(1), Sexps::Str("s".to_string()), Sexps::Bool(true)]);
    let args = arg_extractor(&e).unwrap();
    assert_eq!(args.len(), 3);
    assert_eq!(arg_extract_int(&args, 0), Some(1));
    assert_eq!(arg_extract_str(&args, 1), Some("s".to_string()));
    assert_eq!(arg_extract_bool(&args, 2), Some(true));
    assert_eq!(arg_extract_int(&args, 1), None);
    assert_eq!(arg_extract_str(&args, 2), None);
    assert_eq!(arg_extract_bool(&args, 0), None);
}

#[test]
fn arg_extractor_refuses_nested_lists_and_atoms() {
    let nested = list(vec![Sexps::Int(1), list(vec![Sexps::Int(2)])]);
    assert!(arg_extractor(&nested).is_none());
    assert!(arg_extractor(&Sexps::Int(1)).is_none());
    let empty = arg_extractor(&list(vec![])).unwrap();
    assert!(empty.is_empty());
}

#[test]
fn err_makes_an_error_expression() {
    match err("oops") {
        Sexps::Error(s) => assert_eq!(s, "oops"),
        _ => panic!("not an error"),
    }
}

#[test]
fn clone_copies_every_field() {
    let e = list(vec![Sexps::Int(4), list(vec![Sexps::Var("x".to_string())]), err("e")]);
    let c = e.clone();
    assert_eq!(format!("{:?}", c), format!("{:?}", e));
}

#[test]
fn value_equality_without_floats() {
    assert_eq!(value_eq(&Sexps::Int(3), &Sexps::Int(3)), Some(true));
    assert_eq!(value_eq(&Sexps::Int(3), &Sexps::Int(4)), Some(false));
    assert_eq!(value_eq(&Sexps::Str("a".to_string()), &Sexps::Str("a".to_string())), Some(true));
    assert_eq!(value_eq(&Sexps::Bool(true), &Sexps::Bool(false)), Some(false));
    assert_eq!(value_eq(&Sexps::Var("a".to_string()), &Sexps::Var("a".to_string())), Some(false));
    assert_eq!(value_eq(&err("a"), &err("a")), Some(false));
    assert_eq!(value_eq(&Sexps::Float(0), &Sexps::Int(0)), None);
    assert_eq!(value_eq(&Sexps::Float(0), &Sexps::Float(0)), Some(true));
}

#[test]
fn value_order_without_floats() {
    assert_eq!(value_partial_cmp(&Sexps::Int(1), &Sexps::Int(2)), Some(Some(Ordering::Less)));
    assert_eq!(value_partial_cmp(&Sexps::Int(2), &Sexps::Int(1)), Some(Some(Ordering::Greater)));
    assert_eq!(value_partial_cmp(&Sexps::Int(2), &Sexps::Int(2)), Some(None));
    assert_eq!(value_partial_cmp(&Sexps::Str("a".to_string()), &Sexps::Str("b".to_string())), Some(None));
    assert_eq!(value_partial_cmp(&Sexps::Int(2), &Sexps::Float(0)), None);
}

#[test]
fn lexemes_compare_by_value() {
    assert_eq!(Lexeme::Int(1), Lexeme::Int(1));
    assert_ne!(Lexeme::Sym("a".to_string()), Lexeme::Str("a".to_string()));
    assert_eq!(Lexeme::Quote(QuoteType::Q), Lexeme::Quote(QuoteType::Q));
}

fn fl(x: f64) -> Sexps {
    Sexps::Float(x.to_bits())
}

#[test]
fn floats_compare_as_floats() {
    assert_eq!(value_eq(&fl(0.0), &fl(-0.0)), Some(true));
    assert_eq!(value_eq(&fl(f64::NAN), &fl(f64::NAN)), Some(false));
    assert_eq!(value_eq(&fl(1.5), &fl(1.5)), Some(true));
    assert_eq!(value_eq(&fl(1.5), &fl(2.5)), Some(false));
    assert_eq!(value_partial_cmp(&fl(1.0), &fl(2.0)), Some(Some(Ordering::Less)));
    assert_eq!(value_partial_cmp(&fl(-1.0), &fl(-2.0)), Some(Some(Ordering::Greater)));
    assert_eq!(value_partial_cmp(&fl(-3.0), &fl(0.5)), Some(Some(Ordering::Less)));
    assert_eq!(value_partial_cmp(&fl(f64::INFINITY), &fl(1e300)), Some(Some(Ordering::Greater)));
    assert_eq!(value_partial_cmp(&fl(0.0), &fl(-0.0)), Some(None));
    assert_eq!(value_partial_cmp(&fl(f64::NAN), &fl(1.0)), Some(None));
    assert_eq!(value_partial_cmp(&fl(1.0), &Sexps::Int(1)), None);
}

#[test]
fn float_lexemes_compare_as_floats() {
    assert_eq!(Lexeme::Float(0.0f64.to_bits()), Lexeme::Float((-0.0f64).to_bits()));
    assert_ne!(Lexeme::Float(f64::NAN.to_bits()), Lexeme::Float(f64::NAN.to_bits()));
    assert_ne!(Lexeme::Float(1.0f64.to_bits()), Lexeme::Int(1));
    assert_eq!(Lexeme::OpenParen, Lexeme::OpenParen);
    assert_ne!(Lexeme::OpenParen, Lexeme::CloseParen);
}
