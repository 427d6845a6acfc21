use lopiper::scoped::{Callable, FunType, ScopedBuiltIn, apply, apply_macro, eval};
use lopiper::{Cons, Sexps, SymTable, cons, cons_to_sexps};

fn list(items: Vec<Sexps>) -> Sexps {
    let mut c = Cons::Nil;
    for x in items.into_iter().rev() {
        c = cons(x, c);
    }
    cons_to_sexps(c)
}

fn var(s: &str) -> Sexps {
    Sexps::Var(s.to_string())
}

fn is_error(e: &Sexps, msg: &str) -> bool {
    matches!(e, Sexps::Error(s) if s == msg)
}

fn int_of(e: &Sexps) -> Option<i64> {
    match e {
        Sexps::Int(n) => Some(*n),
        _ => None,
    }
}

#[test]
fn scoped_sum_and_difference() {
    let mut env = SymTable::new(None);
    env.add_defaults();
    let e = list(vec![var("+"), list(vec![var("-"), Sexps::Int(6), Sexps::Int(4)]), list(vec![var("+"), Sexps::Int(3), Sexps::Int(5)])]);
    assert_eq!(int_of(&eval(&e, &mut env)), Some(10));
    assert_eq!(env.bindings.len(), 2);
}

#[test]
fn scoped_variable_runs_on_no_arguments() {
    let mut env = SymTable::new(None);
    env.add_defaults();
    assert_eq!(int_of(&eval(&var("+"), &mut env)), Some(0));
    assert!(is_error(&eval(&var("q"), &mut env), "Undefined variable lookup"));
    assert!(matches!(eval(&Sexps::Str("s".to_string()), &mut env), Sexps::Str(s) if s == "s"));
}

#[test]
fn scoped_lookup_in_enclosing_tables() {
    let mut outer = SymTable::new(None);
    outer.add_defaults();
    let inner = SymTable::new(Some(Box::new(&outer)));
    assert!(matches!(inner.lookup(&"+".to_string()), Some(c) if matches!(c.f, FunType::BuiltIn(ScopedBuiltIn::Sum))));
    assert!(inner.lookup(&"*".to_string()).is_none());
}

#[test]
fn scoped_latest_binding_wins() {
    let mut env = SymTable::new(None);
    env.add("f".to_string(), Callable::new(Cons::Nil, FunType::BuiltIn(ScopedBuiltIn::Sum)));
    env.add("f".to_string(), Callable::new(Cons::Nil, FunType::BuiltIn(ScopedBuiltIn::Difference)));
    let e = list(vec![var("f"), Sexps::Int(9), Sexps::Int(4)]);
    assert_eq!(int_of(&eval(&e, &mut env)), Some(5));
}

#[test]
fn scoped_lambda_is_refused() {
    let c = Callable::new(Cons::Nil, FunType::Lambda(Sexps::Int(1)));
    assert!(is_error(&c.exec(Box::new(Cons::Nil)), "user defined lamda"));
}

#[test]
fn scoped_special_forms_and_errors() {
    let mut env = SymTable::new(None);
    env.add_defaults();
    assert!(is_error(&eval(&list(vec![var("define"), var("x"), Sexps::Int(1)]), &mut env), "new define"));
    assert!(is_error(&eval(&list(vec![var("lambda"), list(vec![]), Sexps::Int(1)]), &mut env), "new lambda"));
    assert!(is_error(&eval(&list(vec![var("nope")]), &mut env), "Cannot find symbol in envrionment"));
    assert!(is_error(&eval(&list(vec![Sexps::Int(1)]), &mut env), "function not var"));
    assert!(is_error(&eval(&list(vec![]), &mut env), "Empty subexpression"));
    assert!(is_error(&apply(&Sexps::Int(3), &mut env), "Bad apply call"));
    assert!(is_error(&apply_macro("define", &Cons::Nil, &env), "new define"));
}

#[test]
fn scoped_run_parsed_has_the_built_ins() {
    let e = list(vec![var("-"), Sexps::Int(9), Sexps::Int(2)]);
    assert_eq!(int_of(&lopiper::scoped::run_parsed(Some(e))), Some(7));
    assert!(is_error(&lopiper::scoped::run_parsed(None), "Couldn't parse code"));
}
