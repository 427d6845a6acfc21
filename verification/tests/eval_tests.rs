use lopiper::eval::{MAX_CALL_DEPTH, difference_builtin, sum_builtin};
use lopiper::{
    BuiltInFunc, Callable, Cons, Env, Sexps, apply, apply_macro, cons, cons_to_sexps, err, eval,
    get_sym_table_val, make_sym_table_val, make_value, sym_table_is_var, table_test,
};

fn list(items: Vec<Sexps>) -> Sexps {
    let mut c = Cons::Nil;
    for x in items.into_iter().rev() {
        c = cons(x, c);
    }
    cons_to_sexps(c)
}

fn var(s: &str) -> Sexps {
    Sexps::Var(s.to_string())
}

fn is_error(e: &Sexps, msg: &str) -> bool {
    matches!(e, Sexps::Error(s) if s == msg)
}

fn int_of(e: &Sexps) -> Option<i64> {
    match e {
        Sexps::Int(n) => Some(*n),
        _ => None,
    }
}

fn root() -> Env {
    let mut env = Env::new();
    env.add_defaults();
    env
}

#[test]
fn table_test_sees_outer_binding() {
    assert!(is_error(&table_test(), "test"));
}

#[test]
fn lookup_follows_parents_and_shadows() {
    let mut env = Env::new();
    let child = env.table_new(0);
    let grandchild = env.table_new(child);
    assert_eq!(child, 1);
    assert_eq!(grandchild, 2);
    assert!(env.table_add(0, "a", make_sym_table_val(Sexps::Int(1))));
    assert!(env.table_add(child, "b", make_sym_table_val(Sexps::Int(2))));
    assert!(env.table_add(grandchild, "a", make_sym_table_val(Sexps::Int(3))));
    assert_eq!(int_of(&get_sym_table_val(env.lookup(grandchild, "a"))), Some(3));
    assert_eq!(int_of(&get_sym_table_val(env.lookup(grandchild, "b"))), Some(2));
    assert_eq!(int_of(&get_sym_table_val(env.lookup(child, "a"))), Some(1));
    assert!(env.lookup(0, "b").is_none());
    assert!(env.lookup(7, "a").is_none());
}

#[test]
fn table_add_refuses_missing_table() {
    let mut env = Env::new();
    assert!(!env.table_add(1, "a", make_sym_table_val(Sexps::Int(1))));
    assert!(env.lookup(0, "a").is_none());
}

#[test]
fn table_add_replaces_a_binding() {
    let mut env = Env::new();
    env.table_add(0, "a", make_sym_table_val(Sexps::Int(1)));
    env.table_add(0, "a", make_sym_table_val(Sexps::Int(9)));
    assert_eq!(int_of(&get_sym_table_val(env.lookup(0, "a"))), Some(9));
}

#[test]
fn lookup_around_a_cycle_finds_nothing() {
    let mut env = Env::new();
    let a = env.table_new(2);
    let b = env.table_new(a);
    assert_eq!(b, 2);
    assert!(env.lookup(a, "missing").is_none());
}

#[test]
fn variable_values_round_trip() {
    let c = make_sym_table_val(Sexps::Str("v".to_string()));
    assert!(sym_table_is_var(Some(&c)));
    assert!(matches!(get_sym_table_val(Some(&c)), Sexps::Str(s) if s == "v"));
    assert!(is_error(&get_sym_table_val(None), "Not found"));
    assert!(!sym_table_is_var(None));
    let plus = Callable::BuiltIn(0, BuiltInFunc::Sum);
    assert!(!sym_table_is_var(Some(&plus)));
    assert!(is_error(&get_sym_table_val(Some(&plus)), "Bad value"));
}

#[test]
fn atoms_evaluate_to_themselves() {
    let mut env = root();
    assert_eq!(int_of(&eval(&Sexps::Int(42), &mut env, 0, MAX_CALL_DEPTH)), Some(42));
    assert!(matches!(eval(&Sexps::Str("s".to_string()), &mut env, 0, MAX_CALL_DEPTH), Sexps::Str(s) if s == "s"));
    assert!(is_error(&eval(&err("e"), &mut env, 0, MAX_CALL_DEPTH), "e"));
    assert!(matches!(eval(&Sexps::Bool(true), &mut env, 0, MAX_CALL_DEPTH), Sexps::Bool(true)));
    assert_eq!(env.tables.len(), 1);
}

#[test]
fn sum_of_nested_expressions() {
    let mut env = root();
    let e = list(vec![
        var("+"),
        list(vec![var("+"), Sexps::Int(1), Sexps::Int(2)]),
        Sexps::Int(2),
        list(vec![var("+"), Sexps::Int(6), Sexps::Int(2)]),
    ]);
    assert_eq!(int_of(&eval(&e, &mut env, 0, MAX_CALL_DEPTH)), Some(13));
}

#[test]
fn difference_of_arguments() {
    let mut env = root();
    let e = list(vec![var("-"), Sexps::Int(10), Sexps::Int(3), Sexps::Int(2)]);
    assert_eq!(int_of(&eval(&e, &mut env, 0, MAX_CALL_DEPTH)), Some(5));
    let one = list(vec![var("-"), Sexps::Int(7)]);
    assert_eq!(int_of(&eval(&one, &mut env, 0, MAX_CALL_DEPTH)), Some(7));
    let none = list(vec![var("-")]);
    assert_eq!(int_of(&eval(&none, &mut env, 0, MAX_CALL_DEPTH)), Some(0));
}

#[test]
fn arithmetic_stops_at_first_non_integer() {
    let args = list(vec![Sexps::Int(1), Sexps::Int(2), Sexps::Str("x".to_string()), Sexps::Int(100)]);
    assert_eq!(int_of(&sum_builtin(&args)), Some(3));
    assert_eq!(int_of(&difference_builtin(&args)), Some(-1));
    assert!(is_error(&sum_builtin(&Sexps::Int(1)), "bad arguments"));
    assert!(is_error(&difference_builtin(&Sexps::Int(1)), "bad arguments"));
}

#[test]
fn arithmetic_overflow_is_an_error() {
    let args = list(vec![Sexps::Int(i64::MAX), Sexps::Int(1)]);
    assert!(is_error(&sum_builtin(&args), "integer overflow"));
    let args = list(vec![Sexps::Int(i64::MIN), Sexps::Int(1)]);
    assert!(is_error(&difference_builtin(&args), "integer overflow"));
}

#[test]
fn define_binds_a_value() {
    let mut env = root();
    let d = list(vec![var("define"), var("y"), list(vec![var("+"), Sexps::Int(2), Sexps::Int(3)])]);
    assert!(matches!(eval(&d, &mut env, 0, MAX_CALL_DEPTH), Sexps::Var(s) if s == "success"));
    assert_eq!(int_of(&eval(&var("y"), &mut env, 0, MAX_CALL_DEPTH)), Some(5));
    let use_y = list(vec![var("+"), var("y"), var("y")]);
    assert_eq!(int_of(&eval(&use_y, &mut env, 0, MAX_CALL_DEPTH)), Some(10));
}

#[test]
fn define_without_value_and_bad_syntax() {
    let mut env = root();
    let d = list(vec![var("define"), var("z")]);
    assert!(matches!(eval(&d, &mut env, 0, MAX_CALL_DEPTH), Sexps::Var(s) if s == "success"));
    assert!(is_error(&eval(&var("z"), &mut env, 0, MAX_CALL_DEPTH), "bad define"));
    let bad = list(vec![var("define"), Sexps::Int(1), Sexps::Int(2)]);
    assert!(is_error(&eval(&bad, &mut env, 0, MAX_CALL_DEPTH), "bad define syntax"));
}

#[test]
fn lambda_makes_a_table_with_self() {
    let mut env = root();
    let l = list(vec![var("lambda"), list(vec![var("x")]), list(vec![var("+"), var("x"), var("x")])]);
    let r = eval(&l, &mut env, 0, MAX_CALL_DEPTH);
    assert!(matches!(&r, Sexps::Lambda(1, s) if s == "self"));
    assert_eq!(env.tables.len(), 2);
    assert_eq!(env.tables[1].parent, 0);
    assert!(matches!(env.lookup(1, "self"), Some(Callable::Lambda(0, _, _))));
    let bad = list(vec![var("lambda"), var("x"), Sexps::Int(1)]);
    assert!(is_error(&eval(&bad, &mut env, 0, MAX_CALL_DEPTH), "bad arguments to lambda"));
}

#[test]
fn calling_a_lambda_binds_its_parameters_to_five() {
    let mut env = root();
    let body = list(vec![var("+"), var("x"), var("x")]);
    let lambda = Callable::Lambda(0, list(vec![var("x")]), body);
    let r = lambda.exec(list(vec![Sexps::Int(1)]), &mut env, MAX_CALL_DEPTH);
    assert_eq!(int_of(&r), Some(10));
    assert!(is_error(&lambda.exec(list(vec![]), &mut env, 0), "call depth exceeded"));
}

#[test]
fn applying_a_defined_lambda_gives_the_lambda_value() {
    let mut env = root();
    let define_f = list(vec![
        var("define"),
        var("f"),
        list(vec![var("lambda"), list(vec![var("x")]), list(vec![var("+"), var("x"), var("x")])]),
    ]);
    eval(&define_f, &mut env, 0, MAX_CALL_DEPTH);
    let call = list(vec![var("f"), Sexps::Int(5)]);
    let r = eval(&call, &mut env, 0, MAX_CALL_DEPTH);
    assert!(matches!(&r, Sexps::Lambda(1, s) if s == "self"));
    assert!(matches!(eval(&var("f"), &mut env, 0, MAX_CALL_DEPTH), Sexps::Lambda(1, s) if s == "self"));
}

#[test]
fn a_variable_gives_its_binding_result() {
    let mut env = root();
    assert!(is_error(&eval(&var("+"), &mut env, 0, MAX_CALL_DEPTH), "bad arguments"));
    assert!(is_error(&eval(&var("-"), &mut env, 0, MAX_CALL_DEPTH), "bad arguments"));
    env.table_add(0, "m", make_sym_table_val(Sexps::Int(4)));
    match eval(&var("m"), &mut env, 0, MAX_CALL_DEPTH) {
        Sexps::Sub(b) => match *b {
            Cons::Cons(Sexps::Error(mark), rest) => {
                assert_eq!(mark, "__var");
                assert!(matches!(*rest, Cons::Cons(Sexps::Int(4), _)));
            }
            _ => panic!("unexpected list"),
        },
        _ => panic!("not a list"),
    }
    env.table_add(0, "n", make_value(Sexps::Int(6)));
    assert_eq!(int_of(&eval(&var("n"), &mut env, 0, MAX_CALL_DEPTH)), Some(6));
    assert!(is_error(&get_sym_table_val(env.lookup(0, "n")), "Bad value"));
}

#[test]
fn apply_errors() {
    let mut env = root();
    assert!(is_error(&eval(&list(vec![]), &mut env, 0, MAX_CALL_DEPTH), "Empty subexpression"));
    assert!(is_error(&apply(&Sexps::Int(1), &mut env, 0, MAX_CALL_DEPTH), "Bad apply call"));
    let head_int = list(vec![Sexps::Int(1), Sexps::Int(2)]);
    assert!(is_error(
        &eval(&head_int, &mut env, 0, MAX_CALL_DEPTH),
        "(x y z) <- x has to be macro or function"
    ));
    let unknown = list(vec![var("foo"), Sexps::Int(2)]);
    assert!(is_error(
        &eval(&unknown, &mut env, 0, MAX_CALL_DEPTH),
        "Cannot find symbol in envrionment and not macro foo"
    ));
    assert!(is_error(&eval(&var("nothing"), &mut env, 0, MAX_CALL_DEPTH), "Not found"));
}

#[test]
fn apply_macro_directly() {
    let mut env = root();
    let args = cons(var("w"), cons(Sexps::Int(8), Cons::Nil));
    assert!(matches!(apply_macro("define", &args, &mut env, 0, MAX_CALL_DEPTH), Sexps::Var(s) if s == "success"));
    assert_eq!(int_of(&eval(&var("w"), &mut env, 0, MAX_CALL_DEPTH)), Some(8));
    assert!(is_error(
        &apply_macro("other", &args, &mut env, 0, MAX_CALL_DEPTH),
        "Cannot find symbol in envrionment and not macro other"
    ));
}

#[test]
fn arguments_are_evaluated_in_new_tables() {
    let mut env = root();
    let e = list(vec![var("+"), Sexps::Int(1), Sexps::Int(2)]);
    eval(&e, &mut env, 0, MAX_CALL_DEPTH);
    assert_eq!(env.tables.len(), 3);
    assert_eq!(env.tables[1].parent, 0);
    assert_eq!(env.tables[2].parent, 0);
}

#[test]
fn binding_one_name_leaves_others() {
    let mut env = Env::new();
    let child = env.table_new(0);
    env.table_add(0, "a", make_sym_table_val(Sexps::Int(1)));
    env.table_add(child, "b", make_sym_table_val(Sexps::Int(2)));
    assert_eq!(int_of(&get_sym_table_val(env.lookup(child, "a"))), Some(1));
}

#[test]
fn new_table_sees_its_parent() {
    let mut env = Env::new();
    env.table_add(0, "k", make_sym_table_val(Sexps::Int(7)));
    let t = env.table_new(0);
    assert!(env.tables[t].bindings.is_empty());
    assert_eq!(int_of(&get_sym_table_val(env.lookup(t, "k"))), Some(7));
}

#[test]
fn evaluation_keeps_parents_earlier() {
    let mut env = root();
    let program = list(vec![
        var("define"),
        var("g"),
        list(vec![
            var("+"),
            list(vec![var("lambda"), list(vec![var("a")]), var("a")]),
            list(vec![var("-"), Sexps::Int(4), Sexps::Int(1)]),
        ]),
    ]);
    eval(&program, &mut env, 0, MAX_CALL_DEPTH);
    assert!(env.tables.len() > 1);
    for (i, t) in env.tables.iter().enumerate().skip(1) {
        assert!(t.parent < i);
    }
    assert!(matches!(env.lookup(0, "g"), Some(Callable::BuiltIn(0, BuiltInFunc::Value(Sexps::Int(0))))));
}

#[test]
fn run_parsed_evaluates_in_the_root_table() {
    let mut env = root();
    let e = list(vec![var("+"), Sexps::Int(2), Sexps::Int(40)]);
    assert_eq!(int_of(&lopiper::eval::run_parsed(&mut env, Some(e))), Some(42));
    assert!(is_error(&lopiper::eval::run_parsed(&mut env, None), "Couldn't parse code"));
}
