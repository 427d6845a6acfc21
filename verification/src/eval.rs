use vstd::prelude::*;
use vstd::string::*;
use crate::list::{Cons, cons};
use crate::types::{EnvId, Sexps, Expr, list_view, copy_sexps, cons_to_sexps, err, str_eq};
use crate::env::{
    Binding, Builtin, BuiltInFunc, Callable, Env, TableView, copy_callable, fresh_env,
    lookup_spec, lookup_within, make_value, spec_table_add, spec_table_new,
};

verus! {

/// How deeply lambda calls may nest before evaluation gives up with an error: the largest
/// `u64`, a depth that no evaluation reaches before the machine's stack is used up.
pub const MAX_CALL_DEPTH: u64 = 18446744073709551615u64;

// ---------------------------------------------------------------------------
// Sizes, the measure that evaluation follows

/// The number of nodes of an expression.
pub open spec fn expr_size(e: Expr) -> nat
    decreases e,
{
    match e {
        Expr::Sub(s) => 1 + seq_size(s),
        _ => 1,
    }
}

/// The number of nodes of a sequence of expressions, one for each element and those of
/// the elements themselves.
pub open spec fn seq_size(s: Seq<Expr>) -> nat
    decreases s,
{
    if s.len() == 0 {
        0
    } else {
        1 + expr_size(s[0]) + seq_size(s.subrange(1, s.len() as int))
    }
}

/// The view of a list that starts with `x`.
pub proof fn lemma_cons_view(x: Sexps, rest: Cons<Sexps>)
    ensures
        list_view(Cons::Cons(x, Box::new(rest))) == seq![x@].add(list_view(rest)),
        list_view(Cons::Cons(x, Box::new(rest))).len() > 0,
        list_view(Cons::Cons(x, Box::new(rest)))[0] == x@,
        list_view(Cons::Cons(x, Box::new(rest))).drop_first() == list_view(rest),
        seq_size(list_view(Cons::Cons(x, Box::new(rest)))) == 1 + expr_size(x@) + seq_size(
            list_view(rest),
        ),
{
    let s = list_view(Cons::Cons(x, Box::new(rest)));
    assert(s.drop_first() =~= list_view(rest));
    assert(s.subrange(1, s.len() as int) =~= list_view(rest));
}

/// An element of a sequence is smaller than the sequence.
pub proof fn lemma_seq_size_elem(s: Seq<Expr>, i: int)
    requires
        0 <= i < s.len(),
    ensures
        expr_size(s[i]) < seq_size(s),
    decreases s.len(),
{
    if i > 0 {
        let rest = s.subrange(1, s.len() as int);
        lemma_seq_size_elem(rest, i - 1);
        assert(rest[i - 1] == s[i]);
    }
}

// ---------------------------------------------------------------------------
// The built-in arithmetic

/// The sum of the leading integers of `s`, added to `acc` from the front; `None` when a
/// partial sum leaves the range of `i64`.
pub open spec fn sum_from(acc: i64, s: Seq<Expr>) -> Option<i64>
    decreases s.len(),
{
    if s.len() == 0 {
        Some(acc)
    } else {
        match s[0] {
            Expr::Int(n) => if i64::MIN <= acc + n <= i64::MAX {
                sum_from((acc + n) as i64, s.drop_first())
            } else {
                None
            },
            _ => Some(acc),
        }
    }
}

/// The first of the leading integers of `s` minus the others, from the front (0 when `s`
/// starts with no integer); `None` when a partial result leaves the range of `i64`.
pub open spec fn difference_from(acc: i64, first: bool, s: Seq<Expr>) -> Option<i64>
    decreases s.len(),
{
    if s.len() == 0 {
        Some(acc)
    } else {
        match s[0] {
            Expr::Int(n) => if first {
                difference_from(n, false, s.drop_first())
            } else if i64::MIN <= acc - n <= i64::MAX {
                difference_from((acc - n) as i64, false, s.drop_first())
            } else {
                None
            },
            _ => Some(acc),
        }
    }
}

/// What `+` gives for its arguments.
pub open spec fn sum_result(args: Expr) -> Expr {
    match args {
        Expr::Sub(s) => sum_list_result(s),
        _ => Expr::Error("bad arguments"@),
    }
}

/// What `-` gives for its arguments.
pub open spec fn difference_result(args: Expr) -> Expr {
    match args {
        Expr::Sub(s) => difference_list_result(s),
        _ => Expr::Error("bad arguments"@),
    }
}

/// What `+` gives for the argument list `s`.
pub open spec fn sum_list_result(s: Seq<Expr>) -> Expr {
    match sum_from(0, s) {
        Some(n) => Expr::Int(n),
        None => Expr::Error("integer overflow"@),
    }
}

/// What `-` gives for the argument list `s`.
pub open spec fn difference_list_result(s: Seq<Expr>) -> Expr {
    match difference_from(0, true, s) {
        Some(n) => Expr::Int(n),
        None => Expr::Error("integer overflow"@),
    }
}

/// Adds the integers at the front of `args`, stopping at the first element that is not an
/// integer; an error when a partial sum overflows.
pub fn sum_list(args: &Cons<Sexps>) -> (r: Sexps)
    ensures
        r@ == sum_list_result(list_view(*args)),
{
    let mut sum: i64 = 0;
    let mut rest: &Cons<Sexps> = args;
    loop
        invariant
            sum_from(sum, list_view(*rest)) == sum_from(0, list_view(*args)),
        ensures
            sum_from(sum, list_view(*rest)) == sum_from(0, list_view(*args)),
            !(list_view(*rest).len() > 0 && list_view(*rest)[0] is Int),
        decreases list_view(*rest).len(),
    {
        match rest {
            Cons::Cons(Sexps::Int(n), ns) => {
                proof {
                    lemma_cons_view(Sexps::Int(*n), **ns);
                }
                match sum.checked_add(*n) {
                    Some(s) => {
                        sum = s;
                        rest = &**ns;
                    },
                    None => {
                        return err("integer overflow");
                    },
                }
            },
            Cons::Cons(x, ns) => {
                proof {
                    lemma_cons_view(*x, **ns);
                }
                break ;
            },
            Cons::Nil => {
                break ;
            },
        }
    }
    Sexps::Int(sum)
}

/// Subtracts the later integers at the front of `args` from the first one, stopping at the
/// first element that is not an integer; an error when a partial result overflows.
pub fn difference_list(args: &Cons<Sexps>) -> (r: Sexps)
    ensures
        r@ == difference_list_result(list_view(*args)),
{
    let mut diff: i64 = 0;
    let mut first = true;
    let mut rest: &Cons<Sexps> = args;
    loop
        invariant
            difference_from(diff, first, list_view(*rest)) == difference_from(0, true, list_view(*args)),
        ensures
            difference_from(diff, first, list_view(*rest)) == difference_from(0, true, list_view(*args)),
            !(list_view(*rest).len() > 0 && list_view(*rest)[0] is Int),
        decreases list_view(*rest).len(),
    {
        match rest {
            Cons::Cons(Sexps::Int(n), ns) => {
                proof {
                    lemma_cons_view(Sexps::Int(*n), **ns);
                }
                if first {
                    diff = *n;
                    first = false;
                } else {
                    match diff.checked_sub(*n) {
                        Some(d) => {
                            diff = d;
                        },
                        None => {
                            return err("integer overflow");
                        },
                    }
                }
                rest = &**ns;
            },
            Cons::Cons(x, ns) => {
                proof {
                    lemma_cons_view(*x, **ns);
                }
                break ;
            },
            Cons::Nil => {
                break ;
            },
        }
    }
    Sexps::Int(diff)
}

/// The built-in `+`: sums the integers at the front of the argument list; an error when the
/// arguments are not a list.
pub fn sum_builtin(args: &Sexps) -> (r: Sexps)
    ensures
        r@ == sum_result(args@),
{
    match args {
        Sexps::Sub(b) => sum_list(&**b),
        _ => err("bad arguments"),
    }
}

/// The built-in `-`: subtracts from the first integer of the argument list the integers that
/// follow it; an error when the arguments are not a list.
pub fn difference_builtin(args: &Sexps) -> (r: Sexps)
    ensures
        r@ == difference_result(args@),
{
    match args {
        Sexps::Sub(b) => difference_list(&**b),
        _ => err("bad arguments"),
    }
}

// ---------------------------------------------------------------------------
// The meaning of evaluation

/// Binds each leading variable name of `names` to the integer 5 in table `t`.
pub open spec fn bind_vars(env: Seq<TableView>, t: EnvId, names: Seq<Expr>) -> Seq<TableView>
    decreases names.len(),
{
    if names.len() > 0 && names[0] is Var {
        bind_vars(
            spec_table_add(env, t, names[0]->Var_0, Binding::BuiltIn(0, Builtin::Value(Expr::Int(5)))),
            t,
            names.drop_first(),
        )
    } else {
        env
    }
}

/// What calling a lambda does to the parameter names in its table.
pub open spec fn bind_params(env: Seq<TableView>, t: EnvId, names: Expr) -> Seq<TableView> {
    match names {
        Expr::Sub(s) => bind_vars(env, t, s),
        _ => env,
    }
}

/// The value that a variable's binding gives back: the second element of a list that
/// starts with the marker error `__var`.
pub open spec fn unmark(r: Expr) -> Expr {
    match r {
        Expr::Sub(s) => if s.len() >= 2 && s[0] == Expr::Error("__var"@) {
            s[1]
        } else {
            Expr::Error("Bad value"@)
        },
        _ => Expr::Error("Bad value"@),
    }
}

/// The value of a variable whose lookup gave `b`: what its binding gives when run on an
/// empty error in a fresh environment.
pub open spec fn var_value_spec(b: Option<Binding>, d: nat) -> Expr
    decreases d, 1nat,
{
    match b {
        None => Expr::Error("Not found"@),
        Some(c) => exec_spec(fresh_env(), c, Expr::Error(""@), d).1,
    }
}

/// What `get_sym_table_val` gives for the binding `b`: the value that the binding marks as
/// a variable's value when run in a fresh environment.
pub open spec fn marked_value_spec(b: Option<Binding>) -> Expr {
    match b {
        None => Expr::Error("Not found"@),
        Some(c) => unmark(exec_spec(fresh_env(), c, Expr::Error("__sym"@), MAX_CALL_DEPTH as nat).1),
    }
}

/// Running a binding on the arguments `args`; `d` lambda calls may still nest.
pub open spec fn exec_spec(env: Seq<TableView>, c: Binding, args: Expr, d: nat) -> (Seq<TableView>, Expr)
    decreases d, 0nat,
{
    match c {
        Binding::BuiltIn(_, Builtin::Value(v)) => (env, v),
        Binding::BuiltIn(_, Builtin::MarkedValue(v)) => (env, Expr::Sub(seq![Expr::Error("__var"@), v])),
        Binding::BuiltIn(_, Builtin::Sum) => (env, sum_result(args)),
        Binding::BuiltIn(_, Builtin::Difference) => (env, difference_result(args)),
        Binding::Lambda(t, names, body) => if d == 0 {
            (env, Expr::Error("call depth exceeded"@))
        } else {
            apply_spec(bind_params(env, t, names), body, t, (d - 1) as nat)
        },
    }
}

/// Evaluating `e` in table `t`.
pub open spec fn eval_spec(env: Seq<TableView>, e: Expr, t: EnvId, d: nat) -> (Seq<TableView>, Expr)
    decreases d, 3 * expr_size(e) + 2,
{
    match e {
        Expr::Sub(_) => apply_spec(env, e, t, d),
        Expr::Var(s) => (env, var_value_spec(lookup_spec(env, t, s), d)),
        _ => (env, e),
    }
}

/// Evaluating each argument, front first, in a new table whose parent is `t`.
pub open spec fn eval_args_spec(env: Seq<TableView>, args: Seq<Expr>, t: EnvId, d: nat) -> (Seq<TableView>, Seq<Expr>)
    decreases d, 3 * seq_size(args) + 2,
{
    if args.len() == 0 {
        (env, Seq::empty())
    } else {
        let first = if env.len() < usize::MAX {
            eval_spec(spec_table_new(env, t), args[0], env.len() as EnvId, d)
        } else {
            (env, Expr::Error("too many symbol tables"@))
        };
        let rest = eval_args_spec(first.0, args.drop_first(), t, d);
        (rest.0, seq![first.1].add(rest.1))
    }
}

/// Applying the list `e` in table `t`: a bound head is called on the evaluated arguments,
/// an unbound head is taken for a special form.
pub open spec fn apply_spec(env: Seq<TableView>, e: Expr, t: EnvId, d: nat) -> (Seq<TableView>, Expr)
    decreases d, 3 * expr_size(e) + 1,
{
    match e {
        Expr::Sub(s) => if s.len() == 0 {
            (env, Expr::Error("Empty subexpression"@))
        } else {
            match s[0] {
                Expr::Var(name) => match lookup_spec(env, t, name) {
                    Some(c) => {
                        let args = eval_args_spec(env, s.drop_first(), t, d);
                        exec_spec(args.0, c, Expr::Sub(args.1), d)
                    },
                    None => macro_spec(env, name, s.drop_first(), t, d),
                },
                _ => (env, Expr::Error("(x y z) <- x has to be macro or function"@)),
            }
        },
        _ => (env, Expr::Error("Bad apply call"@)),
    }
}

/// The special forms `define` and `lambda`.
pub open spec fn macro_spec(env: Seq<TableView>, name: Seq<char>, args: Seq<Expr>, t: EnvId, d: nat) -> (Seq<TableView>, Expr)
    decreases d, 3 * seq_size(args) + 1,
{
    if name == "define"@ {
        if args.len() > 0 && args[0] is Var {
            let value = if args.len() > 1 {
                proof {
                    lemma_seq_size_elem(args, 1);
                }
                eval_spec(env, args[1], t, d)
            } else {
                (env, Expr::Error("bad define"@))
            };
            (
                spec_table_add(value.0, t, args[0]->Var_0, Binding::BuiltIn(0, Builtin::Value(value.1))),
                Expr::Var("success"@),
            )
        } else {
            (env, Expr::Error("bad define syntax"@))
        }
    } else if name == "lambda"@ {
        if args.len() > 1 && args[0] is Sub {
            if env.len() < usize::MAX {
                let lt = env.len() as EnvId;
                (
                    spec_table_add(spec_table_new(env, t), lt, "self"@, Binding::Lambda(t, args[0], args[1])),
                    Expr::Lambda(lt, "self"@),
                )
            } else {
                (env, Expr::Error("too many symbol tables"@))
            }
        } else {
            (env, Expr::Error("bad arguments to lambda"@))
        }
    } else {
        (env, Expr::Error("Cannot find symbol in envrionment and not macro "@ + name))
    }
}

// ---------------------------------------------------------------------------
// The evaluator

impl Callable {
    /// Runs this callable on the arguments `args_exp`, in the environment `root`; a lambda
    /// binds its parameter names and applies its body, with one call level less.
    pub fn exec(&self, args_exp: Sexps, root: &mut Env, depth: u64) -> (r: Sexps)
        ensures
            final(root)@ == exec_spec(old(root)@, self@, args_exp@, depth as nat).0,
            r@ == exec_spec(old(root)@, self@, args_exp@, depth as nat).1,
        decreases depth, 0nat,
    {
        match self {
            Callable::BuiltIn(_, BuiltInFunc::Value(exp)) => copy_sexps(exp),
            Callable::BuiltIn(_, BuiltInFunc::MarkedValue(exp)) => {
                let marker = err("__var");
                let tail = cons(copy_sexps(exp), Cons::Nil);
                proof {
                    lemma_cons_view(*exp, Cons::Nil);
                    lemma_cons_view(marker, tail);
                    assert(list_view(tail) =~= seq![exp@]);
                    assert(list_view(Cons::Cons(marker, Box::new(tail))) =~= seq![
                        Expr::Error("__var"@),
                        exp@,
                    ]);
                }
                let r = cons_to_sexps(cons(marker, tail));
                assert(r@ == Expr::Sub(seq![Expr::Error("__var"@), exp@]));
                r
            },
            Callable::BuiltIn(_, BuiltInFunc::Sum) => sum_builtin(&args_exp),
            Callable::BuiltIn(_, BuiltInFunc::Difference) => difference_builtin(&args_exp),
            Callable::Lambda(t, names, body) => {
                if depth == 0 {
                    return err("call depth exceeded");
                }
                if let Sexps::Sub(b) = names {
                    let mut rest: &Cons<Sexps> = &**b;
                    loop
                        invariant
                            bind_vars(root@, *t, list_view(*rest)) == bind_params(old(root)@, *t, names@),
                        ensures
                            root@ == bind_params(old(root)@, *t, names@),
                        decreases list_view(*rest).len(),
                    {
                        match rest {
                            Cons::Cons(Sexps::Var(name), more) => {
                                proof {
                                    lemma_cons_view(Sexps::Var(*name), **more);
                                }
                                root.table_add(*t, name.as_str(), make_value(Sexps::Int(5)));
                                rest = &**more;
                            },
                            Cons::Cons(x, more) => {
                                proof {
                                    lemma_cons_view(*x, **more);
                                }
                                break ;
                            },
                            Cons::Nil => {
                                break ;
                            },
                        }
                    }
                }
                apply(body, root, *t, depth - 1)
            },
        }
    }
}

/// The value of a variable whose lookup gave `v`: what its binding gives when run on an
/// empty error in a fresh environment.
fn var_value(v: Option<&Callable>, depth: u64) -> (r: Sexps)
    ensures
        r@ == var_value_spec(
            match v {
                Some(c) => Some(c@),
                None => None,
            },
            depth as nat,
        ),
    decreases depth, 1nat,
{
    match v {
        None => err("Not found"),
        Some(f) => {
            let mut fresh = Env::new();
            f.exec(err(""), &mut fresh, depth)
        },
    }
}

/// The second element of a list that starts with the marker error `__var`.
fn unmark_value(out: &Sexps) -> (r: Sexps)
    ensures
        r@ == unmark(out@),
{
    if let Sexps::Sub(b) = out {
        if let Cons::Cons(Sexps::Error(s), rest) = &**b {
            proof {
                lemma_cons_view(Sexps::Error(*s), **rest);
            }
            if str_eq(s.as_str(), "__var") {
                if let Cons::Cons(x, more) = &**rest {
                    proof {
                        lemma_cons_view(*x, **more);
                    }
                    return copy_sexps(x);
                }
            }
        } else if let Cons::Cons(x, more) = &**b {
            proof {
                lemma_cons_view(*x, **more);
            }
        }
    }
    err("Bad value")
}

/// The value that the binding `v` marks as a variable's value: the stored value of a
/// binding made by `make_sym_table_val`, `Bad value` for another binding, `Not found` for
/// none.
pub fn get_sym_table_val(v: Option<&Callable>) -> (r: Sexps)
    ensures
        r@ == marked_value_spec(
            match v {
                Some(c) => Some(c@),
                None => None,
            },
        ),
{
    match v {
        None => err("Not found"),
        Some(f) => {
            let mut fresh = Env::new();
            let out = f.exec(err("__sym"), &mut fresh, MAX_CALL_DEPTH);
            unmark_value(&out)
        },
    }
}

/// Whether the binding `v` is that of a variable.
pub fn sym_table_is_var(v: Option<&Callable>) -> (r: bool)
    ensures
        r == match v {
            Some(c) => match exec_spec(fresh_env(), c@, Expr::Error("__sym"@), MAX_CALL_DEPTH as nat).1 {
                Expr::Sub(s) => s.len() > 0 && s[0] is Error && s[0]->Error_0 == "__var"@,
                _ => false,
            },
            None => false,
        },
{
    match v {
        None => false,
        Some(f) => {
            let mut fresh = Env::new();
            let out = f.exec(err("__sym"), &mut fresh, MAX_CALL_DEPTH);
            if let Sexps::Sub(b) = &out {
                if let Cons::Cons(Sexps::Error(s), rest) = &**b {
                    proof {
                        lemma_cons_view(Sexps::Error(*s), **rest);
                    }
                    return str_eq(s.as_str(), "__var");
                } else if let Cons::Cons(x, more) = &**b {
                    proof {
                        lemma_cons_view(*x, **more);
                    }
                }
            }
            false
        },
    }
}

/// Evaluates `exp` in table `table` of `root`: a list is applied, a variable gives the
/// value of its binding, anything else is its own value.
pub fn eval(exp: &Sexps, root: &mut Env, table: EnvId, depth: u64) -> (r: Sexps)
    ensures
        final(root)@ == eval_spec(old(root)@, exp@, table, depth as nat).0,
        r@ == eval_spec(old(root)@, exp@, table, depth as nat).1,
    decreases depth, 3 * expr_size(exp@) + 2,
{
    match exp {
        Sexps::Sub(_) => apply(exp, root, table, depth),
        Sexps::Var(s) => {
            let found = root.lookup(table, s.as_str());
            var_value(found, depth)
        },
        _ => copy_sexps(exp),
    }
}

/// Evaluates each argument, front first, each in a new table whose parent is `table`.
fn eval_args(args: &Cons<Sexps>, root: &mut Env, table: EnvId, depth: u64) -> (r: Cons<Sexps>)
    ensures
        final(root)@ == eval_args_spec(old(root)@, list_view(*args), table, depth as nat).0,
        list_view(r) == eval_args_spec(old(root)@, list_view(*args), table, depth as nat).1,
    decreases depth, 3 * seq_size(list_view(*args)) + 2,
{
    match args {
        Cons::Cons(x, rest) => {
            proof {
                lemma_cons_view(*x, **rest);
            }
            let v = if root.tables.len() < usize::MAX {
                let nt = root.table_new(table);
                eval(x, root, nt, depth)
            } else {
                err("too many symbol tables")
            };
            let vs = eval_args(&**rest, root, table, depth);
            proof {
                lemma_cons_view(v, vs);
            }
            Cons::Cons(v, Box::new(vs))
        },
        Cons::Nil => Cons::Nil,
    }
}

/// Applies the list `exp` in table `table`: when its head names a binding, the binding is
/// run on the evaluated arguments; when it names nothing, it is taken for a special form.
pub fn apply(exp: &Sexps, root: &mut Env, table: EnvId, depth: u64) -> (r: Sexps)
    ensures
        final(root)@ == apply_spec(old(root)@, exp@, table, depth as nat).0,
        r@ == apply_spec(old(root)@, exp@, table, depth as nat).1,
    decreases depth, 3 * expr_size(exp@) + 1,
{
    match exp {
        Sexps::Sub(b) => match &**b {
            Cons::Cons(f, args) => {
                proof {
                    lemma_cons_view(*f, **args);
                }
                match f {
                    Sexps::Var(s) => {
                        let found = match root.lookup(table, s.as_str()) {
                            Some(c) => Some(copy_callable(c)),
                            None => None,
                        };
                        match found {
                            Some(c) => {
                                let vals = eval_args(&**args, root, table, depth);
                                c.exec(cons_to_sexps(vals), root, depth)
                            },
                            None => apply_macro(s.as_str(), &**args, root, table, depth),
                        }
                    },
                    _ => err("(x y z) <- x has to be macro or function"),
                }
            },
            Cons::Nil => err("Empty subexpression"),
        },
        _ => err("Bad apply call"),
    }
}

/// The special forms: `define` binds a name to the value of an expression in table `t`,
/// `lambda` makes a lambda in a new table; any other name is an error.
pub fn apply_macro(name: &str, args: &Cons<Sexps>, root: &mut Env, t: EnvId, depth: u64) -> (r: Sexps)
    ensures
        final(root)@ == macro_spec(old(root)@, name@, list_view(*args), t, depth as nat).0,
        r@ == macro_spec(old(root)@, name@, list_view(*args), t, depth as nat).1,
    decreases depth, 3 * seq_size(list_view(*args)) + 1,
{
    proof {
        reveal_strlit("define");
        reveal_strlit("lambda");
    }
    if str_eq(name, "define") {
        match args {
            Cons::Cons(Sexps::Var(n), binding) => {
                proof {
                    lemma_cons_view(Sexps::Var(*n), **binding);
                }
                let v = match &**binding {
                    Cons::Cons(x, more) => {
                        proof {
                            lemma_cons_view(*x, **more);
                        }
                        eval(x, root, t, depth)
                    },
                    Cons::Nil => err("bad define"),
                };
                root.table_add(t, n.as_str(), make_value(v));
                Sexps::Var("success".to_string())
            },
            Cons::Cons(x, more) => {
                proof {
                    lemma_cons_view(*x, **more);
                }
                err("bad define syntax")
            },
            Cons::Nil => err("bad define syntax"),
        }
    } else if str_eq(name, "lambda") {
        if let Cons::Cons(a, rest) = args {
            proof {
                lemma_cons_view(*a, **rest);
            }
            if let Sexps::Sub(_) = a {
                if let Cons::Cons(body, more) = &**rest {
                    proof {
                        lemma_cons_view(*body, **more);
                    }
                    if root.tables.len() == usize::MAX {
                        return err("too many symbol tables");
                    }
                    let lambda = Callable::Lambda(t, copy_sexps(a), copy_sexps(body));
                    let lambda_table = root.table_new(t);
                    root.table_add(lambda_table, "self", lambda);
                    return Sexps::Lambda(lambda_table, "self".to_string());
                }
            }
        }
        err("bad arguments to lambda")
    } else {
        let mut msg = String::from_str("Cannot find symbol in envrionment and not macro ");
        msg.append(name);
        Sexps::Error(msg)
    }
}

impl Env {
    /// Binds `+` and `-` to the built-in sum and difference in the root table.
    pub fn add_defaults(&mut self)
        ensures
            final(self)@ == spec_table_add(
                spec_table_add(old(self)@, 0, "+"@, Binding::BuiltIn(0, Builtin::Sum)),
                0,
                "-"@,
                Binding::BuiltIn(0, Builtin::Difference),
            ),
    {
        self.table_add(0, "+", Callable::BuiltIn(0, BuiltInFunc::Sum));
        self.table_add(0, "-", Callable::BuiltIn(0, BuiltInFunc::Difference));
    }
}

/// Builds two nested tables under the root, binds names in both, and gives the value that
/// `hello` has when seen from the inner one: the value bound in the outer one.
pub fn table_test() -> (r: Sexps)
    ensures
        r@ == Expr::Error("test"@),
{
    let mut x = Env::new();
    let child = x.table_new(0);
    let child2 = x.table_new(child);
    x.table_add(child, "hello", make_value(err("test")));
    x.table_add(child2, "test", make_value(err("yo")));
    x.table_add(child, "hello3", make_value(err("yo2")));
    proof {
        reveal_strlit("hello");
        reveal_strlit("hello3");
        reveal_strlit("test");
        assert("hello"@.len() == 5 && "test"@.len() == 4 && "hello3"@.len() == 6);
        assert("hello"@ != "test"@ && "hello"@ != "hello3"@);
        assert(!x@[2].bindings.contains_key("hello"@));
        assert(x@[1].bindings.contains_key("hello"@));
        assert(x@.len() == 3 && x@[2].parent == 1);
        assert(lookup_within(x@, 1, "hello"@, 2) == Some(
            Binding::BuiltIn(0, Builtin::Value(Expr::Error("test"@))),
        ));
        assert(lookup_spec(x@, 2, "hello"@) == Some(
            Binding::BuiltIn(0, Builtin::Value(Expr::Error("test"@))),
        ));
    }
    var_value(x.lookup(child2, "hello"), MAX_CALL_DEPTH)
}

/// Runs an expression that a parser produced, in the root table of `root`; an error when the
/// parser produced nothing.
pub fn run_parsed(root: &mut Env, exp_opt: Option<Sexps>) -> (r: Sexps)
    ensures
        match exp_opt {
            Some(exp) => final(root)@ == eval_spec(old(root)@, exp@, 0, MAX_CALL_DEPTH as nat).0
                && r@ == eval_spec(old(root)@, exp@, 0, MAX_CALL_DEPTH as nat).1,
            None => final(root)@ == old(root)@ && r@ == Expr::Error("Couldn't parse code"@),
        },
{
    match exp_opt {
        Some(exp) => eval(&exp, root, 0, MAX_CALL_DEPTH),
        None => err("Couldn't parse code"),
    }
}

} // verus!
