//! An evaluator over a chain of scopes: each symbol table holds its own bindings and a
//! reference to the table that encloses it. Special forms are not implemented here, and a
//! user-defined lambda cannot be called yet.
use vstd::prelude::*;
use crate::list::{Cons, cons};
use crate::types::{Sexps, Expr, list_view, copy_sexps, err, str_eq};
use crate::eval::{
    difference_list, difference_list_result, expr_size, lemma_cons_view, seq_size, sum_list,
    sum_list_result,
};

verus! {

/// A built-in function of the scoped evaluator.
#[derive(Debug)]
pub enum ScopedBuiltIn {
    Sum,
    Difference,
}

/// What a scoped callable runs.
#[derive(Debug)]
pub enum FunType {
    BuiltIn(ScopedBuiltIn),
    Lambda(Sexps),
}

/// The mathematical value of what a scoped callable runs.
pub enum Fun {
    Sum,
    Difference,
    Lambda(Expr),
}

impl View for FunType {
    type V = Fun;

    open spec fn view(&self) -> Fun {
        match *self {
            FunType::BuiltIn(ScopedBuiltIn::Sum) => Fun::Sum,
            FunType::BuiltIn(ScopedBuiltIn::Difference) => Fun::Difference,
            FunType::Lambda(e) => Fun::Lambda(e@),
        }
    }
}

/// A callable of the scoped evaluator: its own (empty) scope, what it runs, and the names
/// of its parameters.
pub struct Callable<'a> {
    pub env: SymTable<'a>,
    pub f: FunType,
    pub arg_names: Cons<String>,
}

/// A symbol table: its bindings, the latest binding of a name winning, and the table that
/// encloses it.
pub struct SymTable<'a> {
    pub bindings: Vec<(String, Callable<'a>)>,
    pub parent: Option<Box<&'a SymTable<'a>>>,
}

/// One scope as a list of (name, function) pairs, in the order they were bound.
pub open spec fn scope_view<'a>(b: Seq<(String, Callable<'a>)>) -> Seq<(Seq<char>, Fun)> {
    b.map_values(|p: (String, Callable<'a>)| (p.0@, p.1.f@))
}

/// The scopes of a table, the table's own first and the outermost last.
pub open spec fn scopes<'a>(t: SymTable<'a>) -> Seq<Seq<(Seq<char>, Fun)>>
    decreases t,
{
    seq![scope_view(t.bindings@)].add(
        match t.parent {
            Some(p) => scopes(**p),
            None => Seq::empty(),
        },
    )
}

/// The latest binding of `key` in one scope.
pub open spec fn scope_find(s: Seq<(Seq<char>, Fun)>, key: Seq<char>) -> Option<Fun>
    decreases s.len(),
{
    if s.len() == 0 {
        None
    } else if s.last().0 == key {
        Some(s.last().1)
    } else {
        scope_find(s.drop_last(), key)
    }
}

/// The binding of `key` in the innermost scope that binds it.
pub open spec fn chain_find(c: Seq<Seq<(Seq<char>, Fun)>>, key: Seq<char>) -> Option<Fun>
    decreases c.len(),
{
    if c.len() == 0 {
        None
    } else {
        match scope_find(c[0], key) {
            Some(f) => Some(f),
            None => chain_find(c.drop_first(), key),
        }
    }
}

/// The index of the latest binding of `key` among `b`.
pub open spec fn latest_index<'a>(b: Seq<(String, Callable<'a>)>, key: Seq<char>) -> Option<int>
    decreases b.len(),
{
    if b.len() == 0 {
        None
    } else if b.last().0@ == key {
        Some(b.len() - 1)
    } else {
        latest_index(b.drop_last(), key)
    }
}

/// The callable that a search for `key` from table `t` finds: the latest binding of `key` in
/// `t` itself, or else what a search from the enclosing table finds.
pub open spec fn table_find<'a>(t: SymTable<'a>, key: Seq<char>) -> Option<Callable<'a>>
    decreases t,
{
    match latest_index(t.bindings@, key) {
        Some(i) => Some(t.bindings@[i].1),
        None => match t.parent {
            Some(p) => table_find(**p, key),
            None => None,
        },
    }
}

/// Whether `p` binds `name` to a built-in `f` with the single parameter name `*` and an
/// empty scope of its own.
pub open spec fn is_default_binding<'a>(p: (String, Callable<'a>), name: Seq<char>, f: ScopedBuiltIn) -> bool {
    &&& p.0@ == name
    &&& p.1.f == FunType::BuiltIn(f)
    &&& p.1.arg_names matches Cons::Cons(star, rest) && star@ == "*"@ && *rest == Cons::<String>::Nil
    &&& p.1.env.bindings@.len() == 0
    &&& p.1.env.parent is None
}

impl<'a> SymTable<'a> {
    /// An empty table enclosed by `parent`.
    pub fn new(parent: Option<Box<&'a SymTable<'a>>>) -> (r: SymTable<'a>)
        ensures
            r.bindings@.len() == 0,
            r.parent == parent,
    {
        SymTable { bindings: Vec::new(), parent }
    }

    /// Binds `key` to `f`, hiding an earlier binding of `key` in this table.
    pub fn add(&mut self, key: String, f: Callable<'a>)
        ensures
            final(self).bindings@ == old(self).bindings@.push((key, f)),
            final(self).parent == old(self).parent,
    {
        self.bindings.push((key, f));
    }

    /// The binding of `s` in this table, else in the tables that enclose it.
    pub fn lookup(&self, s: &String) -> (r: Option<&Callable<'a>>)
        ensures
            match r {
                Some(c) => table_find(*self, s@) == Some(*c) && chain_find(scopes(*self), s@) == Some(
                    c.f@,
                ),
                None => table_find(*self, s@) is None && chain_find(scopes(*self), s@) is None,
            },
        decreases *self,
    {
        let mut i = self.bindings.len();
        let ghost sv = scope_view(self.bindings@);
        let ghost bv = self.bindings@;
        assert(sv.take(sv.len() as int) =~= sv);
        assert(bv.take(bv.len() as int) =~= bv);
        while i > 0
            invariant
                i <= self.bindings@.len(),
                sv == scope_view(self.bindings@),
                bv == self.bindings@,
                scope_find(sv.take(i as int), s@) == scope_find(sv, s@),
                latest_index(bv.take(i as int), s@) == latest_index(bv, s@),
            decreases i,
        {
            i = i - 1;
            assert(sv.take(i + 1).drop_last() =~= sv.take(i as int));
            assert(bv.take(i + 1).drop_last() =~= bv.take(i as int));
            if self.bindings[i].0 == *s {
                let r = &self.bindings[i].1;
                return Some(r);
            }
        }
        assert(sv.take(0) =~= Seq::<(Seq<char>, Fun)>::empty());
        assert(scope_find(sv.take(0), s@) is None);
        assert(scope_find(sv, s@) is None);
        assert(bv.take(0) =~= Seq::<(String, Callable<'a>)>::empty());
        assert(latest_index(bv, s@) is None);
        assert(scopes(*self)[0] == sv);
        assert(scopes(*self).drop_first() == match self.parent {
            Some(p) => scopes(**p),
            None => Seq::empty(),
        });
        assert(chain_find(scopes(*self), s@) == chain_find(scopes(*self).drop_first(), s@));
        match &self.parent {
            Some(p) => {
                let inner: &SymTable<'a> = &**p;
                assert(scopes(*self).drop_first() == scopes(*inner));
                assert(table_find(*self, s@) == table_find(*inner, s@));
                inner.lookup(s)
            },
            None => None,
        }
    }

    /// Binds `+` and `-` to the built-in sum and difference, each with the single parameter
    /// name `*` and an empty scope of its own.
    pub fn add_defaults(&mut self)
        ensures
            final(self).bindings@.len() == old(self).bindings@.len() + 2,
            final(self).bindings@.take(old(self).bindings@.len() as int) == old(self).bindings@,
            is_default_binding(final(self).bindings@[old(self).bindings@.len() as int], "+"@, ScopedBuiltIn::Sum),
            is_default_binding(
                final(self).bindings@[old(self).bindings@.len() + 1int],
                "-"@,
                ScopedBuiltIn::Difference,
            ),
            scope_view(final(self).bindings@) == scope_view(old(self).bindings@).push(
                ("+"@, Fun::Sum),
            ).push(("-"@, Fun::Difference)),
            final(self).parent == old(self).parent,
    {
        let sum = Callable::new(cons("*".to_string(), Cons::Nil), FunType::BuiltIn(ScopedBuiltIn::Sum));
        let difference = Callable::new(
            cons("*".to_string(), Cons::Nil),
            FunType::BuiltIn(ScopedBuiltIn::Difference),
        );
        let ghost before = self.bindings@;
        self.add("+".to_string(), sum);
        self.add("-".to_string(), difference);
        proof {
            assert(self.bindings@.take(before.len() as int) =~= before);
            assert(scope_view(self.bindings@) =~= scope_view(before).push(("+"@, Fun::Sum)).push(
                ("-"@, Fun::Difference),
            ));
        }
    }
}

/// What running a function on the arguments `args` gives.
pub open spec fn scoped_exec_spec(f: Fun, args: Seq<Expr>) -> Expr {
    match f {
        Fun::Sum => sum_list_result(args),
        Fun::Difference => difference_list_result(args),
        Fun::Lambda(_) => Expr::Error("user defined lamda"@),
    }
}

impl<'a> Callable<'a> {
    /// A callable with its own empty scope.
    pub fn new(arg_names: Cons<String>, f: FunType) -> (r: Callable<'a>)
        ensures
            r.f == f,
            r.arg_names == arg_names,
            r.env.bindings@.len() == 0,
            r.env.parent is None,
    {
        Callable { env: SymTable::new(None), f, arg_names }
    }

    /// Runs this callable on `args`: a built-in computes, a lambda is refused.
    pub fn exec(&self, args: Box<Cons<Sexps>>) -> (r: Sexps)
        ensures
            r@ == scoped_exec_spec(self.f@, list_view(*args)),
    {
        match &self.f {
            FunType::BuiltIn(ScopedBuiltIn::Sum) => sum_list(&*args),
            FunType::BuiltIn(ScopedBuiltIn::Difference) => difference_list(&*args),
            FunType::Lambda(_) => err("user defined lamda"),
        }
    }
}

/// Evaluating `e` with the scopes `c`.
pub open spec fn scoped_eval_spec(c: Seq<Seq<(Seq<char>, Fun)>>, e: Expr) -> Expr
    decreases 3 * expr_size(e) + 2,
{
    match e {
        Expr::Sub(_) => scoped_apply_spec(c, e),
        Expr::Var(s) => match chain_find(c, s) {
            Some(f) => scoped_exec_spec(f, Seq::empty()),
            None => Expr::Error("Undefined variable lookup"@),
        },
        _ => e,
    }
}

/// Evaluating each argument in a new, empty scope inside `c`.
pub open spec fn scoped_args_spec(c: Seq<Seq<(Seq<char>, Fun)>>, args: Seq<Expr>) -> Seq<Expr>
    decreases 3 * seq_size(args) + 2,
{
    if args.len() == 0 {
        Seq::empty()
    } else {
        seq![scoped_eval_spec(seq![Seq::empty()].add(c), args[0])].add(
            scoped_args_spec(c, args.drop_first()),
        )
    }
}

/// Applying the list `e` with the scopes `c`.
pub open spec fn scoped_apply_spec(c: Seq<Seq<(Seq<char>, Fun)>>, e: Expr) -> Expr
    decreases 3 * expr_size(e) + 1,
{
    match e {
        Expr::Sub(s) => if s.len() == 0 {
            Expr::Error("Empty subexpression"@)
        } else {
            match s[0] {
                Expr::Var(name) => match chain_find(c, name) {
                    Some(f) => scoped_exec_spec(f, scoped_args_spec(c, s.drop_first())),
                    None => scoped_macro_spec(name),
                },
                _ => Expr::Error("function not var"@),
            }
        },
        _ => Expr::Error("Bad apply call"@),
    }
}

/// The special forms, none of which is implemented yet.
pub open spec fn scoped_macro_spec(name: Seq<char>) -> Expr {
    if name == "define"@ {
        Expr::Error("new define"@)
    } else if name == "lambda"@ {
        Expr::Error("new lambda"@)
    } else {
        Expr::Error("Cannot find symbol in envrionment"@)
    }
}

/// The special forms `define` and `lambda`: both answer that they are not implemented.
pub fn apply_macro(name: &str, args: &Cons<Sexps>, env: &SymTable) -> (r: Sexps)
    ensures
        r@ == scoped_macro_spec(name@),
{
    if str_eq(name, "define") {
        err("new define")
    } else if str_eq(name, "lambda") {
        err("new lambda")
    } else {
        err("Cannot find symbol in envrionment")
    }
}

/// Evaluates `exp` in `env`: a list is applied, a variable is its binding run on no
/// arguments, anything else is its own value. The table is left as it was.
pub fn eval(exp: &Sexps, env: &mut SymTable) -> (r: Sexps)
    ensures
        *final(env) == *old(env),
        r@ == scoped_eval_spec(scopes(*old(env)), exp@),
    decreases 3 * expr_size(exp@) + 2,
{
    match exp {
        Sexps::Sub(_) => apply(exp, env),
        Sexps::Var(s) => match env.lookup(s) {
            Some(v) => {
                let r = v.exec(Box::new(Cons::Nil));
                assert(list_view(Cons::<Sexps>::Nil) =~= Seq::<Expr>::empty());
                r
            },
            None => err("Undefined variable lookup"),
        },
        _ => copy_sexps(exp),
    }
}

/// Evaluates each argument in a new table enclosed by `env`.
fn eval_args(args: &Cons<Sexps>, env: &SymTable) -> (r: Cons<Sexps>)
    ensures
        list_view(r) == scoped_args_spec(scopes(*env), list_view(*args)),
    decreases 3 * seq_size(list_view(*args)) + 2,
{
    match args {
        Cons::Cons(x, rest) => {
            proof {
                lemma_cons_view(*x, **rest);
            }
            let mut child = SymTable::new(Some(Box::new(env)));
            assert(scope_view(child.bindings@) =~= Seq::<(Seq<char>, Fun)>::empty());
            assert(scopes(child) =~= seq![Seq::<(Seq<char>, Fun)>::empty()].add(scopes(*env)));
            let v = eval(x, &mut child);
            let vs = eval_args(&**rest, env);
            proof {
                lemma_cons_view(v, vs);
            }
            cons(v, vs)
        },
        Cons::Nil => Cons::Nil,
    }
}

/// Applies the list `exp` in `env`: when its head names a binding, the binding is run on
/// the arguments, each evaluated in a new table enclosed by `env`.
pub fn apply(exp: &Sexps, env: &mut SymTable) -> (r: Sexps)
    ensures
        *final(env) == *old(env),
        r@ == scoped_apply_spec(scopes(*old(env)), exp@),
    decreases 3 * expr_size(exp@) + 1,
{
    match exp {
        Sexps::Sub(b) => match &**b {
            Cons::Cons(f, args) => {
                proof {
                    lemma_cons_view(*f, **args);
                }
                match f {
                    Sexps::Var(s) => {
                        let shared: &SymTable = env;
                        match shared.lookup(s) {
                            Some(func) => {
                                let vals = eval_args(&**args, shared);
                                func.exec(Box::new(vals))
                            },
                            None => apply_macro(s.as_str(), &**args, shared),
                        }
                    },
                    _ => err("function not var"),
                }
            },
            Cons::Nil => err("Empty subexpression"),
        },
        _ => err("Bad apply call"),
    }
}

/// Runs an expression that a parser produced, with a fresh table holding the built-ins; an
/// error when the parser produced nothing.
pub fn run_parsed(exp_opt: Option<Sexps>) -> (r: Sexps)
    ensures
        r@ == match exp_opt {
            Some(exp) => scoped_eval_spec(
                seq![seq![("+"@, Fun::Sum), ("-"@, Fun::Difference)]],
                exp@,
            ),
            None => Expr::Error("Couldn't parse code"@),
        },
{
    let mut env = SymTable::new(None);
    assert(scope_view(env.bindings@) =~= Seq::<(Seq<char>, Fun)>::empty());
    env.add_defaults();
    proof {
        assert(scope_view(env.bindings@) =~= seq![("+"@, Fun::Sum), ("-"@, Fun::Difference)]);
        assert(scopes(env) =~= seq![seq![("+"@, Fun::Sum), ("-"@, Fun::Difference)]]);
    }
    match exp_opt {
        Some(exp) => eval(&exp, &mut env),
        None => err("Couldn't parse code"),
    }
}

} // verus!
