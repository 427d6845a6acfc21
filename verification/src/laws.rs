use vstd::prelude::*;
use crate::types::{EnvId, Expr, QuoteType, quote_char, quote_of};
use crate::env::{
    Binding, Builtin, TableView, fresh_env, lookup_spec, lookup_within, lookup_stops,
    parents_earlier, spec_table_add, spec_table_new, lemma_lookup_stops_early, lemma_lookup_more_steps,
};
use crate::scoped::{Fun, chain_find, scope_find, scoped_eval_spec, scoped_exec_spec};
use crate::floats::{MAGNITUDE_BITS, SIGN_BIT, float_eq_spec, float_lt_spec, is_nan_bits};
use crate::types::{Sexps, kind, value_cmp_spec, value_eq_spec};
use std::cmp::Ordering;
use crate::eval::{
    apply_spec, bind_params, bind_vars, eval_args_spec, eval_spec, exec_spec, macro_spec,
    var_value_spec, marked_value_spec, expr_size, seq_size, lemma_seq_size_elem, sum_from,
    difference_from, sum_result, difference_result,
};

verus! {

// ---------------------------------------------------------------------------
// Symbol tables

/// Looking a name up in a table right after binding it there finds the new binding.
pub proof fn law_lookup_after_add(env: Seq<TableView>, t: EnvId, key: Seq<char>, b: Binding)
    requires
        t < env.len(),
    ensures
        lookup_spec(spec_table_add(env, t, key, b), t, key) == Some(b),
{
}

proof fn lemma_add_keeps_other_within(
    env: Seq<TableView>,
    t: EnvId,
    key: Seq<char>,
    b: Binding,
    from: EnvId,
    other: Seq<char>,
    n: nat,
)
    requires
        other != key,
    ensures
        lookup_within(spec_table_add(env, t, key, b), from, other, n) == lookup_within(env, from, other, n),
    decreases n,
{
    let env2 = spec_table_add(env, t, key, b);
    if from < env.len() && n > 0 && from != 0 && !env[from as int].bindings.contains_key(other) {
        assert(env2[from as int].parent == env[from as int].parent);
        lemma_add_keeps_other_within(env, t, key, b, env[from as int].parent, other, (n - 1) as nat);
    }
}

/// Binding a name in a table changes what no other name is bound to, seen from any table.
pub proof fn law_add_keeps_other_names(
    env: Seq<TableView>,
    t: EnvId,
    key: Seq<char>,
    b: Binding,
    from: EnvId,
    other: Seq<char>,
)
    requires
        other != key,
    ensures
        lookup_spec(spec_table_add(env, t, key, b), from, other) == lookup_spec(env, from, other),
{
    lemma_add_keeps_other_within(env, t, key, b, from, other, env.len());
}

/// When every table looks in an earlier one, a search from a table finds that table's own
/// binding; else nothing at the root or at a table that does not exist; else what a search
/// from its parent finds.
pub proof fn law_lookup_nearest(env: Seq<TableView>, t: EnvId, key: Seq<char>)
    requires
        parents_earlier(env),
    ensures
        lookup_spec(env, t, key) == (if t >= env.len() {
            None
        } else if env[t as int].bindings.contains_key(key) {
            Some(env[t as int].bindings[key])
        } else if t == 0 {
            None
        } else {
            lookup_spec(env, env[t as int].parent, key)
        }),
{
    if t < env.len() && !env[t as int].bindings.contains_key(key) && t != 0 {
        let p = env[t as int].parent;
        lemma_lookup_stops_early(env, p, key);
        lemma_lookup_more_steps(env, p, key, p as nat, (env.len() - 1) as nat);
        lemma_lookup_more_steps(env, p, key, p as nat, env.len());
    }
}

proof fn lemma_push_keeps_within(env: Seq<TableView>, x: TableView, t: EnvId, key: Seq<char>, n: nat)
    requires
        parents_earlier(env),
        t < env.len(),
    ensures
        lookup_within(env.push(x), t, key, n) == lookup_within(env, t, key, n),
    decreases n,
{
    if n > 0 && t != 0 && !env[t as int].bindings.contains_key(key) {
        assert(env.push(x)[t as int] == env[t as int]);
        lemma_push_keeps_within(env, x, env[t as int].parent, key, (n - 1) as nat);
    }
}

/// A new table binds nothing of its own: a search from it finds what a search from its
/// parent finds.
pub proof fn law_new_table_sees_parent(env: Seq<TableView>, parent: EnvId, key: Seq<char>)
    requires
        parents_earlier(env),
        parent < env.len(),
        env.len() < usize::MAX,
    ensures
        lookup_spec(spec_table_new(env, parent), env.len() as EnvId, key) == lookup_spec(env, parent, key),
{
    let env2 = spec_table_new(env, parent);
    assert(env2[env.len() as int].bindings == Map::<Seq<char>, Binding>::empty());
    assert(!env2[env.len() as int].bindings.contains_key(key));
    lemma_push_keeps_within(env, TableView { bindings: Map::empty(), parent }, parent, key, env.len());
    assert(env2[env.len() as int].parent == parent);
    assert(lookup_within(env2, env.len() as EnvId, key, env2.len()) == lookup_within(env2, parent, key, env.len()));
}

// ---------------------------------------------------------------------------
// Variable bindings

/// A value binding gives back the value it was made with, so a variable bound to it
/// evaluates to that value; a marked value binding gives back its value to
/// `get_sym_table_val`, inside the list `(__var value)`.
pub proof fn law_value_round_trip(p: EnvId, e: Expr, d: nat)
    ensures
        var_value_spec(Some(Binding::BuiltIn(p, Builtin::Value(e))), d) == e,
        marked_value_spec(Some(Binding::BuiltIn(p, Builtin::MarkedValue(e)))) == e,
        exec_spec(fresh_env(), Binding::BuiltIn(p, Builtin::MarkedValue(e)), Expr::Error("__sym"@), d).1
            == Expr::Sub(seq![Expr::Error("__var"@), e]),
{
}

// ---------------------------------------------------------------------------
// Quotes

/// The character of every quote kind reads back as that kind.
pub proof fn law_quote_round_trip(q: QuoteType)
    ensures
        quote_of(quote_char(q)) == Some(q),
{
}

// ---------------------------------------------------------------------------
// What evaluation keeps

/// The tables of `old` are still there in `new`, with the same parents.
pub open spec fn extends(old: Seq<TableView>, new: Seq<TableView>) -> bool {
    &&& old.len() <= new.len()
    &&& forall|i: int| 0 <= i < old.len() ==> (#[trigger] new[i]).parent == old[i].parent
}

/// Every lambda binding refers to a table that exists.
pub open spec fn lambdas_in_range(env: Seq<TableView>) -> bool {
    forall|i: int, k: Seq<char>|
        0 <= i < env.len() && (#[trigger] env[i].bindings.contains_key(k)) ==> match env[i].bindings[k] {
            Binding::Lambda(t, _, _) => t < env.len(),
            _ => true,
        }
}

/// An environment that evaluation can work in: it has a root table, every other table looks
/// in an earlier one, and every lambda's table exists.
pub open spec fn well_formed(env: Seq<TableView>) -> bool {
    &&& env.len() > 0
    &&& parents_earlier(env)
    &&& lambdas_in_range(env)
}

pub open spec fn binding_in_range(b: Binding, len: nat) -> bool {
    match b {
        Binding::Lambda(t, _, _) => t < len,
        _ => true,
    }
}

proof fn lemma_table_add_wf(env: Seq<TableView>, t: EnvId, key: Seq<char>, b: Binding)
    ensures
        well_formed(env) && binding_in_range(b, env.len()) ==> well_formed(
            spec_table_add(env, t, key, b),
        ),
        extends(env, spec_table_add(env, t, key, b)),
{
    let env2 = spec_table_add(env, t, key, b);
    if well_formed(env) && binding_in_range(b, env.len()) {
        assert forall|i: int, k: Seq<char>|
            0 <= i < env2.len() && (#[trigger] env2[i].bindings.contains_key(k)) implies match env2[i].bindings[k] {
                Binding::Lambda(t2, _, _) => t2 < env2.len(),
                _ => true,
            } by {
            if i == t && k == key {
            } else {
                assert(env[i].bindings.contains_key(k));
            }
        }
    }
}

proof fn lemma_table_new_wf(env: Seq<TableView>, p: EnvId)
    ensures
        well_formed(env) && p < env.len() ==> well_formed(spec_table_new(env, p)),
        extends(env, spec_table_new(env, p)),
{
    let env2 = spec_table_new(env, p);
    if well_formed(env) && p < env.len() {
        assert forall|i: int, k: Seq<char>|
            0 <= i < env2.len() && (#[trigger] env2[i].bindings.contains_key(k)) implies match env2[i].bindings[k] {
                Binding::Lambda(t2, _, _) => t2 < env2.len(),
                _ => true,
            } by {
            if i < env.len() {
                assert(env[i].bindings.contains_key(k));
            }
        }
    }
}

proof fn lemma_extends_trans(a: Seq<TableView>, b: Seq<TableView>, c: Seq<TableView>)
    requires
        extends(a, b),
        extends(b, c),
    ensures
        extends(a, c),
{
    assert forall|i: int| 0 <= i < a.len() implies (#[trigger] c[i]).parent == a[i].parent by {
        assert(b[i].parent == a[i].parent);
    }
}

proof fn lemma_bind_vars_wf(env: Seq<TableView>, t: EnvId, names: Seq<Expr>)
    ensures
        well_formed(env) ==> well_formed(bind_vars(env, t, names)),
        extends(env, bind_vars(env, t, names)),
        bind_vars(env, t, names).len() == env.len(),
    decreases names.len(),
{
    if names.len() > 0 && names[0] is Var {
        let b = Binding::BuiltIn(0, Builtin::Value(Expr::Int(5)));
        let env1 = spec_table_add(env, t, names[0]->Var_0, b);
        lemma_table_add_wf(env, t, names[0]->Var_0, b);
        lemma_bind_vars_wf(env1, t, names.drop_first());
        lemma_extends_trans(env, env1, bind_vars(env1, t, names.drop_first()));
    }
}

proof fn lemma_lookup_in_range(env: Seq<TableView>, t: EnvId, key: Seq<char>, n: nat)
    requires
        lambdas_in_range(env),
    ensures
        lookup_within(env, t, key, n) matches Some(b) ==> binding_in_range(b, env.len()),
    decreases n,
{
    if t < env.len() && env[t as int].bindings.contains_key(key) {
    } else if t < env.len() && t != 0 && n != 0 {
        lemma_lookup_in_range(env, env[t as int].parent, key, (n - 1) as nat);
    }
}

proof fn lemma_exec_wf(env: Seq<TableView>, c: Binding, args: Expr, d: nat)
    ensures
        well_formed(env) && binding_in_range(c, env.len()) ==> well_formed(
            exec_spec(env, c, args, d).0,
        ),
        extends(env, exec_spec(env, c, args, d).0),
    decreases d, 0nat,
{
    match c {
        Binding::Lambda(t, names, body) => {
            if d > 0 {
                let env1 = bind_params(env, t, names);
                if let Expr::Sub(s) = names {
                    lemma_bind_vars_wf(env, t, s);
                }
                lemma_apply_wf(env1, body, t, (d - 1) as nat);
                lemma_extends_trans(env, env1, apply_spec(env1, body, t, (d - 1) as nat).0);
            }
        },
        _ => {},
    }
}

proof fn lemma_eval_wf(env: Seq<TableView>, e: Expr, t: EnvId, d: nat)
    ensures
        well_formed(env) && t < env.len() ==> well_formed(eval_spec(env, e, t, d).0),
        extends(env, eval_spec(env, e, t, d).0),
    decreases d, 3 * expr_size(e) + 2,
{
    if e is Sub {
        lemma_apply_wf(env, e, t, d);
    }
}

proof fn lemma_eval_args_wf(env: Seq<TableView>, args: Seq<Expr>, t: EnvId, d: nat)
    ensures
        well_formed(env) && t < env.len() ==> well_formed(eval_args_spec(env, args, t, d).0),
        extends(env, eval_args_spec(env, args, t, d).0),
    decreases d, 3 * seq_size(args) + 2,
{
    if args.len() > 0 {
        let first = if env.len() < usize::MAX {
            eval_spec(spec_table_new(env, t), args[0], env.len() as EnvId, d)
        } else {
            (env, Expr::Error("too many symbol tables"@))
        };
        if env.len() < usize::MAX {
            let env1 = spec_table_new(env, t);
            lemma_table_new_wf(env, t);
            lemma_eval_wf(env1, args[0], env.len() as EnvId, d);
            lemma_extends_trans(env, env1, first.0);
        }
        lemma_eval_args_wf(first.0, args.drop_first(), t, d);
        lemma_extends_trans(env, first.0, eval_args_spec(first.0, args.drop_first(), t, d).0);
    }
}

proof fn lemma_apply_wf(env: Seq<TableView>, e: Expr, t: EnvId, d: nat)
    ensures
        well_formed(env) && t < env.len() ==> well_formed(apply_spec(env, e, t, d).0),
        extends(env, apply_spec(env, e, t, d).0),
    decreases d, 3 * expr_size(e) + 1,
{
    if let Expr::Sub(s) = e {
        if s.len() > 0 {
            if let Expr::Var(name) = s[0] {
                match lookup_spec(env, t, name) {
                    Some(c) => {
                        if well_formed(env) {
                            lemma_lookup_in_range(env, t, name, env.len());
                        }
                        let args = eval_args_spec(env, s.drop_first(), t, d);
                        lemma_eval_args_wf(env, s.drop_first(), t, d);
                        lemma_exec_wf(args.0, c, Expr::Sub(args.1), d);
                        lemma_extends_trans(env, args.0, exec_spec(args.0, c, Expr::Sub(args.1), d).0);
                    },
                    None => {
                        lemma_macro_wf(env, name, s.drop_first(), t, d);
                    },
                }
            }
        }
    }
}

proof fn lemma_macro_wf(env: Seq<TableView>, name: Seq<char>, args: Seq<Expr>, t: EnvId, d: nat)
    ensures
        well_formed(env) && t < env.len() ==> well_formed(macro_spec(env, name, args, t, d).0),
        extends(env, macro_spec(env, name, args, t, d).0),
    decreases d, 3 * seq_size(args) + 1,
{
    if name == "define"@ {
        if args.len() > 0 && args[0] is Var {
            let value = if args.len() > 1 {
                eval_spec(env, args[1], t, d)
            } else {
                (env, Expr::Error("bad define"@))
            };
            if args.len() > 1 {
                lemma_seq_size_elem(args, 1);
                lemma_eval_wf(env, args[1], t, d);
            }
            let b = Binding::BuiltIn(0, Builtin::Value(value.1));
            lemma_table_add_wf(value.0, t, args[0]->Var_0, b);
            lemma_extends_trans(env, value.0, spec_table_add(value.0, t, args[0]->Var_0, b));
        }
    } else if name == "lambda"@ {
        if args.len() > 1 && args[0] is Sub && env.len() < usize::MAX {
            let lt = env.len() as EnvId;
            let env1 = spec_table_new(env, t);
            let b = Binding::Lambda(t, args[0], args[1]);
            lemma_table_new_wf(env, t);
            lemma_table_add_wf(env1, lt, "self"@, b);
            lemma_extends_trans(env, env1, spec_table_add(env1, lt, "self"@, b));
        }
    }
}

/// Evaluation only adds: it never removes a table and never changes a table's parent,
/// whatever the environment and the table it starts in.
pub proof fn law_evaluation_only_adds(env: Seq<TableView>, e: Expr, t: EnvId, d: nat)
    ensures
        extends(env, eval_spec(env, e, t, d).0),
{
    lemma_eval_wf(env, e, t, d);
}

/// Evaluation keeps an environment well formed: every new table looks in an earlier one,
/// and every lambda made refers to a table that exists.
pub proof fn law_evaluation_keeps_well_formed(env: Seq<TableView>, e: Expr, t: EnvId, d: nat)
    requires
        well_formed(env),
        t < env.len(),
    ensures
        well_formed(eval_spec(env, e, t, d).0),
        extends(env, eval_spec(env, e, t, d).0),
{
    lemma_eval_wf(env, e, t, d);
}

/// The table operations keep every parent earlier than its table: a fresh environment has
/// it, a new table whose parent exists keeps it, and a binding keeps it. Under it, every
/// search from table `t` ends within `t` moves.
pub proof fn law_table_operations_keep_parents_earlier(
    env: Seq<TableView>,
    p: EnvId,
    t: EnvId,
    key: Seq<char>,
    b: Binding,
)
    ensures
        parents_earlier(fresh_env()),
        parents_earlier(env) && p < env.len() ==> parents_earlier(spec_table_new(env, p)),
        parents_earlier(env) ==> parents_earlier(spec_table_add(env, t, key, b)),
        spec_table_add(env, t, key, b).len() == env.len(),
        parents_earlier(env) ==> lookup_stops(env, t, key, t as nat),
{
    if parents_earlier(env) {
        lemma_lookup_stops_early(env, t, key);
        let e2 = spec_table_add(env, t, key, b);
        assert forall|i: int| 0 < i < e2.len() implies (#[trigger] e2[i]).parent < i by {
            assert(env[i].parent < i);
        }
        if p < env.len() {
            let e3 = spec_table_new(env, p);
            assert forall|i: int| 0 < i < e3.len() implies (#[trigger] e3[i]).parent < i by {
                if i < env.len() {
                    assert(env[i].parent < i);
                }
            }
        }
    }
}

/// An expression that is neither a list nor a variable evaluates to itself and leaves the
/// environment as it was.
pub proof fn law_atoms_evaluate_to_themselves(env: Seq<TableView>, e: Expr, t: EnvId, d: nat)
    requires
        !(e is Sub),
        !(e is Var),
    ensures
        eval_spec(env, e, t, d) == (env, e),
{
}

/// `(define name e)`, in a table where `define` names nothing, answers `success` and binds
/// `name` in that table to the value of `e`.
pub proof fn law_define_binds(env: Seq<TableView>, t: EnvId, name: Seq<char>, e: Expr, d: nat)
    requires
        well_formed(env),
        t < env.len(),
        lookup_spec(env, t, "define"@) is None,
    ensures
        eval_spec(env, Expr::Sub(seq![Expr::Var("define"@), Expr::Var(name), e]), t, d).1
            == Expr::Var("success"@),
        lookup_spec(
            eval_spec(env, Expr::Sub(seq![Expr::Var("define"@), Expr::Var(name), e]), t, d).0,
            t,
            name,
        ) == Some(Binding::BuiltIn(0, Builtin::Value(eval_spec(env, e, t, d).1))),
{
    let s = seq![Expr::Var("define"@), Expr::Var(name), e];
    assert(s.drop_first() =~= seq![Expr::Var(name), e]);
    let value = eval_spec(env, e, t, d);
    lemma_eval_wf(env, e, t, d);
    law_lookup_after_add(value.0, t, name, Binding::BuiltIn(0, Builtin::Value(value.1)));
}

/// `(lambda params body)`, in a table where `lambda` names nothing, makes a new table that
/// looks in the current one and binds `self` there to the lambda, and answers the lambda
/// value naming that table.
pub proof fn law_lambda_makes_table(env: Seq<TableView>, t: EnvId, params: Seq<Expr>, body: Expr, d: nat)
    requires
        t < env.len(),
        env.len() < usize::MAX,
        lookup_spec(env, t, "lambda"@) is None,
    ensures
        eval_spec(env, Expr::Sub(seq![Expr::Var("lambda"@), Expr::Sub(params), body]), t, d)
            == (
            spec_table_add(
                spec_table_new(env, t),
                env.len() as EnvId,
                "self"@,
                Binding::Lambda(t, Expr::Sub(params), body),
            ),
            Expr::Lambda(env.len() as EnvId, "self"@),
        ),
{
    let s = seq![Expr::Var("lambda"@), Expr::Sub(params), body];
    assert(s.drop_first() =~= seq![Expr::Sub(params), body]);
    reveal_strlit("lambda");
    reveal_strlit("define");
    assert("lambda"@[0] != "define"@[0]);
    assert("lambda"@ != "define"@);
}

// ---------------------------------------------------------------------------
// Chains of scopes

/// In a chain of scopes, the latest binding of a name in the innermost scope is the one
/// found.
pub proof fn law_scope_latest_binding_wins(
    c: Seq<Seq<(Seq<char>, Fun)>>,
    s: Seq<(Seq<char>, Fun)>,
    key: Seq<char>,
    f: Fun,
)
    ensures
        chain_find(seq![s.push((key, f))].add(c), key) == Some(f),
{
    let inner = s.push((key, f));
    assert(scope_find(inner, key) == Some(f));
    assert((seq![inner].add(c))[0] == inner);
}

/// A new, empty scope sees exactly what the scopes around it see.
pub proof fn law_empty_scope_sees_outer(c: Seq<Seq<(Seq<char>, Fun)>>, key: Seq<char>)
    ensures
        chain_find(seq![Seq::<(Seq<char>, Fun)>::empty()].add(c), key) == chain_find(c, key),
{
    let cc = seq![Seq::<(Seq<char>, Fun)>::empty()].add(c);
    assert(cc[0] == Seq::<(Seq<char>, Fun)>::empty());
    assert(cc.drop_first() =~= c);
}

// ---------------------------------------------------------------------------
// Bounded and unbounded searches

/// The table a search moves to from `x`.
pub open spec fn next_table(env: Seq<TableView>, x: EnvId) -> EnvId {
    if x < env.len() {
        env[x as int].parent
    } else {
        x
    }
}

/// The table a search reaches from `t` after `k` moves.
pub open spec fn ancestor(env: Seq<TableView>, t: EnvId, k: nat) -> EnvId
    decreases k,
{
    if k == 0 {
        t
    } else {
        next_table(env, ancestor(env, t, (k - 1) as nat))
    }
}

/// Whether a search for `key` ends at table `x`.
pub open spec fn stops_at(env: Seq<TableView>, x: EnvId, key: Seq<char>) -> bool {
    x >= env.len() || env[x as int].bindings.contains_key(key) || x == 0
}

proof fn lemma_ancestor_shift(env: Seq<TableView>, t: EnvId, k: nat)
    ensures
        ancestor(env, t, k + 1) == ancestor(env, next_table(env, t), k),
    decreases k,
{
    assert(ancestor(env, t, k + 1) == next_table(env, ancestor(env, t, k)));
    if k > 0 {
        lemma_ancestor_shift(env, t, (k - 1) as nat);
        assert(ancestor(env, next_table(env, t), k) == next_table(
            env,
            ancestor(env, next_table(env, t), (k - 1) as nat),
        ));
    }
}

proof fn lemma_stop_witness(env: Seq<TableView>, t: EnvId, key: Seq<char>, n: nat) -> (k: nat)
    requires
        lookup_stops(env, t, key, n),
    ensures
        k <= n,
        stops_at(env, ancestor(env, t, k), key),
    decreases n,
{
    if stops_at(env, t, key) {
        0
    } else {
        let k1 = lemma_stop_witness(env, env[t as int].parent, key, (n - 1) as nat);
        lemma_ancestor_shift(env, t, k1);
        k1 + 1
    }
}

proof fn lemma_stop_from_witness(env: Seq<TableView>, t: EnvId, key: Seq<char>, n: nat, k: nat)
    requires
        k <= n,
        stops_at(env, ancestor(env, t, k), key),
    ensures
        lookup_stops(env, t, key, n),
    decreases n,
{
    if !stops_at(env, t, key) {
        assert(k > 0);
        lemma_ancestor_shift(env, t, (k - 1) as nat);
        lemma_stop_from_witness(env, env[t as int].parent, key, (n - 1) as nat, (k - 1) as nat);
    }
}

proof fn lemma_pigeonhole(s: Seq<int>, n: int) -> (ij: (int, int))
    requires
        0 <= n < s.len(),
        forall|i: int| 0 <= i < s.len() ==> 0 <= #[trigger] s[i] < n,
    ensures
        0 <= ij.0 < ij.1 < s.len(),
        s[ij.0] == s[ij.1],
{
    if s.no_duplicates() {
        s.unique_seq_to_set();
        vstd::set_lib::lemma_int_range(0, n);
        assert(s.to_set().subset_of(vstd::set_lib::set_int_range(0, n)));
        vstd::set_lib::lemma_len_subset(s.to_set(), vstd::set_lib::set_int_range(0, n));
        assert(false);
        (0, 0)
    } else {
        let (i, j) = choose|i: int, j: int| 0 <= i < s.len() && 0 <= j < s.len() && i != j && s[i] == s[j];
        if i < j {
            (i, j)
        } else {
            (j, i)
        }
    }
}

proof fn lemma_periodic(env: Seq<TableView>, t: EnvId, i: nat, j: nat, m: nat)
    requires
        i < j <= m,
        ancestor(env, t, i) == ancestor(env, t, j),
    ensures
        ancestor(env, t, m) == ancestor(env, t, (m - (j - i)) as nat),
    decreases m,
{
    if m > j {
        lemma_periodic(env, t, i, j, (m - 1) as nat);
    }
}

proof fn lemma_cycle_never_stops(env: Seq<TableView>, t: EnvId, key: Seq<char>, i: nat, j: nat, m: nat)
    requires
        i < j,
        ancestor(env, t, i) == ancestor(env, t, j),
        forall|q: nat| q <= j ==> !stops_at(env, #[trigger] ancestor(env, t, q), key),
    ensures
        !stops_at(env, ancestor(env, t, m), key),
    decreases m,
{
    if m > j {
        lemma_periodic(env, t, i, j, m);
        lemma_cycle_never_stops(env, t, key, i, j, (m - (j - i)) as nat);
    }
}

/// A search that ends at all ends within as many moves as there are tables.
proof fn lemma_stops_within_len(env: Seq<TableView>, t: EnvId, key: Seq<char>, n: nat)
    requires
        lookup_stops(env, t, key, n),
    ensures
        lookup_stops(env, t, key, env.len()),
{
    let k = lemma_stop_witness(env, t, key, n);
    if k <= env.len() {
        lemma_stop_from_witness(env, t, key, env.len(), k);
    } else if exists|q: nat| q <= env.len() && stops_at(env, #[trigger] ancestor(env, t, q), key) {
        let q = choose|q: nat| q <= env.len() && stops_at(env, #[trigger] ancestor(env, t, q), key);
        lemma_stop_from_witness(env, t, key, env.len(), q);
    } else {
        let s = Seq::new((env.len() + 1) as nat, |q: int| ancestor(env, t, q as nat) as int);
        assert forall|q: int| 0 <= q < s.len() implies 0 <= #[trigger] s[q] < env.len() by {
            assert(!stops_at(env, ancestor(env, t, q as nat), key));
        }
        let (i, j) = lemma_pigeonhole(s, env.len() as int);
        assert(ancestor(env, t, i as nat) == ancestor(env, t, j as nat));
        lemma_cycle_never_stops(env, t, key, i as nat, j as nat, k);
    }
}

/// A search that follows at most as many parents as there are tables finds what a search
/// without that bound finds, whenever that search ends.
pub proof fn law_bounded_search_agrees(env: Seq<TableView>, t: EnvId, key: Seq<char>, n: nat)
    requires
        lookup_stops(env, t, key, n),
    ensures
        lookup_spec(env, t, key) == lookup_within(env, t, key, n),
{
    lemma_stops_within_len(env, t, key, n);
    if n <= env.len() {
        lemma_lookup_more_steps(env, t, key, n, env.len());
    } else {
        lemma_lookup_more_steps(env, t, key, env.len(), n);
    }
}

// ---------------------------------------------------------------------------
// Variables

/// A variable evaluated in table `t` has the value of the binding that a search from `t`
/// finds, and its evaluation changes nothing.
pub proof fn law_variable_is_looked_up_from_its_table(env: Seq<TableView>, t: EnvId, name: Seq<char>, d: nat)
    ensures
        eval_spec(env, Expr::Var(name), t, d) == (env, var_value_spec(lookup_spec(env, t, name), d)),
{
}

/// A variable that table `t` binds to a value evaluates, in `t`, to that value.
pub proof fn law_variable_bound_in_its_table(
    env: Seq<TableView>,
    t: EnvId,
    name: Seq<char>,
    p: EnvId,
    v: Expr,
    d: nat,
)
    requires
        t < env.len(),
        env[t as int].bindings.contains_key(name),
        env[t as int].bindings[name] == Binding::BuiltIn(p, Builtin::Value(v)),
    ensures
        eval_spec(env, Expr::Var(name), t, d) == (env, v),
{
}

/// When every table looks in an earlier one, a variable that table `t` does not bind has,
/// in `t`, the value it has in `t`'s parent (for any table but the root).
pub proof fn law_unbound_variable_comes_from_parent(env: Seq<TableView>, t: EnvId, name: Seq<char>, d: nat)
    requires
        parents_earlier(env),
        0 < t < env.len(),
        !env[t as int].bindings.contains_key(name),
    ensures
        eval_spec(env, Expr::Var(name), t, d).1 == eval_spec(env, Expr::Var(name), env[t as int].parent, d).1,
{
    law_lookup_nearest(env, t, name);
}

// ---------------------------------------------------------------------------
// Arithmetic

/// The mathematical sum of a sequence of integers.
pub open spec fn int_sum(s: Seq<i64>) -> int
    decreases s.len(),
{
    if s.len() == 0 {
        0
    } else {
        s[0] + int_sum(s.drop_first())
    }
}

/// The integers of `s` as integer expressions.
pub open spec fn int_exprs(s: Seq<i64>) -> Seq<Expr> {
    s.map_values(|n: i64| Expr::Int(n))
}

/// Whether `acc` plus every sum of a front part of `s` fits in an `i64`.
pub open spec fn partial_sums_fit(acc: int, s: Seq<i64>) -> bool {
    forall|k: int| 0 <= k <= s.len() ==> i64::MIN <= acc + #[trigger] int_sum(s.take(k)) <= i64::MAX
}

proof fn lemma_int_sum_take(s: Seq<i64>, k: int)
    requires
        0 < k <= s.len(),
    ensures
        int_sum(s.take(k)) == s[0] + int_sum(s.drop_first().take(k - 1)),
{
    assert(s.take(k).drop_first() =~= s.drop_first().take(k - 1));
}

proof fn lemma_sum_from_ints(acc: i64, s: Seq<i64>)
    requires
        partial_sums_fit(acc as int, s),
    ensures
        sum_from(acc, int_exprs(s)) == Some((acc + int_sum(s)) as i64),
    decreases s.len(),
{
    assert(s.take(s.len() as int) =~= s);
    assert(i64::MIN <= acc + int_sum(s.take(s.len() as int)) <= i64::MAX);
    if s.len() > 0 {
        let es = int_exprs(s);
        assert(es[0] == Expr::Int(s[0]));
        assert(es.drop_first() =~= int_exprs(s.drop_first()));
        lemma_int_sum_take(s, 1);
        assert(s.drop_first().take(0) =~= Seq::<i64>::empty());
        let acc2 = (acc + s[0]) as i64;
        assert forall|k: int| 0 <= k <= s.drop_first().len() implies i64::MIN <= acc2 + #[trigger] int_sum(
            s.drop_first().take(k),
        ) <= i64::MAX by {
            lemma_int_sum_take(s, k + 1);
            assert(i64::MIN <= acc + int_sum(s.take(k + 1)) <= i64::MAX);
        }
        lemma_sum_from_ints(acc2, s.drop_first());
    } else {
        assert(int_exprs(s).len() == 0);
    }
}

/// `+` on integers whose partial sums all fit in an `i64` gives their mathematical sum,
/// negative ones included.
pub proof fn law_sum_is_the_sum(s: Seq<i64>)
    requires
        partial_sums_fit(0, s),
    ensures
        sum_from(0, int_exprs(s)) == Some(int_sum(s) as i64),
        sum_result(Expr::Sub(int_exprs(s))) == Expr::Int(int_sum(s) as i64),
{
    lemma_sum_from_ints(0, s);
}

/// Adding an integer argument in front adds it to the running sum, whatever its sign.
pub proof fn law_sum_step(acc: i64, n: i64, s: Seq<Expr>)
    requires
        i64::MIN <= acc + n <= i64::MAX,
    ensures
        sum_from(acc, seq![Expr::Int(n)].add(s)) == sum_from((acc + n) as i64, s),
{
    assert((seq![Expr::Int(n)].add(s)).drop_first() =~= s);
}

/// Whether `acc` minus every sum of a front part of `s` fits in an `i64`.
pub open spec fn partial_differences_fit(acc: int, s: Seq<i64>) -> bool {
    forall|k: int| 0 <= k <= s.len() ==> i64::MIN <= acc - #[trigger] int_sum(s.take(k)) <= i64::MAX
}

proof fn lemma_difference_from_ints(acc: i64, s: Seq<i64>)
    requires
        partial_differences_fit(acc as int, s),
    ensures
        difference_from(acc, false, int_exprs(s)) == Some((acc - int_sum(s)) as i64),
    decreases s.len(),
{
    assert(s.take(s.len() as int) =~= s);
    assert(i64::MIN <= acc - int_sum(s.take(s.len() as int)) <= i64::MAX);
    if s.len() > 0 {
        let es = int_exprs(s);
        assert(es[0] == Expr::Int(s[0]));
        assert(es.drop_first() =~= int_exprs(s.drop_first()));
        lemma_int_sum_take(s, 1);
        assert(s.drop_first().take(0) =~= Seq::<i64>::empty());
        let acc2 = (acc - s[0]) as i64;
        assert forall|k: int| 0 <= k <= s.drop_first().len() implies i64::MIN <= acc2 - #[trigger] int_sum(
            s.drop_first().take(k),
        ) <= i64::MAX by {
            lemma_int_sum_take(s, k + 1);
            assert(i64::MIN <= acc - int_sum(s.take(k + 1)) <= i64::MAX);
        }
        lemma_difference_from_ints(acc2, s.drop_first());
    } else {
        assert(int_exprs(s).len() == 0);
    }
}

/// `-` on integers x0 x1 ... xk whose partial results all fit in an `i64` gives
/// x0 - x1 - ... - xk, negative ones included.
pub proof fn law_difference_is_the_difference(x0: i64, s: Seq<i64>)
    requires
        partial_differences_fit(x0 as int, s),
    ensures
        difference_from(0, true, seq![Expr::Int(x0)].add(int_exprs(s))) == Some((x0 - int_sum(s)) as i64),
        difference_result(Expr::Sub(seq![Expr::Int(x0)].add(int_exprs(s)))) == Expr::Int(
            (x0 - int_sum(s)) as i64,
        ),
{
    assert((seq![Expr::Int(x0)].add(int_exprs(s))).drop_first() =~= int_exprs(s));
    lemma_difference_from_ints(x0, s);
}

/// Subtracting a later integer argument takes it off the running result, whatever its sign.
pub proof fn law_difference_step(acc: i64, n: i64, s: Seq<Expr>)
    requires
        i64::MIN <= acc - n <= i64::MAX,
    ensures
        difference_from(acc, false, seq![Expr::Int(n)].add(s)) == difference_from((acc - n) as i64, false, s),
{
    assert((seq![Expr::Int(n)].add(s)).drop_first() =~= s);
}

// ---------------------------------------------------------------------------
// Doubles

proof fn lemma_bits_split(a: u64, b: u64)
    by (bit_vector)
    ensures
        a & 0x8000_0000_0000_0000u64 == 0 || a & 0x8000_0000_0000_0000u64 == 0x8000_0000_0000_0000u64,
        (a & 0x8000_0000_0000_0000u64 == b & 0x8000_0000_0000_0000u64 && a & 0x7fff_ffff_ffff_ffffu64
            == b & 0x7fff_ffff_ffff_ffffu64) <==> a == b,
        a & 0x8000_0000_0000_0000u64 == 0 ==> a == a & 0x7fff_ffff_ffff_ffffu64,
        a & 0x8000_0000_0000_0000u64 == 0 && b & 0x8000_0000_0000_0000u64 == 0 ==> (a < b <==> a
            & 0x7fff_ffff_ffff_ffffu64 < b & 0x7fff_ffff_ffff_ffffu64),
        a & 0x8000_0000_0000_0000u64 != 0 && b & 0x8000_0000_0000_0000u64 != 0 ==> (a > b <==> a
            & 0x7fff_ffff_ffff_ffffu64 > b & 0x7fff_ffff_ffff_ffffu64),
{
}

/// Whether the double `a` is below the double `b`, read off their bit patterns as sign and
/// magnitude: two non-negative doubles are ordered as their bits, two negative doubles
/// in reverse, a negative double is below a non-negative one unless both are zeros, and a
/// non-negative double is never below a negative one.
pub open spec fn bits_below(a: u64, b: u64) -> bool {
    let neg_a = a & SIGN_BIT != 0;
    let neg_b = b & SIGN_BIT != 0;
    if !neg_a && !neg_b {
        a < b
    } else if neg_a && neg_b {
        a > b
    } else if neg_a {
        !(a & MAGNITUDE_BITS == 0 && b & MAGNITUDE_BITS == 0)
    } else {
        false
    }
}

/// Whether the double with bit pattern `b` is a NaN: its exponent bits all set and its
/// fraction bits not all clear.
pub open spec fn nan_pattern(b: u64) -> bool {
    b & 0x7ff0_0000_0000_0000u64 == 0x7ff0_0000_0000_0000u64 && b & 0x000f_ffff_ffff_ffffu64 != 0
}

/// A double is a NaN exactly when its exponent bits are all set and its fraction is not zero.
pub proof fn law_nan_pattern(b: u64)
    ensures
        is_nan_bits(b) <==> nan_pattern(b),
{
}

/// Two doubles compare equal exactly when neither is a NaN and either their bits are the
/// same or both are zeros; in particular a double other than zero never equals its negation.
pub proof fn law_float_equality(a: u64, b: u64)
    ensures
        float_eq_spec(a, b) <==> (!nan_pattern(a) && !nan_pattern(b) && (a == b || (a & MAGNITUDE_BITS
            == 0 && b & MAGNITUDE_BITS == 0))),
        float_eq_spec(a, b) == float_eq_spec(b, a),
{
    lemma_bits_split(a, b);
    lemma_bits_split(b, a);
}

/// One double is below another exactly when neither is a NaN and the sign-and-magnitude
/// reading of their bits puts the first below the second.
pub proof fn law_float_order(a: u64, b: u64)
    ensures
        float_lt_spec(a, b) <==> (!nan_pattern(a) && !nan_pattern(b) && bits_below(a, b)),
{
    lemma_bits_split(a, b);
    lemma_bits_split(b, a);
}

/// Of two doubles that are not NaNs, exactly one is below the other or they are equal; a
/// NaN is neither below, above nor equal to anything.
pub proof fn law_float_trichotomy(a: u64, b: u64)
    ensures
        !nan_pattern(a) && !nan_pattern(b) ==> (float_lt_spec(a, b) || float_lt_spec(b, a)
            || float_eq_spec(a, b)),
        !(float_lt_spec(a, b) && float_lt_spec(b, a)),
        !(float_lt_spec(a, b) && float_eq_spec(a, b)),
        nan_pattern(a) ==> !float_lt_spec(a, b) && !float_lt_spec(b, a) && !float_eq_spec(a, b),
{
}

// ---------------------------------------------------------------------------
// Applying built-ins

/// `env` with `n` empty tables added at the end, each looking in `t`.
pub open spec fn with_child_tables(env: Seq<TableView>, t: EnvId, n: nat) -> Seq<TableView> {
    env.add(Seq::new(n, |i: int| TableView { bindings: Map::empty(), parent: t }))
}

/// Integer arguments evaluate to themselves, in order, each in a new empty table that looks
/// in the table of the call.
pub proof fn law_int_arguments_evaluate_in_order(env: Seq<TableView>, s: Seq<i64>, t: EnvId, d: nat)
    requires
        env.len() + s.len() < usize::MAX,
    ensures
        eval_args_spec(env, int_exprs(s), t, d) == (with_child_tables(env, t, s.len()), int_exprs(s)),
    decreases s.len(),
{
    let es = int_exprs(s);
    if s.len() == 0 {
        assert(with_child_tables(env, t, 0) =~= env);
        assert(es =~= Seq::<Expr>::empty());
    } else {
        assert(es[0] == Expr::Int(s[0]));
        assert(es.drop_first() =~= int_exprs(s.drop_first()));
        let env1 = spec_table_new(env, t);
        assert(es.len() > 0);
        assert(env.len() < usize::MAX);
        assert(eval_spec(env1, es[0], env.len() as EnvId, d) == (env1, es[0]));
        law_int_arguments_evaluate_in_order(env1, s.drop_first(), t, d);
        let rest = eval_args_spec(env1, es.drop_first(), t, d);
        assert(eval_args_spec(env, es, t, d) == (rest.0, seq![es[0]].add(rest.1)));
        assert(with_child_tables(env1, t, s.drop_first().len()) =~= with_child_tables(env, t, s.len()));
        assert(seq![Expr::Int(s[0])].add(int_exprs(s.drop_first())) =~= es);
    }
}

/// Calling a name bound to the built-in sum on integer arguments gives their mathematical
/// sum, whatever their signs, and adds one table per argument.
pub proof fn law_call_of_sum(env: Seq<TableView>, t: EnvId, name: Seq<char>, p: EnvId, s: Seq<i64>, d: nat)
    requires
        lookup_spec(env, t, name) == Some(Binding::BuiltIn(p, Builtin::Sum)),
        partial_sums_fit(0, s),
        env.len() + s.len() < usize::MAX,
    ensures
        eval_spec(env, Expr::Sub(seq![Expr::Var(name)].add(int_exprs(s))), t, d) == (
            with_child_tables(env, t, s.len()),
            Expr::Int(int_sum(s) as i64),
        ),
{
    let call = seq![Expr::Var(name)].add(int_exprs(s));
    assert(call.drop_first() =~= int_exprs(s));
    law_int_arguments_evaluate_in_order(env, s, t, d);
    law_sum_is_the_sum(s);
}

/// Calling a name bound to the built-in difference on integer arguments x0 x1 ... xk gives
/// x0 - x1 - ... - xk, whatever their signs, and adds one table per argument.
pub proof fn law_call_of_difference(
    env: Seq<TableView>,
    t: EnvId,
    name: Seq<char>,
    p: EnvId,
    x0: i64,
    s: Seq<i64>,
    d: nat,
)
    requires
        lookup_spec(env, t, name) == Some(Binding::BuiltIn(p, Builtin::Difference)),
        partial_differences_fit(x0 as int, s),
        env.len() + s.len() + 1 < usize::MAX,
    ensures
        eval_spec(env, Expr::Sub(seq![Expr::Var(name), Expr::Int(x0)].add(int_exprs(s))), t, d) == (
            with_child_tables(env, t, s.len() + 1),
            Expr::Int((x0 - int_sum(s)) as i64),
        ),
{
    let all = seq![x0].add(s);
    let call = seq![Expr::Var(name), Expr::Int(x0)].add(int_exprs(s));
    assert(int_exprs(all) =~= seq![Expr::Int(x0)].add(int_exprs(s)));
    assert(call.drop_first() =~= int_exprs(all));
    law_int_arguments_evaluate_in_order(env, all, t, d);
    law_difference_is_the_difference(x0, s);
}

/// Calling a lambda binds its parameter name to 5 in the lambda's table.
pub proof fn law_lambda_parameter_binding(env: Seq<TableView>, t: EnvId, x: Seq<char>)
    requires
        t < env.len(),
    ensures
        lookup_spec(bind_params(env, t, Expr::Sub(seq![Expr::Var(x)])), t, x) == Some(
            Binding::BuiltIn(0, Builtin::Value(Expr::Int(5))),
        ),
{
    let names = seq![Expr::Var(x)];
    let env1 = spec_table_add(env, t, x, Binding::BuiltIn(0, Builtin::Value(Expr::Int(5))));
    assert(names.drop_first().len() == 0);
    assert(bind_vars(env, t, names) == bind_vars(env1, t, names.drop_first()));
    law_lookup_after_add(env, t, x, Binding::BuiltIn(0, Builtin::Value(Expr::Int(5))));
}

// ---------------------------------------------------------------------------
// Kinds and values

/// Two expressions have the same kind exactly when they are of the same variant.
pub proof fn law_kind_is_the_variant(a: Sexps, b: Sexps)
    ensures
        (kind(a) == kind(b)) <==> (
            (a is Str && b is Str) || (a is Int && b is Int) || (a is Float && b is Float) || (a is Error
                && b is Error) || (a is Bool && b is Bool) || (a is Var && b is Var) || (a is Lambda
                && b is Lambda) || (a is Quote && b is Quote) || (a is Sub && b is Sub)
        ),
{
}

/// Value equality is symmetric; strings, integers and booleans are equal exactly when they
/// hold the same value; and values of different kinds, and variables, errors, lambdas,
/// quotes and lists, are never equal.
pub proof fn law_value_equality(a: Expr, b: Expr)
    ensures
        value_eq_spec(a, b) == value_eq_spec(b, a),
        a is Int && b is Int ==> value_eq_spec(a, b) == Some(a->Int_0 == b->Int_0),
        a is Str && b is Str ==> value_eq_spec(a, b) == Some(a->Str_0 == b->Str_0),
        a is Bool && b is Bool ==> value_eq_spec(a, b) == Some(a->Bool_0 == b->Bool_0),
        a is Float && b is Float ==> value_eq_spec(a, b) == Some(float_eq_spec(a->Float_0, b->Float_0)),
        (a is Var || a is Error || a is Lambda || a is Quote || a is Sub) ==> value_eq_spec(a, b)
            == Some(false),
{
    match (a, b) {
        (Expr::Float(x), Expr::Float(y)) => {
            law_float_equality(x, y);
        },
        _ => {},
    }
}

/// Value order is antisymmetric: `a` is below `b` exactly when `b` is above `a`. Two
/// integers, or two floats, are ordered as numbers are, and values that are not numbers are
/// unordered.
pub proof fn law_value_order(a: Expr, b: Expr)
    ensures
        value_cmp_spec(a, b) == Some(Some(Ordering::Less)) <==> value_cmp_spec(b, a) == Some(
            Some(Ordering::Greater),
        ),
        a is Int && b is Int ==> (value_cmp_spec(a, b) == Some(Some(Ordering::Less)) <==> a->Int_0
            < b->Int_0),
        a is Int && b is Int ==> (value_cmp_spec(a, b) == Some(Some(Ordering::Greater)) <==> a->Int_0
            > b->Int_0),
        a is Float && b is Float ==> (value_cmp_spec(a, b) == Some(Some(Ordering::Less))
            <==> float_lt_spec(a->Float_0, b->Float_0)),
        a is Float && b is Float ==> (value_cmp_spec(a, b) == Some(Some(Ordering::Greater))
            <==> float_lt_spec(b->Float_0, a->Float_0)),
        !(a is Int || a is Float) ==> value_cmp_spec(a, b) == Some(None::<Ordering>),
{
    match (a, b) {
        (Expr::Float(x), Expr::Float(y)) => {
            law_float_trichotomy(x, y);
            law_float_trichotomy(y, x);
        },
        _ => {},
    }
}

/// The quoting characters are the backquote, the quote and the comma, and no other
/// character quotes.
pub proof fn law_quote_characters(c: char)
    ensures
        quote_of('`') == Some(QuoteType::BackQuote),
        quote_of('\'') == Some(QuoteType::Q),
        quote_of(',') == Some(QuoteType::Comma),
        c != '`' && c != '\'' && c != ',' ==> quote_of(c) is None,
{
}

/// In a chain of scopes, a variable whose latest binding in the innermost scope is `f`
/// evaluates to what `f` gives on no arguments.
pub proof fn law_scoped_variable(
    c: Seq<Seq<(Seq<char>, Fun)>>,
    inner: Seq<(Seq<char>, Fun)>,
    name: Seq<char>,
    f: Fun,
)
    ensures
        scoped_eval_spec(seq![inner.push((name, f))].add(c), Expr::Var(name)) == scoped_exec_spec(
            f,
            Seq::empty(),
        ),
{
    law_scope_latest_binding_wins(c, inner, name, f);
}

} // verus!
