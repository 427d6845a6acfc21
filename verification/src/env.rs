use vstd::prelude::*;
use vstd::hash_map::StringHashMap;
use crate::types::{EnvId, Sexps, Expr, copy_sexps};

verus! {

/// The names of a lambda's parameters, as written: a sub-expression of variables.
pub type FunArgNames = Sexps;

/// The arguments handed to a callable, as one sub-expression.
pub type FunArgs = Sexps;

/// A function built into the interpreter.
#[derive(Debug)]
pub enum BuiltInFunc {
    /// Gives back a stored value, whatever its arguments.
    Value(Sexps),
    /// Gives back a stored value inside the list `(__var value)`, which marks it as the value
    /// of a variable, whatever its arguments.
    MarkedValue(Sexps),
    /// Adds its integer arguments.
    Sum,
    /// Subtracts its later integer arguments from the first.
    Difference,
}

/// What a symbol table binds a name to.
#[derive(Debug)]
pub enum Callable {
    /// A built-in function, with the table it was made in.
    BuiltIn(EnvId, BuiltInFunc),
    /// A lambda: the table it was made in, its parameter names and its body.
    Lambda(EnvId, FunArgNames, Sexps),
}

/// The mathematical value of a built-in function.
pub enum Builtin {
    Value(Expr),
    MarkedValue(Expr),
    Sum,
    Difference,
}

/// The mathematical value of a binding.
pub enum Binding {
    BuiltIn(EnvId, Builtin),
    Lambda(EnvId, Expr, Expr),
}

impl View for BuiltInFunc {
    type V = Builtin;

    open spec fn view(&self) -> Builtin {
        match *self {
            BuiltInFunc::Value(e) => Builtin::Value(e@),
            BuiltInFunc::MarkedValue(e) => Builtin::MarkedValue(e@),
            BuiltInFunc::Sum => Builtin::Sum,
            BuiltInFunc::Difference => Builtin::Difference,
        }
    }
}

impl View for Callable {
    type V = Binding;

    open spec fn view(&self) -> Binding {
        match *self {
            Callable::BuiltIn(id, f) => Binding::BuiltIn(id, f@),
            Callable::Lambda(id, names, body) => Binding::Lambda(id, names@, body@),
        }
    }
}

/// A copy of a callable.
pub fn copy_callable(c: &Callable) -> (r: Callable)
    ensures
        r == *c,
{
    match c {
        Callable::BuiltIn(id, f) => Callable::BuiltIn(
            *id,
            match f {
                BuiltInFunc::Value(e) => BuiltInFunc::Value(copy_sexps(e)),
                BuiltInFunc::MarkedValue(e) => BuiltInFunc::MarkedValue(copy_sexps(e)),
                BuiltInFunc::Sum => BuiltInFunc::Sum,
                BuiltInFunc::Difference => BuiltInFunc::Difference,
            },
        ),
        Callable::Lambda(id, names, body) => Callable::Lambda(*id, copy_sexps(names), copy_sexps(body)),
    }
}

/// A callable that gives back `exp` marked as the value of a variable, as
/// `get_sym_table_val` and `sym_table_is_var` expect.
pub fn make_sym_table_val(exp: Sexps) -> (r: Callable)
    ensures
        r == Callable::BuiltIn(0, BuiltInFunc::MarkedValue(exp)),
{
    Callable::BuiltIn(0, BuiltInFunc::MarkedValue(exp))
}

/// A callable that gives back `exp`: what `define` binds a name to.
pub fn make_value(exp: Sexps) -> (r: Callable)
    ensures
        r == Callable::BuiltIn(0, BuiltInFunc::Value(exp)),
{
    Callable::BuiltIn(0, BuiltInFunc::Value(exp))
}

/// One symbol table: its bindings and the table it looks in next.
pub struct Table {
    pub bindings: StringHashMap<Callable>,
    pub parent: EnvId,
}

/// The mathematical value of a table.
pub struct TableView {
    pub bindings: Map<Seq<char>, Binding>,
    pub parent: EnvId,
}

impl View for Table {
    type V = TableView;

    open spec fn view(&self) -> TableView {
        TableView { bindings: self.bindings@.map_values(|c: Callable| c@), parent: self.parent }
    }
}

/// All symbol tables of a program, addressed by their index.
pub struct Env {
    pub tables: Vec<Table>,
}

impl View for Env {
    type V = Seq<TableView>;

    open spec fn view(&self) -> Seq<TableView> {
        self.tables@.map_values(|t: Table| t@)
    }
}

/// Whether a search for `key` that starts at table `t` ends within `n` steps:
/// at a table that does not exist, at a table that binds `key`, or at table 0.
pub open spec fn lookup_stops(env: Seq<TableView>, t: EnvId, key: Seq<char>, n: nat) -> bool
    decreases n,
{
    if t >= env.len() || env[t as int].bindings.contains_key(key) || t == 0 {
        true
    } else if n == 0 {
        false
    } else {
        lookup_stops(env, env[t as int].parent, key, (n - 1) as nat)
    }
}

/// What a search for `key` that starts at table `t` finds within `n` steps.
pub open spec fn lookup_within(env: Seq<TableView>, t: EnvId, key: Seq<char>, n: nat) -> Option<Binding>
    decreases n,
{
    if t >= env.len() {
        None
    } else if env[t as int].bindings.contains_key(key) {
        Some(env[t as int].bindings[key])
    } else if t == 0 || n == 0 {
        None
    } else {
        lookup_within(env, env[t as int].parent, key, (n - 1) as nat)
    }
}

/// What a search for `key` that starts at table `t` finds: the binding of the nearest
/// table along the parents that binds `key`, looking no further than table 0 and
/// following at most as many parents as there are tables.
pub open spec fn lookup_spec(env: Seq<TableView>, t: EnvId, key: Seq<char>) -> Option<Binding> {
    lookup_within(env, t, key, env.len())
}

/// A search that ends within `n` steps ends within any larger number, and finds the same.
pub proof fn lemma_lookup_more_steps(env: Seq<TableView>, t: EnvId, key: Seq<char>, n: nat, m: nat)
    requires
        lookup_stops(env, t, key, n),
        n <= m,
    ensures
        lookup_stops(env, t, key, m),
        lookup_within(env, t, key, m) == lookup_within(env, t, key, n),
    decreases n,
{
    if t >= env.len() || env[t as int].bindings.contains_key(key) || t == 0 {
    } else {
        lemma_lookup_more_steps(env, env[t as int].parent, key, (n - 1) as nat, (m - 1) as nat);
    }
}

/// Every table but the first looks in an earlier table next.
pub open spec fn parents_earlier(env: Seq<TableView>) -> bool {
    forall|i: int| 0 < i < env.len() ==> (#[trigger] env[i]).parent < i
}

/// When every table looks in an earlier one, a search from `t` ends within `t` steps.
pub proof fn lemma_lookup_stops_early(env: Seq<TableView>, t: EnvId, key: Seq<char>)
    requires
        parents_earlier(env),
    ensures
        lookup_stops(env, t, key, t as nat),
    decreases t,
{
    if t >= env.len() || env[t as int].bindings.contains_key(key) || t == 0 {
    } else {
        let p = env[t as int].parent;
        lemma_lookup_stops_early(env, p, key);
        lemma_lookup_more_steps(env, p, key, p as nat, (t - 1) as nat);
    }
    assert(lookup_stops(env, t, key, t as nat));
}

/// The environment with an empty table added at the end, looking in `parent` next.
pub open spec fn spec_table_new(env: Seq<TableView>, parent: EnvId) -> Seq<TableView> {
    env.push(TableView { bindings: Map::empty(), parent })
}

/// The environment with `key` bound to `b` in table `t`, when that table exists.
pub open spec fn spec_table_add(env: Seq<TableView>, t: EnvId, key: Seq<char>, b: Binding) -> Seq<TableView> {
    if t < env.len() {
        env.update(t as int, TableView { bindings: env[t as int].bindings.insert(key, b), parent: env[t as int].parent })
    } else {
        env
    }
}

/// The environment that `Env::new` makes.
pub open spec fn fresh_env() -> Seq<TableView> {
    seq![TableView { bindings: Map::empty(), parent: 0 }]
}

impl Env {
    /// An environment with one empty table, the root table 0.
    pub fn new() -> (r: Env)
        ensures
            r@ == fresh_env(),
            parents_earlier(r@),
    {
        let mut env = Env { tables: Vec::new() };
        env.table_new(0);
        env
    }

    /// Adds an empty table that looks in `parent` next, and gives its index.
    pub fn table_new(&mut self, parent: EnvId) -> (r: EnvId)
        ensures
            r == old(self)@.len(),
            final(self)@ == spec_table_new(old(self)@, parent),
            parents_earlier(old(self)@) && parent < old(self)@.len() ==> parents_earlier(final(self)@),
    {
        self.tables.push(Table { bindings: StringHashMap::new(), parent });
        proof {
            let last = self.tables@.len() - 1;
            assert(self@[last].bindings =~= Map::empty());
            assert(self@ =~= old(self)@.push(TableView { bindings: Map::empty(), parent }));
            if parents_earlier(old(self)@) && parent < old(self)@.len() {
                assert forall|i: int| 0 < i < self@.len() implies (#[trigger] self@[i]).parent < i by {
                    if i < old(self)@.len() {
                        assert(old(self)@[i].parent < i);
                    }
                }
            }
        }
        self.tables.len() - 1
    }

    /// Binds `key` to `entry` in table `table_id`, if that table exists, and says whether it does.
    pub fn table_add(&mut self, table_id: EnvId, key: &str, entry: Callable) -> (r: bool)
        ensures
            r == (table_id < old(self)@.len()),
            final(self)@ == spec_table_add(old(self)@, table_id, key@, entry@),
            parents_earlier(old(self)@) ==> parents_earlier(final(self)@),
    {
        if table_id < self.tables.len() {
            let ghost e = entry@;
            self.tables[table_id].bindings.insert(key.to_string(), entry);
            proof {
                let nt = TableView {
                    bindings: old(self)@[table_id as int].bindings.insert(key@, e),
                    parent: old(self)@[table_id as int].parent,
                };
                assert(self@[table_id as int].bindings =~= nt.bindings);
                assert(self@ =~= old(self)@.update(table_id as int, nt));
                if parents_earlier(old(self)@) {
                    assert forall|i: int| 0 < i < self@.len() implies (#[trigger] self@[i]).parent < i by {
                        assert(old(self)@[i].parent < i);
                    }
                }
            }
            true
        } else {
            false
        }
    }

    /// The binding of `key` seen from table `table_id`: that of the table itself, or else
    /// the one seen from its parent, stopping at table 0. A search that has followed as many
    /// parents as there are tables has gone round a cycle of parents, and finds nothing.
    pub fn lookup(&self, table_id: EnvId, key: &str) -> (r: Option<&Callable>)
        ensures
            match r {
                Some(c) => lookup_spec(self@, table_id, key@) == Some(c@),
                None => lookup_spec(self@, table_id, key@) is None,
            },
    {
        let mut id = table_id;
        let mut steps: usize = self.tables.len();
        loop
            invariant
                steps <= self.tables@.len(),
                lookup_within(self@, id, key@, steps as nat) == lookup_spec(self@, table_id, key@),
            decreases steps,
        {
            if id >= self.tables.len() {
                return None;
            }
            let table = &self.tables[id];
            match table.bindings.get(key) {
                Some(v) => {
                    assert(self@[id as int].bindings.contains_key(key@));
                    return Some(v);
                },
                None => {
                    assert(!self@[id as int].bindings.contains_key(key@));
                    if id == 0 || steps == 0 {
                        return None;
                    }
                    id = table.parent;
                    steps = steps - 1;
                },
            }
        }
    }
}

} // verus!
