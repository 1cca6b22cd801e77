//! What parsing leaves behind in the tree: every name stands with an
//! offset that leads to a frame that declares it, or with none.
//!
//! The scopes are followed through a statement list as the parser
//! follows them: a declaration adds its name to the frame it stands in,
//! a block, a loop and a function body have a frame of their own.

use crate::ast::{EnvHandle, ExprView, IdentifierView, StatementView, Value};
use crate::environment::{lemma_resolve_bound, slot, Env, EnvView, FrameView};
use crate::grammar::{all_resolved, for_round, lowered_for, resolved, with_parameters};
use vstd::prelude::*;

verus! {

/// Whether the name has no offset, or an offset that leads from the
/// frame `at`, along the enclosing frames, to a frame that binds it.
pub open spec fn bound(id: IdentifierView, env: EnvView, at: EnvHandle) -> bool {
    match id.offset {
        None => true,
        Some(k) => match Env::ancestor(env, at, k as nat) {
            Some(f) => f < env.len() && env[f as int].has(id.name),
            None => false,
        },
    }
}

/// Whether every name in the expression is [`bound`].
#[verifier::opaque]
pub open spec fn expr_bound(e: ExprView, env: EnvView, at: EnvHandle) -> bool
    decreases e,
{
    match e {
        ExprView::Empty => true,
        ExprView::Basic(_) => true,
        ExprView::Identifier { id } => bound(id, env, at),
        ExprView::Assignment { id, e } => expr_bound(*id, env, at) && expr_bound(*e, env, at),
        ExprView::Unary { op, e } => expr_bound(*e, env, at),
        ExprView::Binary { op, a, b } => expr_bound(*a, env, at) && expr_bound(*b, env, at),
        ExprView::Or { a, b } => expr_bound(*a, env, at) && expr_bound(*b, env, at),
        ExprView::And { a, b } => expr_bound(*a, env, at) && expr_bound(*b, env, at),
        ExprView::Grouping { e } => expr_bound(*e, env, at),
        ExprView::Call { caller, args } => expr_bound(*caller, env, at) && all_bound(
            args,
            env,
            at,
        ),
    }
}

/// Whether every name in every expression of the list is [`bound`].
#[verifier::opaque]
pub open spec fn all_bound(list: Seq<ExprView>, env: EnvView, at: EnvHandle) -> bool
    decreases list,
{
    forall|i: int| 0 <= i < list.len() ==> expr_bound(#[trigger] list[i], env, at)
}

/// Whether every name of the list is [`bound`].
pub open spec fn names_bound(list: Seq<IdentifierView>, env: EnvView, at: EnvHandle) -> bool {
    forall|i: int| 0 <= i < list.len() ==> bound(#[trigger] list[i], env, at)
}

/// The scopes behind a statement that is read in the frame `at`: a
/// declaration and a function add their name to that frame, and so do
/// those in the branches of a conditional.
#[verifier::opaque]
pub open spec fn declared_by(s: StatementView, env: EnvView, at: EnvHandle) -> EnvView
    decreases s,
{
    match s {
        StatementView::Declaration { id, e } => Env::inserted(env, at, id.name, Value::Nil),
        StatementView::Function { id, parameters, body } => Env::inserted(
            env,
            at,
            id.name,
            Value::Nil,
        ),
        StatementView::Conditional { condition, case_if, case_else } => match case_else {
            Some(other) => declared_by(*other, declared_by(*case_if, env, at), at),
            None => declared_by(*case_if, env, at),
        },
        _ => env,
    }
}

/// The scopes behind the statements of the list from the `from`th on.
#[verifier::opaque]
pub open spec fn declared_by_list(
    list: Seq<StatementView>,
    from: nat,
    env: EnvView,
    at: EnvHandle,
) -> EnvView
    decreases list.len() - from,
{
    if from >= list.len() {
        env
    } else {
        declared_by_list(list, from + 1, declared_by(list[from as int], env, at), at)
    }
}

/// Whether every name in the statement is [`bound`] in the scopes in
/// which it stands, where the statement stands in the frame `at` of the
/// scopes `env`.
#[verifier::opaque]
pub open spec fn scoped(s: StatementView, env: EnvView, at: EnvHandle) -> bool
    decreases s, 0nat,
{
    match s {
        StatementView::Empty => true,
        StatementView::Break => true,
        StatementView::Expression { e } => expr_bound(e, env, at),
        StatementView::Print { e } => expr_bound(e, env, at),
        StatementView::Return { expr } => expr_bound(expr, env, at),
        StatementView::Assignment { id, e } => expr_bound(id, env, at) && expr_bound(e, env, at),
        StatementView::Declaration { id, e } => bound(id, env, at) && expr_bound(e, env, at),
        StatementView::Block { statements } => list_scoped(
            statements,
            0,
            Env::narrowed(env, at),
            env.len() as EnvHandle,
        ),
        StatementView::Loop { statements } => list_scoped(
            statements,
            0,
            Env::narrowed(env, at),
            env.len() as EnvHandle,
        ),
        StatementView::While { condition, body } => expr_bound(
            condition,
            Env::narrowed(env, at),
            env.len() as EnvHandle,
        ) && list_scoped(body, 0, Env::narrowed(env, at), env.len() as EnvHandle),
        StatementView::Conditional { condition, case_if, case_else } => {
            &&& expr_bound(condition, env, at)
            &&& scoped(*case_if, env, at)
            &&& match case_else {
                Some(other) => scoped(*other, declared_by(*case_if, env, at), at),
                None => true,
            }
        },
        StatementView::Function { id, parameters, body } => {
            &&& bound(id, env, at)
            &&& names_bound(parameters, env, at)
            &&& list_scoped(
                body,
                0,
                with_parameters(
                    Env::narrowed(Env::inserted(env, at, id.name, Value::Nil), at),
                    env.len() as EnvHandle,
                    parameters,
                    0,
                ),
                env.len() as EnvHandle,
            )
        },
    }
}

/// Whether the statements of the list from the `from`th on are
/// [`scoped`], each in the scopes that those before it leave behind.
#[verifier::opaque]
pub open spec fn list_scoped(
    list: Seq<StatementView>,
    from: nat,
    env: EnvView,
    at: EnvHandle,
) -> bool
    decreases list, list.len() - from,
{
    if from >= list.len() {
        true
    } else {
        scoped(list[from as int], env, at) && list_scoped(
            list,
            from + 1,
            declared_by(list[from as int], env, at),
            at,
        )
    }
}

/// The scopes `after` are the scopes `before` with names added to the
/// frame `at` and nothing else changed.
#[verifier::opaque]
pub open spec fn grown(before: EnvView, after: EnvView, at: EnvHandle) -> bool {
    &&& after.len() == before.len()
    &&& forall|j: int|
        #![trigger after[j]]
        #![trigger before[j]]
        0 <= j < before.len() ==> {
            &&& j != at ==> after[j] == before[j]
            &&& after[j].enclosing == before[j].enclosing
            &&& after[j].depth == before[j].depth
            &&& after[j].captured == before[j].captured
            &&& forall|name: Seq<char>| before[j].has(name) ==> #[trigger] after[j].has(name)
        }
}

/// A name that a frame binds is still bound when another binding is
/// put into the frame.
pub proof fn lemma_put_keeps_names(
    names: Seq<Seq<char>>,
    added: Seq<char>,
    name: Seq<char>,
    from: nat,
)
    requires
        slot(names, name, from) < names.len(),
    ensures
        slot(names.push(added), name, from) == slot(names, name, from),
    decreases names.len() - from,
{
    if from < names.len() && names[from as int] != name {
        lemma_put_keeps_names(names, added, name, from + 1);
    }
}

/// Binding a name in the frame `at` grows the scopes in that frame.
pub proof fn lemma_inserted_grows(env: EnvView, at: EnvHandle, added: Seq<char>, v: Value)
    requires
        at < env.len(),
    ensures
        grown(env, Env::inserted(env, at, added, v), at),
{
    reveal(grown);
    let after = Env::inserted(env, at, added, v);
    assert forall|name: Seq<char>| env[at as int].has(name) implies #[trigger] after[at as int].has(
        name,
    ) by {
        if !env[at as int].has(added) {
            lemma_put_keeps_names(env[at as int].names, added, name, 0);
        }
    }
}

/// Growing is transitive.
pub proof fn lemma_grown_twice(a: EnvView, b: EnvView, c: EnvView, at: EnvHandle)
    requires
        grown(a, b, at),
        grown(b, c, at),
    ensures
        grown(a, c, at),
{
    reveal(grown);
    assert forall|j: int, name: Seq<char>|
        0 <= j < a.len() && a[j].has(name) implies #[trigger] c[j].has(name) by {
        assert(b[j].has(name));
    }
}

/// The scopes behind a statement are those before it, grown in the
/// frame that the statement stands in.
pub proof fn lemma_declared_by_grows(s: StatementView, env: EnvView, at: EnvHandle)
    requires
        at < env.len(),
    ensures
        grown(env, declared_by(s, env, at), at),
    decreases s,
{
    reveal_with_fuel(declared_by, 3);
    reveal(grown);
    match s {
        StatementView::Declaration { id, e } => {
            lemma_inserted_grows(env, at, id.name, Value::Nil);
        },
        StatementView::Function { id, parameters, body } => {
            lemma_inserted_grows(env, at, id.name, Value::Nil);
        },
        StatementView::Conditional { condition, case_if, case_else } => {
            lemma_declared_by_grows(*case_if, env, at);
            match case_else {
                Some(other) => {
                    let middle = declared_by(*case_if, env, at);
                    lemma_declared_by_grows(*other, middle, at);
                    lemma_grown_twice(env, middle, declared_by(*other, middle, at), at);
                },
                None => {},
            }
        },
        _ => {},
    }
}

/// The scopes behind a list of statements are those before it, grown
/// in the frame that the statements stand in.
pub proof fn lemma_declared_by_list_grows(
    list: Seq<StatementView>,
    from: nat,
    env: EnvView,
    at: EnvHandle,
)
    requires
        at < env.len(),
    ensures
        grown(env, declared_by_list(list, from, env, at), at),
    decreases list.len() - from,
{
    reveal_with_fuel(declared_by_list, 3);
    reveal(grown);
    if from < list.len() {
        let next = declared_by(list[from as int], env, at);
        lemma_declared_by_grows(list[from as int], env, at);
        lemma_declared_by_list_grows(list, from + 1, next, at);
        lemma_grown_twice(env, next, declared_by_list(list, from + 1, next, at), at);
    }
}

/// Walking enclosing frames leads to the same frame in scopes that
/// have grown.
pub proof fn lemma_ancestor_in_grown(
    before: EnvView,
    after: EnvView,
    frame: EnvHandle,
    at: EnvHandle,
    steps: nat,
)
    requires
        grown(before, after, frame),
    ensures
        Env::ancestor(after, at, steps) == Env::ancestor(before, at, steps),
    decreases steps,
{
    reveal(grown);
    if at < before.len() && steps > 0 {
        match before[at as int].enclosing {
            Some(p) => {
                lemma_ancestor_in_grown(before, after, frame, p, (steps - 1) as nat);
            },
            None => {},
        }
    }
}

/// A name that is bound stays bound in scopes that have grown.
pub proof fn lemma_bound_in_grown(
    id: IdentifierView,
    before: EnvView,
    after: EnvView,
    frame: EnvHandle,
    at: EnvHandle,
)
    requires
        grown(before, after, frame),
        bound(id, before, at),
    ensures
        bound(id, after, at),
{
    reveal(grown);
    match id.offset {
        Some(k) => {
            lemma_ancestor_in_grown(before, after, frame, at, k as nat);
        },
        None => {},
    }
}

/// An expression whose names are bound keeps them bound in scopes that
/// have grown.
pub proof fn lemma_expr_bound_in_grown(
    e: ExprView,
    before: EnvView,
    after: EnvView,
    frame: EnvHandle,
    at: EnvHandle,
)
    requires
        grown(before, after, frame),
        expr_bound(e, before, at),
    ensures
        expr_bound(e, after, at),
    decreases e,
{
    reveal_with_fuel(expr_bound, 3);
    match e {
        ExprView::Identifier { id } => {
            lemma_bound_in_grown(id, before, after, frame, at);
        },
        ExprView::Assignment { id, e } => {
            lemma_expr_bound_in_grown(*id, before, after, frame, at);
            lemma_expr_bound_in_grown(*e, before, after, frame, at);
        },
        ExprView::Unary { op, e } => {
            lemma_expr_bound_in_grown(*e, before, after, frame, at);
        },
        ExprView::Binary { op, a, b } => {
            lemma_expr_bound_in_grown(*a, before, after, frame, at);
            lemma_expr_bound_in_grown(*b, before, after, frame, at);
        },
        ExprView::Or { a, b } => {
            lemma_expr_bound_in_grown(*a, before, after, frame, at);
            lemma_expr_bound_in_grown(*b, before, after, frame, at);
        },
        ExprView::And { a, b } => {
            lemma_expr_bound_in_grown(*a, before, after, frame, at);
            lemma_expr_bound_in_grown(*b, before, after, frame, at);
        },
        ExprView::Grouping { e } => {
            lemma_expr_bound_in_grown(*e, before, after, frame, at);
        },
        ExprView::Call { caller, args } => {
            lemma_expr_bound_in_grown(*caller, before, after, frame, at);
            assert forall|i: int| 0 <= i < args.len() implies expr_bound(
                #[trigger] args[i],
                after,
                at,
            ) by {
                lemma_expr_bound_in_grown(args[i], before, after, frame, at);
            }
        },
        _ => {},
    }
}

/// A name that carries the offset that it has in the scopes is bound.
pub proof fn lemma_named_is_bound(name: Seq<char>, env: EnvView, at: EnvHandle)
    requires
        Env::well_formed(env),
        at < env.len(),
    ensures
        bound(IdentifierView { name, offset: Env::resolve(env, at, name) }, env, at),
{
    lemma_resolve_bound(env, at, name);
}

/// An expression whose names carry the offsets that they have in the
/// scopes has all its names bound.
pub proof fn lemma_resolved_is_bound(e: ExprView, env: EnvView, at: EnvHandle)
    requires
        Env::well_formed(env),
        at < env.len(),
        resolved(e, env, at),
    ensures
        expr_bound(e, env, at),
    decreases e,
{
    reveal_with_fuel(expr_bound, 3);
    reveal_with_fuel(resolved, 3);
    match e {
        ExprView::Identifier { id } => {
            lemma_named_is_bound(id.name, env, at);
        },
        ExprView::Assignment { id, e } => {
            lemma_resolved_is_bound(*id, env, at);
            lemma_resolved_is_bound(*e, env, at);
        },
        ExprView::Unary { op, e } => {
            lemma_resolved_is_bound(*e, env, at);
        },
        ExprView::Binary { op, a, b } => {
            lemma_resolved_is_bound(*a, env, at);
            lemma_resolved_is_bound(*b, env, at);
        },
        ExprView::Or { a, b } => {
            lemma_resolved_is_bound(*a, env, at);
            lemma_resolved_is_bound(*b, env, at);
        },
        ExprView::And { a, b } => {
            lemma_resolved_is_bound(*a, env, at);
            lemma_resolved_is_bound(*b, env, at);
        },
        ExprView::Grouping { e } => {
            lemma_resolved_is_bound(*e, env, at);
        },
        ExprView::Call { caller, args } => {
            lemma_resolved_is_bound(*caller, env, at);
            assert forall|i: int| 0 <= i < args.len() implies expr_bound(
                #[trigger] args[i],
                env,
                at,
            ) by {
                assert(resolved(args[i], env, at));
                lemma_resolved_is_bound(args[i], env, at);
            }
        },
        _ => {},
    }
}

/// A list of scoped statements stays scoped with one more statement at
/// its end that is scoped in the scopes that the list leaves behind.
pub proof fn lemma_list_scoped_push(
    list: Seq<StatementView>,
    from: nat,
    env: EnvView,
    at: EnvHandle,
    last: StatementView,
)
    requires
        from <= list.len(),
        list_scoped(list, from, env, at),
        scoped(last, declared_by_list(list, from, env, at), at),
    ensures
        list_scoped(list.push(last), from, env, at),
        declared_by_list(list.push(last), from, env, at) == declared_by(
            last,
            declared_by_list(list, from, env, at),
            at,
        ),
    decreases list.len() - from,
{
    reveal_with_fuel(declared_by_list, 3);
    reveal_with_fuel(scoped, 3);
    reveal_with_fuel(list_scoped, 3);
    let longer = list.push(last);
    if from < list.len() {
        assert(longer[from as int] == list[from as int]);
        lemma_list_scoped_push(list, from + 1, declared_by(list[from as int], env, at), at, last);
    } else {
        assert(longer[from as int] == last);
        assert(list_scoped(longer, from + 1, declared_by(last, env, at), at));
        assert(declared_by_list(longer, from + 1, declared_by(last, env, at), at) == declared_by(
            last,
            env,
            at,
        ));
    }
}

/// Declaring parameters in the frame `at` grows the scopes in that
/// frame.
pub proof fn lemma_with_parameters_grows(
    env: EnvView,
    at: EnvHandle,
    list: Seq<IdentifierView>,
    from: nat,
)
    requires
        at < env.len(),
    ensures
        grown(env, with_parameters(env, at, list, from), at),
    decreases list.len() - from,
{
    reveal(grown);
    if from < list.len() {
        let next = Env::inserted(env, at, list[from as int].name, Value::Nil);
        lemma_inserted_grows(env, at, list[from as int].name, Value::Nil);
        lemma_with_parameters_grows(next, at, list, from + 1);
        lemma_grown_twice(env, next, with_parameters(next, at, list, from + 1), at);
    }
}

/// Leaving a scope whose frame has only grown since it was entered
/// gives back the scopes as they were when it was entered.
pub proof fn lemma_leave_scope(env: EnvView, at: EnvHandle, after: EnvView)
    requires
        at < env.len() <= usize::MAX,
        grown(Env::narrowed(env, at), after, env.len() as EnvHandle),
    ensures
        Env::released(after, env.len()) == env,
{
    reveal(grown);
    reveal_with_fuel(Env::released, 2);
    let inner = Env::narrowed(env, at);
    assert(inner.len() == env.len() + 1);
    assert(!inner[env.len() as int].captured);
    assert(after.len() == inner.len());
    assert(!after[env.len() as int].captured);
    assert forall|j: int| 0 <= j < env.len() implies after.drop_last()[j] == env[j] by {
        assert(after[j] == inner[j]);
        assert(inner[j] == env[j]);
    }
    assert(after.drop_last() =~= env);
}

/// A block and a loop are scoped where their statements are scoped in
/// a frame of their own, and leaving that frame gives back the scopes
/// around them.
pub proof fn lemma_block_is_scoped(
    env: EnvView,
    at: EnvHandle,
    list: Seq<StatementView>,
    after: EnvView,
)
    requires
        at < env.len() < usize::MAX,
        list_scoped(list, 0, Env::narrowed(env, at), env.len() as EnvHandle),
        after == declared_by_list(list, 0, Env::narrowed(env, at), env.len() as EnvHandle),
    ensures
        scoped(StatementView::Block { statements: list }, env, at),
        scoped(StatementView::Loop { statements: list }, env, at),
        Env::released(after, env.len()) == env,
{
    reveal_with_fuel(scoped, 3);
    reveal_with_fuel(list_scoped, 3);
    lemma_declared_by_list_grows(list, 0, Env::narrowed(env, at), env.len() as EnvHandle);
    lemma_leave_scope(env, at, after);
}

/// A `while` loop is scoped where its condition and its statements are
/// scoped in a frame of their own.
pub proof fn lemma_while_is_scoped(
    env: EnvView,
    at: EnvHandle,
    condition: ExprView,
    body: Seq<StatementView>,
)
    requires
        expr_bound(condition, Env::narrowed(env, at), env.len() as EnvHandle),
        list_scoped(body, 0, Env::narrowed(env, at), env.len() as EnvHandle),
    ensures
        scoped(StatementView::While { condition, body }, env, at),
{
    reveal_with_fuel(scoped, 3);
    reveal_with_fuel(list_scoped, 3);
}

/// The loop that a `for` loop is turned into has its condition and
/// its statements scoped where the condition and the increment were
/// bound before the body and the body is scoped.
pub proof fn lemma_for_round_is_scoped(
    env: EnvView,
    at: EnvHandle,
    condition: ExprView,
    increment: ExprView,
    body: Seq<StatementView>,
)
    requires
        at < env.len(),
        expr_bound(condition, env, at),
        expr_bound(increment, env, at),
        list_scoped(body, 0, env, at),
    ensures
        for_round(condition, increment, body) is While,
        expr_bound(for_round(condition, increment, body)->While_condition, env, at),
        list_scoped(for_round(condition, increment, body)->While_body, 0, env, at),
        grown(
            env,
            declared_by_list(
                for_round(condition, increment, body)->While_body,
                0,
                env,
                at,
            ),
            at,
        ),
        declared_by_list(for_round(condition, increment, body)->While_body, 0, env, at)
            == declared_by_list(body, 0, env, at),
{
    reveal_with_fuel(expr_bound, 3);
    reveal_with_fuel(declared_by, 3);
    reveal_with_fuel(scoped, 3);
    let after = declared_by_list(body, 0, env, at);
    lemma_declared_by_list_grows(body, 0, env, at);
    if !(increment is Empty) {
        let last = StatementView::Expression { e: increment };
        lemma_expr_bound_in_grown(increment, env, after, at, at);
        lemma_list_scoped_push(body, 0, env, at, last);
    }
}

/// What a `for` loop is turned into has its statements scoped where
/// the initialiser is scoped and the loop is scoped in the scopes
/// behind the initialiser.
pub proof fn lemma_lowered_for_is_scoped(
    env: EnvView,
    at: EnvHandle,
    init: StatementView,
    repeat: StatementView,
)
    requires
        init is Declaration || init is Empty,
        repeat is While,
        scoped(init, env, at),
        scoped(repeat, declared_by(init, env, at), at),
    ensures
        lowered_for(init, repeat) is Block,
        list_scoped(lowered_for(init, repeat)->Block_statements, 0, env, at),
        declared_by_list(lowered_for(init, repeat)->Block_statements, 0, env, at)
            == declared_by(init, env, at),
{
    reveal_with_fuel(declared_by, 3);
    reveal_with_fuel(declared_by_list, 3);
    reveal_with_fuel(scoped, 3);
    reveal_with_fuel(list_scoped, 3);
}

/// An empty statement and a `break` are scoped and leave the scopes as
/// they are.
pub proof fn lemma_plain_is_scoped(env: EnvView, at: EnvHandle)
    ensures
        scoped(StatementView::Empty, env, at),
        scoped(StatementView::Break, env, at),
        declared_by(StatementView::Empty, env, at) == env,
        declared_by(StatementView::Break, env, at) == env,
{
    reveal_with_fuel(declared_by, 3);
    reveal_with_fuel(scoped, 3);
}

/// A statement that holds one expression is scoped where the names of
/// the expression are bound, and leaves the scopes as they are.
pub proof fn lemma_simple_is_scoped(e: ExprView, env: EnvView, at: EnvHandle)
    requires
        expr_bound(e, env, at),
    ensures
        scoped(StatementView::Print { e }, env, at),
        scoped(StatementView::Expression { e }, env, at),
        scoped(StatementView::Return { expr: e }, env, at),
        declared_by(StatementView::Print { e }, env, at) == env,
        declared_by(StatementView::Expression { e }, env, at) == env,
        declared_by(StatementView::Return { expr: e }, env, at) == env,
{
    reveal_with_fuel(declared_by, 3);
    reveal_with_fuel(scoped, 3);
}

/// A declaration is scoped where its name and the names of its
/// initialiser are bound, and adds its name to the frame it stands in.
pub proof fn lemma_declaration_is_scoped(
    id: IdentifierView,
    e: ExprView,
    env: EnvView,
    at: EnvHandle,
)
    requires
        bound(id, env, at),
        expr_bound(e, env, at),
    ensures
        scoped(StatementView::Declaration { id, e }, env, at),
        declared_by(StatementView::Declaration { id, e }, env, at) == Env::inserted(
            env,
            at,
            id.name,
            Value::Nil,
        ),
{
    reveal_with_fuel(declared_by, 3);
    reveal_with_fuel(scoped, 3);
}

/// A conditional is scoped where its condition is bound and its
/// branches are scoped, the second in the scopes behind the first.
pub proof fn lemma_conditional_is_scoped(
    condition: ExprView,
    case_if: StatementView,
    case_else: Option<StatementView>,
    env: EnvView,
    at: EnvHandle,
)
    requires
        expr_bound(condition, env, at),
        scoped(case_if, env, at),
        case_else is Some ==> scoped(case_else->0, declared_by(case_if, env, at), at),
    ensures
        scoped(
            StatementView::Conditional {
                condition,
                case_if: Box::new(case_if),
                case_else: match case_else {
                    Some(other) => Some(Box::new(other)),
                    None => None,
                },
            },
            env,
            at,
        ),
        declared_by(
            StatementView::Conditional {
                condition,
                case_if: Box::new(case_if),
                case_else: match case_else {
                    Some(other) => Some(Box::new(other)),
                    None => None,
                },
            },
            env,
            at,
        ) == (match case_else {
            Some(other) => declared_by(other, declared_by(case_if, env, at), at),
            None => declared_by(case_if, env, at),
        }),
{
    reveal_with_fuel(declared_by, 3);
    reveal_with_fuel(scoped, 3);
}

/// A function is scoped where its name and its parameters are bound
/// and its body is scoped in a frame of its own that declares the
/// parameters; it adds its name to the frame it stands in.
pub proof fn lemma_function_is_scoped(
    id: IdentifierView,
    parameters: Seq<IdentifierView>,
    body: Seq<StatementView>,
    env: EnvView,
    at: EnvHandle,
)
    requires
        bound(id, env, at),
        names_bound(parameters, env, at),
        list_scoped(
            body,
            0,
            with_parameters(
                Env::narrowed(Env::inserted(env, at, id.name, Value::Nil), at),
                env.len() as EnvHandle,
                parameters,
                0,
            ),
            env.len() as EnvHandle,
        ),
    ensures
        scoped(StatementView::Function { id, parameters, body }, env, at),
        declared_by(StatementView::Function { id, parameters, body }, env, at) == Env::inserted(
            env,
            at,
            id.name,
            Value::Nil,
        ),
{
    reveal_with_fuel(declared_by, 3);
    reveal_with_fuel(scoped, 3);
    reveal_with_fuel(list_scoped, 3);
}

/// A block is scoped where its statements are scoped in a frame of
/// their own; a block, a loop and a `while` loop leave the scopes as
/// they are.
pub proof fn lemma_scope_is_scoped(
    env: EnvView,
    at: EnvHandle,
    condition: ExprView,
    list: Seq<StatementView>,
)
    ensures
        list_scoped(list, 0, Env::narrowed(env, at), env.len() as EnvHandle) ==> scoped(
            StatementView::Block { statements: list },
            env,
            at,
        ),
        declared_by(StatementView::Block { statements: list }, env, at) == env,
        declared_by(StatementView::Loop { statements: list }, env, at) == env,
        declared_by(StatementView::While { condition, body: list }, env, at) == env,
{
    reveal_with_fuel(declared_by, 3);
    reveal_with_fuel(scoped, 3);
    reveal_with_fuel(list_scoped, 3);
}

/// A list is scoped from a place on where the statement at that place
/// is scoped and the list is scoped behind it.
pub proof fn lemma_list_scoped_step(
    list: Seq<StatementView>,
    from: nat,
    env: EnvView,
    at: EnvHandle,
)
    ensures
        from >= list.len() ==> list_scoped(list, from, env, at) && declared_by_list(
            list,
            from,
            env,
            at,
        ) == env,
        from < list.len() ==> declared_by_list(list, from, env, at) == declared_by_list(
            list,
            from + 1,
            declared_by(list[from as int], env, at),
            at,
        ),
        from < list.len() && scoped(list[from as int], env, at) && list_scoped(
            list,
            from + 1,
            declared_by(list[from as int], env, at),
            at,
        ) ==> list_scoped(list, from, env, at),
{
    reveal_with_fuel(declared_by_list, 3);
    reveal_with_fuel(scoped, 3);
    reveal_with_fuel(list_scoped, 3);
}

/// Whether the frame that stands for the scope `scope` in a run is
/// there and binds every name that the scope declares.
pub open spec fn covers(
    read: EnvView,
    scope: EnvHandle,
    run: EnvView,
    frame: Option<EnvHandle>,
) -> bool {
    scope < read.len() ==> {
        &&& frame is Some
        &&& frame->0 < run.len()
        &&& forall|name: Seq<char>|
            read[scope as int].has(name) ==> #[trigger] run[frame->0 as int].has(name)
    }
}

/// Whether the frames of a run, seen from the frame `at`, mirror the
/// scopes that a piece of a program was read in, seen from the scope
/// `read_at`: step by step outward, each scope has its frame, and the
/// frame binds every name that the scope declares.
pub open spec fn mirrors(read: EnvView, read_at: EnvHandle, run: EnvView, at: EnvHandle) -> bool {
    forall|k: nat|
        (#[trigger] Env::ancestor(read, read_at, k)) is Some ==> covers(
            read,
            Env::ancestor(read, read_at, k)->0,
            run,
            Env::ancestor(run, at, k),
        )
}

/// Each step outward leads to a frame that is one less deep.
pub proof fn lemma_ancestor_depth(env: EnvView, at: EnvHandle, steps: nat)
    requires
        Env::well_formed(env),
        Env::ancestor(env, at, steps) is Some,
    ensures
        Env::ancestor(env, at, steps)->0 < env.len(),
        Env::ancestor(env, at, steps)->0 <= at,
        env[Env::ancestor(env, at, steps)->0 as int].depth + steps == env[at as int].depth,
    decreases steps,
{
    if steps > 0 {
        lemma_ancestor_depth(env, env[at as int].enclosing->0, (steps - 1) as nat);
    }
}

/// Walking outward from a frame leads to the same frames when a frame
/// is added at the end of the table.
pub proof fn lemma_ancestor_in_longer(env: EnvView, added: FrameView, at: EnvHandle, steps: nat)
    requires
        Env::well_formed(env),
        at < env.len(),
    ensures
        Env::ancestor(env.push(added), at, steps) == Env::ancestor(env, at, steps),
    decreases steps,
{
    if steps > 0 {
        match env[at as int].enclosing {
            Some(p) => {
                lemma_ancestor_in_longer(env, added, p, (steps - 1) as nat);
            },
            None => {},
        }
    }
}

/// A frame binds, besides the name that was put into it, only the
/// names that it bound.
pub proof fn lemma_put_adds_one_name(
    names: Seq<Seq<char>>,
    added: Seq<char>,
    name: Seq<char>,
    from: nat,
)
    requires
        name != added,
        slot(names.push(added), name, from) < names.len() + 1,
    ensures
        slot(names, name, from) < names.len(),
    decreases names.len() - from,
{
    if from < names.len() {
        assert(names.push(added)[from as int] == names[from as int]);
        if names[from as int] != name {
            lemma_put_adds_one_name(names, added, name, from + 1);
        }
    } else if from == names.len() {
        assert(names.push(added)[from as int] == added);
        reveal_with_fuel(slot, 2);
    }
}

} // verus!
