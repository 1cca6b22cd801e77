//! What every evaluation keeps of the table of scopes: the table stays
//! well formed, the frames that were there stay, further frames stay
//! only where a function holds them, and no frame but the one that a
//! statement runs in comes to bind a name that it did not bind.
//!
//! This is shown of what expressions and statements mean, so it holds
//! of the table between any two steps of an evaluation, not only of
//! the table that a run ends with.

use crate::ast::{Control, EnvHandle, ExprB, ExprView, IdentifierView, StatementView, Value};
use crate::environment::{lemma_resolve_bound, Env, EnvView};
use crate::semantics::{
    bind, call_body, call_value, eval, eval_assignment, eval_binary, eval_call, eval_logic,
    eval_unary, interpret, interpret_conditional, run_list, run_loop, run_scope, while_round,
    Outcome, World,
};
use vstd::prelude::*;

verus! {

/// The table `after` is well formed, keeps the frames of `before`, holds
/// further frames only where a function has captured the last of them,
/// and binds in each frame of `before` the names that it bound.
#[verifier::opaque]
pub open spec fn kept(before: EnvView, after: EnvView) -> bool {
    &&& Env::well_formed(after)
    &&& Env::extends(before, after)
    &&& Env::keeps_names(before, after)
}

/// The same, but that the frame `at` may bind further names.
#[verifier::opaque]
pub open spec fn kept_but(before: EnvView, after: EnvView, at: EnvHandle) -> bool {
    &&& Env::well_formed(after)
    &&& Env::extends(before, after)
    &&& Env::keeps_names_but(before, after, at)
}

/// A well-formed table keeps itself.
pub proof fn lemma_kept_same(env: EnvView, at: EnvHandle)
    requires
        Env::well_formed(env),
    ensures
        kept(env, env),
        kept_but(env, env, at),
{
    reveal(kept);
    reveal(kept_but);
}

/// What is kept is well formed and no shorter.
pub proof fn lemma_kept_holds(before: EnvView, after: EnvView, at: EnvHandle)
    requires
        kept(before, after) || kept_but(before, after, at),
    ensures
        Env::well_formed(after),
        before.len() <= after.len(),
        kept(before, after) ==> kept_but(before, after, at),
{
    reveal(kept);
    reveal(kept_but);
}

/// Keeping goes on from table to table.
pub proof fn lemma_kept_on(a: EnvView, b: EnvView, c: EnvView, at: EnvHandle)
    requires
        kept(a, b) || kept_but(a, b, at),
        kept(b, c) || kept_but(b, c, at),
    ensures
        kept_but(a, c, at),
        kept(a, b) && kept(b, c) ==> kept(a, c),
{
    reveal(kept);
    reveal(kept_but);
    assert(Env::keeps(a, c));
    if c.len() > a.len() {
        if c.len() == b.len() {
            assert(b.last().captured);
            assert(c[b.len() - 1].captured);
        }
    }
}

/// A new frame leaves the frames that were there as they were.
pub proof fn lemma_narrowed_kept(env: EnvView, parent: EnvHandle)
    requires
        Env::well_formed(env),
        parent < env.len() < usize::MAX,
    ensures
        Env::well_formed(Env::narrowed(env, parent)),
        Env::keeps(env, Env::narrowed(env, parent)),
        Env::keeps_names(env, Env::narrowed(env, parent)),
        Env::narrowed(env, parent).len() == env.len() + 1,
        !Env::narrowed(env, parent).last().captured,
{
}

/// Binding a name in a frame keeps the table, and the names of every
/// other frame; those of that frame too where it bound the name.
pub proof fn lemma_inserted_kept(env: EnvView, at: EnvHandle, name: Seq<char>, v: Value)
    requires
        Env::well_formed(env),
        at < env.len(),
    ensures
        kept_but(env, Env::inserted(env, at, name, v), at),
        Env::inserted(env, at, name, v).len() == env.len(),
        env[at as int].has(name) ==> kept(env, Env::inserted(env, at, name, v)),
{
    reveal(kept);
    reveal(kept_but);
}

/// Assigning to a name keeps the table and every frame's names.
pub proof fn lemma_assigned_kept(env: EnvView, at: EnvHandle, name: Seq<char>, v: Value)
    requires
        Env::well_formed(env),
        at < env.len(),
    ensures
        kept(env, Env::assigned(env, at, name, v)),
{
    lemma_resolve_bound(env, at, name);
    match Env::holder(env, at, name) {
        Some(f) => {
            lemma_inserted_kept(env, f, name, v);
        },
        None => {
            lemma_kept_same(env, at);
        },
    }
}

/// Marking a frame as captured keeps the table and every frame's names.
pub proof fn lemma_captured_kept(env: EnvView, at: EnvHandle)
    requires
        Env::well_formed(env),
        at < env.len(),
    ensures
        kept(env, Env::captured(env, at)),
{
    reveal(kept);
}

/// Leaving scopes takes frames off the end of the table only, stops at
/// `mark`, and stops before that only at a captured frame.
pub proof fn lemma_released_kept(env: EnvView, mark: nat)
    requires
        Env::well_formed(env),
    ensures
        Env::well_formed(Env::released(env, mark)),
        Env::released(env, mark).len() <= env.len(),
        mark <= env.len() ==> mark <= Env::released(env, mark).len(),
        Env::released(env, mark).len() > mark ==> Env::released(env, mark).last().captured,
        forall|j: int|
            0 <= j < Env::released(env, mark).len() ==> (#[trigger] Env::released(env, mark)[j])
                == env[j],
    decreases env.len(),
{
    if env.len() > mark && !env.last().captured {
        lemma_released_kept(env.drop_last(), mark);
    }
}

/// Entering a scope, running in it what keeps the table but for the
/// new frame's names, and leaving the scope keeps the table.
pub proof fn lemma_scope_kept(env: EnvView, parent: EnvHandle, inner: EnvView)
    requires
        Env::well_formed(env),
        parent < env.len() < usize::MAX,
        kept_but(Env::narrowed(env, parent), inner, env.len() as EnvHandle),
    ensures
        kept(env, Env::released(inner, env.len())),
{
    reveal(kept);
    reveal(kept_but);
    lemma_narrowed_kept(env, parent);
    lemma_released_kept(inner, env.len());
    let opened = Env::narrowed(env, parent);
    let left = Env::released(inner, env.len());
    assert forall|j: int| 0 <= j < env.len() implies {
        &&& left[j].enclosing == env[j].enclosing
        &&& left[j].depth == env[j].depth
        &&& (env[j].captured ==> left[j].captured)
        &&& left[j].names == env[j].names
    } by {
        assert(left[j] == inner[j]);
        assert(opened[j] == env[j]);
    }
}

/// Evaluating an expression keeps the table of scopes: it stays well
/// formed, the frames that were there stay, further frames stay only
/// where a function holds them, and no frame comes to bind a name that
/// it did not bind.
pub proof fn lemma_eval_keeps_the_table(e: ExprView, at: EnvHandle, w: World)
    requires
        Env::well_formed(w.env),
        at < w.env.len(),
    ensures
        Env::well_formed(eval(e, at, w).env),
        Env::extends(w.env, eval(e, at, w).env),
        Env::keeps_names(w.env, eval(e, at, w).env),
        at < eval(e, at, w).env.len(),
{
    reveal(kept);
    lemma_eval(e, at, w);
}

/// Running a statement in the frame `at` keeps the table of scopes, but
/// for the names that the frame `at` binds; a block and a loop, which
/// work in frames of their own, keep those too.
pub proof fn lemma_interpret_keeps_the_table(s: StatementView, at: EnvHandle, w: World)
    requires
        Env::well_formed(w.env),
        at < w.env.len(),
    ensures
        Env::well_formed(interpret(s, at, w).env),
        Env::extends(w.env, interpret(s, at, w).env),
        Env::keeps_names_but(w.env, interpret(s, at, w).env, at),
        s is Block || s is Loop || s is While ==> Env::keeps_names(w.env, interpret(s, at, w).env),
        at < interpret(s, at, w).env.len(),
{
    reveal(kept);
    reveal(kept_but);
    lemma_interpret(s, at, w);
}

/// Evaluating an expression keeps the table of scopes.
pub proof fn lemma_eval(e: ExprView, at: EnvHandle, w: World)
    requires
        Env::well_formed(w.env),
        at < w.env.len(),
    ensures
        kept(w.env, eval(e, at, w).env),
    decreases w.steps, 1nat, e, 1nat,
{
    lemma_kept_same(w.env, at);
    match e {
        ExprView::Grouping { e: inner } => lemma_eval(*inner, at, w),
        ExprView::Assignment { .. } => lemma_eval_assignment(e, at, w),
        ExprView::Unary { .. } => lemma_eval_unary(e, at, w),
        ExprView::Binary { .. } => lemma_eval_binary(e, at, w),
        ExprView::Or { .. } => lemma_eval_logic(e, at, w),
        ExprView::And { .. } => lemma_eval_logic(e, at, w),
        ExprView::Call { .. } => lemma_eval_call(e, at, w),
        _ => {},
    }
}

proof fn lemma_eval_assignment(e: ExprView, at: EnvHandle, w: World)
    requires
        Env::well_formed(w.env),
        at < w.env.len(),
    ensures
        kept(w.env, eval_assignment(e, at, w).env),
    decreases w.steps, 1nat, e, 0nat,
{
    lemma_kept_same(w.env, at);
    match e {
        ExprView::Assignment { id, e: inner } => {
            lemma_eval(*inner, at, w);
            let value = eval(*inner, at, w);
            lemma_kept_holds(w.env, value.env, at);
            match (value.result, *id) {
                (Ok(v), ExprView::Identifier { id: target }) => {
                    lemma_assigned_kept(value.env, at, target.name, v);
                    lemma_kept_on(
                        w.env,
                        value.env,
                        Env::assigned(value.env, at, target.name, v),
                        at,
                    );
                },
                _ => {},
            }
        },
        _ => {},
    }
}

proof fn lemma_eval_unary(e: ExprView, at: EnvHandle, w: World)
    requires
        Env::well_formed(w.env),
        at < w.env.len(),
    ensures
        kept(w.env, eval_unary(e, at, w).env),
    decreases w.steps, 1nat, e, 0nat,
{
    lemma_kept_same(w.env, at);
    match e {
        ExprView::Unary { op, e: inner } => {
            lemma_eval(*inner, at, w);
        },
        _ => {},
    }
}

/// One expression evaluated behind another keeps the table.
proof fn lemma_eval_both(a: ExprView, b: ExprView, at: EnvHandle, w: World)
    requires
        Env::well_formed(w.env),
        at < w.env.len(),
        kept(w.env, eval(a, at, w).env),
        kept(eval(a, at, w).env, eval(b, at, w.after(eval(a, at, w))).env),
    ensures
        kept(w.env, eval(b, at, w.after(eval(a, at, w))).env),
{
    lemma_kept_on(w.env, eval(a, at, w).env, eval(b, at, w.after(eval(a, at, w))).env, at);
}

proof fn lemma_eval_binary(e: ExprView, at: EnvHandle, w: World)
    requires
        Env::well_formed(w.env),
        at < w.env.len(),
    ensures
        kept(w.env, eval_binary(e, at, w).env),
    decreases w.steps, 1nat, e, 0nat,
{
    lemma_kept_same(w.env, at);
    match e {
        ExprView::Binary { op, a, b } => {
            lemma_eval(*a, at, w);
            let left = eval(*a, at, w);
            lemma_kept_holds(w.env, left.env, at);
            if left.result is Ok {
                lemma_eval(*b, at, w.after(left));
                lemma_eval_both(*a, *b, at, w);
            }
        },
        _ => {},
    }
}

proof fn lemma_eval_logic(e: ExprView, at: EnvHandle, w: World)
    requires
        Env::well_formed(w.env),
        at < w.env.len(),
    ensures
        kept(w.env, eval_logic(e, at, w).env),
    decreases w.steps, 1nat, e, 0nat,
{
    lemma_kept_same(w.env, at);
    match e {
        ExprView::Or { a, b } => {
            lemma_eval(*a, at, w);
            let first = eval(*a, at, w);
            lemma_kept_holds(w.env, first.env, at);
            if first.result is Ok {
                lemma_eval(*b, at, w.after(first));
                lemma_eval_both(*a, *b, at, w);
            }
        },
        ExprView::And { a, b } => {
            lemma_eval(*a, at, w);
            let first = eval(*a, at, w);
            lemma_kept_holds(w.env, first.env, at);
            if first.result is Ok {
                lemma_eval(*b, at, w.after(first));
                lemma_eval_both(*a, *b, at, w);
            }
        },
        _ => {},
    }
}

proof fn lemma_eval_call(e: ExprView, at: EnvHandle, w: World)
    requires
        Env::well_formed(w.env),
        at < w.env.len(),
    ensures
        kept(w.env, eval_call(e, at, w).env),
    decreases w.steps, 1nat, e, 0nat,
{
    lemma_kept_same(w.env, at);
    match e {
        ExprView::Call { caller, args } => {
            lemma_eval(*caller, at, w);
            let callee = eval(*caller, at, w);
            lemma_kept_holds(w.env, callee.env, at);
            match callee.result {
                Ok(f) => {
                    lemma_call_value(f, args, at, w.after(callee));
                    lemma_kept_on(
                        w.env,
                        callee.env,
                        call_value(f, args, at, w.after(callee)).env,
                        at,
                    );
                },
                Err(_) => {},
            }
        },
        _ => {},
    }
}

/// Calling a value keeps the table of scopes.
pub proof fn lemma_call_value(f: Value, args: Seq<ExprView>, at: EnvHandle, w: World)
    requires
        Env::well_formed(w.env),
        at < w.env.len(),
    ensures
        kept(w.env, call_value(f, args, at, w).env),
    decreases w.steps, 1nat, args, args.len() + 1,
{
    lemma_kept_same(w.env, at);
    match f {
        Value::Lambda { env: home, params, body } => {
            if home < w.env.len() && w.env.len() < usize::MAX {
                let frame = w.env.len() as EnvHandle;
                let inside = World { env: Env::narrowed(w.env, home), ..w };
                lemma_narrowed_kept(w.env, home);
                lemma_bind(params, args, 0, at, frame, inside);
                let bound = bind(params, args, 0, at, frame, inside);
                lemma_kept_holds(inside.env, bound.env, frame);
                lemma_call_body(body, frame, inside, bound);
                let ran = call_body(body, frame, inside, bound);
                lemma_kept_on(inside.env, bound.env, ran.env, frame);
                lemma_scope_kept(w.env, home, ran.env);
            }
        },
        _ => {},
    }
}

proof fn lemma_call_body(body: Seq<StatementView>, frame: EnvHandle, w: World, bound: Outcome<()>)
    requires
        Env::well_formed(bound.env),
        frame < bound.env.len(),
    ensures
        kept_but(bound.env, call_body(body, frame, w, bound).env, frame),
    decreases w.after(bound).steps, 0nat, body, 0nat,
{
    lemma_kept_same(bound.env, frame);
    let w3 = w.after(bound);
    if bound.result is Ok && w3.steps > 0 {
        lemma_run_list(body, 0, frame, World { steps: (w3.steps - 1) as nat, ..w3 }, Value::Nil);
    }
}

proof fn lemma_bind(
    params: Seq<IdentifierView>,
    args: Seq<ExprView>,
    i: nat,
    at: EnvHandle,
    frame: EnvHandle,
    w: World,
)
    requires
        Env::well_formed(w.env),
        at < w.env.len(),
        frame < w.env.len(),
    ensures
        kept_but(w.env, bind(params, args, i, at, frame, w).env, frame),
    decreases w.steps, 1nat, args, args.len() - i,
{
    lemma_kept_same(w.env, frame);
    if i < params.len() && i < args.len() {
        lemma_eval(args[i as int], at, w);
        let value = eval(args[i as int], at, w);
        lemma_kept_holds(w.env, value.env, frame);
        match value.result {
            Ok(v) => {
                let w1 = w.after(value);
                let filled = Env::inserted(w1.env, frame, params[i as int].name, v);
                let next = World { env: filled, ..w1 };
                lemma_inserted_kept(w1.env, frame, params[i as int].name, v);
                lemma_kept_on(w.env, value.env, filled, frame);
                lemma_bind(params, args, i + 1, at, frame, next);
                lemma_kept_on(
                    w.env,
                    filled,
                    bind(params, args, i + 1, at, frame, next).env,
                    frame,
                );
            },
            Err(_) => {},
        }
    }
}

/// Running statements one after the other in the frame `at` keeps the
/// table of scopes, but for the names that the frame `at` binds.
pub proof fn lemma_run_list(
    list: Seq<StatementView>,
    from: nat,
    at: EnvHandle,
    w: World,
    last: Value,
)
    requires
        Env::well_formed(w.env),
        at < w.env.len(),
    ensures
        kept_but(w.env, run_list(list, from, at, w, last).env, at),
    decreases w.steps, 1nat, list, list.len() - from,
{
    lemma_kept_same(w.env, at);
    if from < list.len() {
        lemma_interpret(list[from as int], at, w);
        let first = interpret(list[from as int], at, w);
        lemma_kept_holds(w.env, first.env, at);
        match first.result {
            Ok((Control::Proceed, v)) => {
                lemma_run_list(list, from + 1, at, w.after(first), v);
                lemma_kept_on(
                    w.env,
                    first.env,
                    run_list(list, from + 1, at, w.after(first), v).env,
                    at,
                );
            },
            _ => {},
        }
    }
}

/// Running statements in a frame of their own keeps the table of
/// scopes.
pub proof fn lemma_run_scope(list: Seq<StatementView>, at: EnvHandle, w: World)
    requires
        Env::well_formed(w.env),
        at < w.env.len(),
    ensures
        kept(w.env, run_scope(list, at, w).env),
    decreases w.steps, 1nat, list, list.len() + 1,
{
    lemma_kept_same(w.env, at);
    if w.env.len() < usize::MAX {
        let frame = w.env.len() as EnvHandle;
        let inside = World { env: Env::narrowed(w.env, at), ..w };
        lemma_narrowed_kept(w.env, at);
        lemma_run_list(list, 0, frame, inside, Value::Nil);
        lemma_scope_kept(w.env, at, run_list(list, 0, frame, inside, Value::Nil).env);
    }
}

/// Repeating statements, each round in a frame of its own, keeps the
/// table of scopes.
pub proof fn lemma_run_loop(list: Seq<StatementView>, at: EnvHandle, w: World)
    requires
        Env::well_formed(w.env),
        at < w.env.len(),
    ensures
        kept(w.env, run_loop(list, at, w).env),
    decreases w.steps, 0nat, list, 0nat,
{
    lemma_kept_same(w.env, at);
    if w.steps > 0 {
        lemma_run_scope(list, at, World { steps: (w.steps - 1) as nat, ..w });
        let round = run_scope(list, at, World { steps: (w.steps - 1) as nat, ..w });
        let took = Outcome { spent: round.spent + 1, ..round };
        lemma_kept_holds(w.env, round.env, at);
        match round.result {
            Ok((Control::Proceed, _)) => {
                lemma_run_loop(list, at, w.after(took));
                lemma_kept_on(w.env, round.env, run_loop(list, at, w.after(took)).env, at);
            },
            _ => {},
        }
    }
}

/// Running a statement in the frame `at` keeps the table of scopes, but
/// for the names that the frame `at` binds; a block and a loop keep
/// those too.
pub proof fn lemma_interpret(s: StatementView, at: EnvHandle, w: World)
    requires
        Env::well_formed(w.env),
        at < w.env.len(),
    ensures
        kept_but(w.env, interpret(s, at, w).env, at),
        s is Block || s is Loop || s is While ==> kept(w.env, interpret(s, at, w).env),
    decreases w.steps, 1nat, s, 1nat,
{
    lemma_kept_same(w.env, at);
    match s {
        StatementView::Expression { e } => {
            lemma_eval(e, at, w);
            lemma_kept_holds(w.env, eval(e, at, w).env, at);
        },
        StatementView::Return { expr } => {
            lemma_eval(expr, at, w);
            lemma_kept_holds(w.env, eval(expr, at, w).env, at);
        },
        StatementView::Print { e } => {
            lemma_eval(e, at, w);
            lemma_kept_holds(w.env, eval(e, at, w).env, at);
        },
        StatementView::Declaration { id, e } => {
            lemma_eval(e, at, w);
            let value = eval(e, at, w);
            lemma_kept_holds(w.env, value.env, at);
            match value.result {
                Ok(v) => {
                    lemma_inserted_kept(value.env, at, id.name, v);
                    lemma_kept_on(w.env, value.env, Env::inserted(value.env, at, id.name, v), at);
                },
                Err(_) => {},
            }
        },
        StatementView::Assignment { id, e } => {
            lemma_eval(e, at, w);
            let value = eval(e, at, w);
            lemma_kept_holds(w.env, value.env, at);
            match (value.result, id) {
                (Ok(v), ExprView::Identifier { id: target }) => {
                    lemma_assigned_kept(value.env, at, target.name, v);
                    lemma_kept_on(
                        w.env,
                        value.env,
                        Env::assigned(value.env, at, target.name, v),
                        at,
                    );
                },
                _ => {},
            }
        },
        StatementView::Block { statements } => {
            lemma_run_scope(statements, at, w);
            lemma_kept_holds(w.env, run_scope(statements, at, w).env, at);
        },
        StatementView::Conditional { .. } => lemma_interpret_conditional(s, at, w),
        StatementView::Loop { statements } => {
            lemma_run_loop(statements, at, w);
            lemma_kept_holds(w.env, run_loop(statements, at, w).env, at);
        },
        StatementView::While { condition, body } => {
            lemma_run_loop(while_round(condition, body), at, w);
            lemma_kept_holds(w.env, run_loop(while_round(condition, body), at, w).env, at);
        },
        StatementView::Function { id, parameters, body } => {
            let f = Value::Lambda { env: at, params: parameters, body };
            let bound = Env::inserted(w.env, at, id.name, f);
            lemma_inserted_kept(w.env, at, id.name, f);
            lemma_kept_holds(w.env, bound, at);
            lemma_captured_kept(bound, at);
            lemma_kept_on(w.env, bound, Env::captured(bound, at), at);
        },
        _ => {},
    }
}

proof fn lemma_interpret_conditional(s: StatementView, at: EnvHandle, w: World)
    requires
        Env::well_formed(w.env),
        at < w.env.len(),
    ensures
        kept_but(w.env, interpret_conditional(s, at, w).env, at),
    decreases w.steps, 1nat, s, 0nat,
{
    lemma_kept_same(w.env, at);
    match s {
        StatementView::Conditional { condition, case_if, case_else } => {
            lemma_eval(condition, at, w);
            let test = eval(condition, at, w);
            lemma_kept_holds(w.env, test.env, at);
            match test.result {
                Ok(v) => {
                    if ExprB::truthy(v) {
                        lemma_interpret(*case_if, at, w.after(test));
                        lemma_kept_on(
                            w.env,
                            test.env,
                            interpret(*case_if, at, w.after(test)).env,
                            at,
                        );
                    } else {
                        match case_else {
                            Some(other) => {
                                lemma_interpret(*other, at, w.after(test));
                                lemma_kept_on(
                                    w.env,
                                    test.env,
                                    interpret(*other, at, w.after(test)).env,
                                    at,
                                );
                            },
                            None => {},
                        }
                    }
                },
                Err(_) => {},
            }
        },
        _ => {},
    }
}

} // verus!
