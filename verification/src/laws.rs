//! Laws of the language: what holds of every program, as it follows
//! from what expressions and statements mean.

use crate::ast::{
    Control, EnvHandle, ExprB, ExprView, IdentifierView, OpOne, OpTwo, StatementView, Value,
};
use crate::environment::{
    lemma_put_binds, lemma_resolve_bound, lemma_resolve_nearest, Env, EnvView,
};
use crate::err::StumbleKindView;
use crate::grammar::{kind_at, named, primary, Step};
use crate::invariants::{lemma_eval_keeps_the_table, lemma_interpret_keeps_the_table};
use crate::scoping::{
    bound, covers, grown, lemma_ancestor_depth, lemma_ancestor_in_grown, lemma_ancestor_in_longer,
    lemma_inserted_grows, lemma_put_adds_one_name, mirrors,
};
use crate::number::{infinity, is_equal, is_nan, is_negative, is_zero, negated, NAN_BITS};
use crate::semantics::{
    display, eval, eval_logic, eval_unary, interpret, on_numbers, on_values, run_list, run_loop,
    run_scope, values_equal, Outcome, World,
};
use crate::token::{TknKView, TknView};
use vstd::prelude::*;

verus! {

/// `!e` applied twice.
pub open spec fn not_not(e: ExprView) -> ExprView {
    ExprView::Unary {
        op: OpOne::Bang,
        e: Box::new(ExprView::Unary { op: OpOne::Bang, e: Box::new(e) }),
    }
}

/// `-e` applied twice.
pub open spec fn minus_minus(e: ExprView) -> ExprView {
    ExprView::Unary {
        op: OpOne::Minus,
        e: Box::new(ExprView::Unary { op: OpOne::Minus, e: Box::new(e) }),
    }
}

/// A name that the parser could not resolve is unknown when it is
/// evaluated, in whatever frame and world: evaluation fails with
/// `InvalidIdentifier` and changes nothing.
pub proof fn law_unresolved_name_is_unknown(name: Seq<char>, at: EnvHandle, w: World)
    ensures
        eval(ExprView::Identifier { id: IdentifierView { name, offset: None } }, at, w) == w.fail::<
            Value,
        >(StumbleKindView::InvalidIdentifier { id: name }),
{
}

/// A name as the parser annotates it in the frame `at` either has no
/// offset, and then no frame from `at` outward binds it, or has an
/// offset that leads, along the enclosing frames, to a frame that binds
/// the name, past frames that do not; evaluated in those scopes it then
/// has a value.
pub proof fn law_resolved_name_is_bound(env: EnvView, at: EnvHandle, name: Seq<char>, w: World)
    requires
        Env::well_formed(env),
        at < env.len(),
        w.env == env,
    ensures
        named(env, at, name).name == name,
        match named(env, at, name).offset {
            None => {
                &&& Env::holder(env, at, name) is None
                &&& forall|j: nat| (#[trigger] Env::ancestor(env, at, j)) is Some ==> !env[Env::ancestor(
                    env,
                    at,
                    j,
                )->0 as int].has(name)
            },
            Some(k) => {
                &&& Env::ancestor(env, at, k as nat) is Some
                &&& Env::ancestor(env, at, k as nat)->0 < env.len()
                &&& env[Env::ancestor(env, at, k as nat)->0 as int].has(name)
                &&& forall|j: nat|
                    j < k ==> (#[trigger] Env::ancestor(env, at, j)) is Some && !env[Env::ancestor(
                        env,
                        at,
                        j,
                    )->0 as int].has(name)
                &&& eval(ExprView::Identifier { id: named(env, at, name) }, at, w).result is Ok
            },
        },
{
    lemma_resolve_bound(env, at, name);
    lemma_resolve_nearest(env, at, name);
}

/// Where a name stands, a primary is that name, annotated in the frame
/// that it is read in, and takes up the one token.
pub proof fn law_primary_reads_a_name(
    ts: Seq<TknView>,
    i: nat,
    env: EnvView,
    at: EnvHandle,
    name: Seq<char>,
)
    requires
        kind_at(ts, i) == Some(TknKView::Identifier { id: name }),
    ensures
        primary(ts, i, env, at) == Step::done(
            ExprView::Identifier { id: named(env, at, name) },
            1,
        ),
{
}

/// What `print` writes is the value as text and a line end, behind
/// what evaluating the expression wrote, and nothing else.
pub proof fn law_print_writes_the_value(e: ExprView, at: EnvHandle, w: World)
    ensures
        ({
            let value = eval(e, at, w);
            let done = interpret(StatementView::Print { e }, at, w);
            &&& done.env == value.env
            &&& done.spent == value.spent
            &&& match value.result {
                Ok(v) => done.out == value.out + display(v) + seq!['\n'] && done.result == Ok::<
                    (Control, Value),
                    StumbleKindView,
                >((Control::Proceed, Value::Nil)),
                Err(kind) => done.out == value.out && done.result == Err::<
                    (Control, Value),
                    StumbleKindView,
                >(kind),
            }
        }),
{
}

/// `!!e` is `e` taken for a boolean: it does to the world what `e`
/// does, and where `e` has a value, its value is whether that value
/// counts as true.
pub proof fn law_double_bang(e: ExprView, at: EnvHandle, w: World)
    ensures
        ({
            let once = eval(e, at, w);
            let twice = eval(not_not(e), at, w);
            &&& twice.env == once.env
            &&& twice.out == once.out
            &&& twice.spent == once.spent
            &&& twice.result == (match once.result {
                Ok(v) => Ok::<Value, StumbleKindView>(Value::Boolean { b: ExprB::truthy(v) }),
                Err(kind) => Err(kind),
            })
        }),
{
    let inner = ExprView::Unary { op: OpOne::Bang, e: Box::new(e) };
    assert(eval(inner, at, w) == eval_unary(inner, at, w));
    assert(eval(not_not(e), at, w) == eval_unary(not_not(e), at, w));
}

/// `-(-e)` is `e` where `e` is a number: it does to the world what `e`
/// does and has the very same value, bit for bit.
pub proof fn law_double_minus(e: ExprView, at: EnvHandle, w: World)
    requires
        eval(e, at, w).result is Ok,
        eval(e, at, w).result->Ok_0 is Numeric,
    ensures
        eval(minus_minus(e), at, w) == eval(e, at, w),
{
    let inner = ExprView::Unary { op: OpOne::Minus, e: Box::new(e) };
    let n = eval(e, at, w).result->Ok_0->Numeric_n;
    assert(negated(negated(n)) == n);
    assert(eval(inner, at, w) == eval_unary(inner, at, w));
    assert(eval(minus_minus(e), at, w) == eval_unary(minus_minus(e), at, w));
}

/// `a or b` is `a`, whatever `b` is, where `a` counts as true or
/// fails: `b` is not evaluated, so it writes nothing and changes
/// nothing.
pub proof fn law_or_short_circuit(a: ExprView, b: ExprView, at: EnvHandle, w: World)
    requires
        match eval(a, at, w).result {
            Ok(v) => ExprB::truthy(v),
            Err(_) => true,
        },
    ensures
        eval(ExprView::Or { a: Box::new(a), b: Box::new(b) }, at, w) == eval(a, at, w),
{
    let both = ExprView::Or { a: Box::new(a), b: Box::new(b) };
    assert(eval(both, at, w) == eval_logic(both, at, w));
}

/// `a and b` is `a`, whatever `b` is, where `a` counts as false or
/// fails: `b` is not evaluated, so it writes nothing and changes
/// nothing.
pub proof fn law_and_short_circuit(a: ExprView, b: ExprView, at: EnvHandle, w: World)
    requires
        match eval(a, at, w).result {
            Ok(v) => !ExprB::truthy(v),
            Err(_) => true,
        },
    ensures
        eval(ExprView::And { a: Box::new(a), b: Box::new(b) }, at, w) == eval(a, at, w),
{
    let both = ExprView::And { a: Box::new(a), b: Box::new(b) };
    assert(eval(both, at, w) == eval_logic(both, at, w));
}

/// Where `a` does not decide, `a or b` and `a and b` are `b`,
/// evaluated in the world that `a` left.
pub proof fn law_logic_goes_on(a: ExprView, b: ExprView, at: EnvHandle, w: World)
    requires
        eval(a, at, w).result is Ok,
    ensures
        !ExprB::truthy(eval(a, at, w).result->Ok_0) ==> eval(
            ExprView::Or { a: Box::new(a), b: Box::new(b) },
            at,
            w,
        ) == eval(b, at, w.after(eval(a, at, w))).since(eval(a, at, w)),
        ExprB::truthy(eval(a, at, w).result->Ok_0) ==> eval(
            ExprView::And { a: Box::new(a), b: Box::new(b) },
            at,
            w,
        ) == eval(b, at, w.after(eval(a, at, w))).since(eval(a, at, w)),
{
    let either = ExprView::Or { a: Box::new(a), b: Box::new(b) };
    let both = ExprView::And { a: Box::new(a), b: Box::new(b) };
    assert(eval(either, at, w) == eval_logic(either, at, w));
    assert(eval(both, at, w) == eval_logic(both, at, w));
}

/// A number equals itself unless it is a NaN.
pub proof fn law_number_equals_itself_unless_nan(n: u64)
    ensures
        is_equal(n, n) == !is_nan(n),
        values_equal(Value::Numeric { n }, Value::Numeric { n }) == !is_nan(n),
{
}

/// Values of different kinds are never equal, and neither are two
/// functions; `==` and `!=` give a boolean for any two values, and
/// opposite ones.
pub proof fn law_equality_never_coerces(a: Value, b: Value)
    ensures
        values_equal(a, b) ==> (a is Nil && b is Nil) || (a is Boolean && b is Boolean) || (a
            is Numeric && b is Numeric) || (a is String && b is String),
        on_values(OpTwo::Eq, a, b) == Ok::<Value, StumbleKindView>(
            Value::Boolean { b: values_equal(a, b) },
        ),
        on_values(OpTwo::Neq, a, b) == Ok::<Value, StumbleKindView>(
            Value::Boolean { b: !values_equal(a, b) },
        ),
{
}

/// A frame made inside another is one deeper than it, and the frames
/// that were there stay as they were.
pub proof fn law_child_is_one_deeper(env: EnvView, parent: EnvHandle)
    requires
        Env::well_formed(env),
        parent < env.len(),
        env.len() < usize::MAX,
    ensures
        Env::narrowed(env, parent).len() == env.len() + 1,
        Env::narrowed(env, parent).last().depth == env[parent as int].depth + 1,
        Env::narrowed(env, parent).last().enclosing == Some(parent),
        Env::well_formed(Env::narrowed(env, parent)),
        Env::keeps(env, Env::narrowed(env, parent)),
{
}

/// Dividing by a zero what is neither a zero nor a NaN gives an
/// infinity, negative where exactly one of the two is negative; it is
/// written `inf` or `-inf`. Dividing a zero by a zero gives a NaN,
/// which is written `NaN`.
pub proof fn law_division_by_zero(a: u64, b: u64)
    requires
        is_zero(b),
        !is_nan(a),
    ensures
        on_numbers(OpTwo::Slash, a, b) == (Value::Numeric {
            n: if is_zero(a) {
                NAN_BITS
            } else {
                infinity(is_negative(a) != is_negative(b))
            },
        }),
        display(on_numbers(OpTwo::Slash, a, b)) == if is_zero(a) {
            seq!['N', 'a', 'N']
        } else if is_negative(a) != is_negative(b) {
            seq!['-', 'i', 'n', 'f']
        } else {
            seq!['i', 'n', 'f']
        },
{
}

/// Each round of a loop runs the statements in a frame of its own: a
/// new frame without bindings inside the frame `at`, one deeper than
/// it, behind the frames that were there, which stay as they were. The
/// frame is left when the round ends, and the loop goes on from there
/// where the round neither broke nor returned nor failed.
pub proof fn law_round_runs_in_a_frame_of_its_own(
    list: Seq<StatementView>,
    at: EnvHandle,
    w: World,
)
    requires
        Env::well_formed(w.env),
        at < w.env.len(),
        w.env.len() < usize::MAX,
        w.steps > 0,
    ensures
        ({
            let frame = w.env.len() as EnvHandle;
            let inside = World {
                env: Env::narrowed(w.env, at),
                steps: (w.steps - 1) as nat,
                ..w
            };
            let round = run_list(list, 0, frame, inside, Value::Nil).leaving(w.env.len());
            let took = Outcome { spent: round.spent + 1, ..round };
            &&& inside.env.len() == w.env.len() + 1
            &&& inside.env[frame as int].names.len() == 0
            &&& inside.env[frame as int].enclosing == Some(at)
            &&& inside.env[frame as int].depth == w.env[at as int].depth + 1
            &&& inside.env.take(w.env.len() as int) == w.env
            &&& run_loop(list, at, w) == match round.result {
                Ok((Control::Proceed, _)) => run_loop(list, at, w.after(took)).since(took),
                Ok((Control::Break, _)) => took.with(Ok((Control::Proceed, Value::Nil))),
                _ => took,
            }
        }),
{
    assert(Env::narrowed(w.env, at).take(w.env.len() as int) =~= w.env);
    assert(run_scope(list, at, World { steps: (w.steps - 1) as nat, ..w }) == run_list(
        list,
        0,
        w.env.len() as EnvHandle,
        World { env: Env::narrowed(w.env, at), steps: (w.steps - 1) as nat, ..w },
        Value::Nil,
    ).leaving(w.env.len()));
}

/// A declaration whose initialiser has a value binds the name to that
/// value in the frame `at`: from then on the name is found in that
/// frame, without a step outward, and stands for the value.
pub proof fn law_declaration_binds(id: IdentifierView, e: ExprView, at: EnvHandle, w: World)
    requires
        Env::well_formed(w.env),
        at < w.env.len(),
        eval(e, at, w).result is Ok,
    ensures
        ({
            let v = eval(e, at, w).result->Ok_0;
            let after = interpret(StatementView::Declaration { id, e }, at, w).env;
            &&& Env::well_formed(after)
            &&& at < after.len()
            &&& after[at as int].lookup(id.name) == Some(v)
            &&& Env::resolve(after, at, id.name) == Some(0usize)
            &&& Env::value_of(after, at, IdentifierView { name: id.name, offset: Some(0) })
                == Some(v)
        }),
{
    lemma_eval_keeps_the_table(e, at, w);
    lemma_interpret_keeps_the_table(StatementView::Declaration { id, e }, at, w);
    let value = eval(e, at, w);
    lemma_put_binds(value.env[at as int], id.name, value.result->Ok_0);
}

/// A name that was read with an offset has a value wherever the frames
/// of the run mirror the scopes that it was read in.
pub proof fn law_mirrored_name_has_a_value(
    id: IdentifierView,
    read: EnvView,
    read_at: EnvHandle,
    at: EnvHandle,
    w: World,
)
    requires
        id.offset is Some,
        bound(id, read, read_at),
        mirrors(read, read_at, w.env, at),
    ensures
        eval(ExprView::Identifier { id }, at, w).result is Ok,
        eval(ExprView::Identifier { id }, at, w).env == w.env,
{
    let k = id.offset->0 as nat;
    let scope = Env::ancestor(read, read_at, k);
    assert(scope is Some);
    assert(covers(read, scope->0, w.env, Env::ancestor(w.env, at, k)));
}

/// Frames mirror themselves: a run that starts in the scopes that its
/// program is read in starts with frames that mirror them.
pub proof fn law_frames_mirror_themselves(env: EnvView, at: EnvHandle)
    ensures
        mirrors(env, at, env, at),
{
}

/// The frames of a run go on mirroring the scopes that a program is
/// read in when a name is declared in both.
pub proof fn law_declaring_keeps_the_mirror(
    read: EnvView,
    read_at: EnvHandle,
    run: EnvView,
    at: EnvHandle,
    name: Seq<char>,
    noted: Value,
    v: Value,
)
    requires
        Env::well_formed(read),
        Env::well_formed(run),
        read_at < read.len(),
        at < run.len(),
        mirrors(read, read_at, run, at),
    ensures
        mirrors(
            Env::inserted(read, read_at, name, noted),
            read_at,
            Env::inserted(run, at, name, v),
            at,
        ),
{
    let read_then = Env::inserted(read, read_at, name, noted);
    let run_then = Env::inserted(run, at, name, v);
    lemma_inserted_grows(read, read_at, name, noted);
    lemma_inserted_grows(run, at, name, v);
    lemma_put_binds(run[at as int], name, v);
    assert forall|k: nat| (#[trigger] Env::ancestor(read_then, read_at, k)) is Some implies covers(
        read_then,
        Env::ancestor(read_then, read_at, k)->0,
        run_then,
        Env::ancestor(run_then, at, k),
    ) by {
        lemma_ancestor_in_grown(read, read_then, read_at, read_at, k);
        lemma_ancestor_in_grown(run, run_then, at, at, k);
        let scope = Env::ancestor(read, read_at, k)->0;
        let frame = Env::ancestor(run, at, k);
        assert(covers(read, scope, run, frame));
        lemma_ancestor_depth(read, read_at, k);
        reveal(grown);
        assert forall|other: Seq<char>|
            read_then[scope as int].has(other) implies #[trigger] run_then[frame->0 as int].has(
            other,
        ) by {
            if scope == read_at {
                assert(k == 0);
                if other != name {
                    if !read[read_at as int].has(name) {
                        lemma_put_adds_one_name(read[read_at as int].names, name, other, 0);
                    }
                    assert(read[read_at as int].has(other));
                    assert(run[at as int].has(other));
                }
            } else {
                assert(read_then[scope as int] == read[scope as int]);
                assert(run[frame->0 as int].has(other));
            }
        }
    }
}

/// The frames of a run go on mirroring the scopes that a program is
/// read in when a scope is entered in both.
pub proof fn law_entering_keeps_the_mirror(
    read: EnvView,
    read_at: EnvHandle,
    run: EnvView,
    at: EnvHandle,
)
    requires
        Env::well_formed(read),
        Env::well_formed(run),
        read_at < read.len() < usize::MAX,
        at < run.len() < usize::MAX,
        mirrors(read, read_at, run, at),
    ensures
        mirrors(
            Env::narrowed(read, read_at),
            read.len() as EnvHandle,
            Env::narrowed(run, at),
            run.len() as EnvHandle,
        ),
{
    let read_in = Env::narrowed(read, read_at);
    let run_in = Env::narrowed(run, at);
    let scope_in = read.len() as EnvHandle;
    let frame_in = run.len() as EnvHandle;
    assert forall|k: nat| (#[trigger] Env::ancestor(read_in, scope_in, k)) is Some implies covers(
        read_in,
        Env::ancestor(read_in, scope_in, k)->0,
        run_in,
        Env::ancestor(run_in, frame_in, k),
    ) by {
        if k > 0 {
            let j = (k - 1) as nat;
            lemma_ancestor_in_longer(read, read_in.last(), read_at, j);
            lemma_ancestor_in_longer(run, run_in.last(), at, j);
            assert(Env::ancestor(read_in, scope_in, k) == Env::ancestor(read, read_at, j));
            assert(Env::ancestor(run_in, frame_in, k) == Env::ancestor(run, at, j));
            let scope = Env::ancestor(read, read_at, j)->0;
            assert(covers(read, scope, run, Env::ancestor(run, at, j)));
            lemma_ancestor_depth(read, read_at, j);
        }
    }
}

/// A statement leaves behind no frame that no function holds. Only a
/// function statement marks a frame as captured, and it marks the frame
/// that it runs in; so where none of the frames made during the run is
/// captured, no function was made in them, and the table has the frames
/// that it had and no others, each with the names that it had but for
/// the frame `at`. This holds however the statement ends: by running
/// out, by `break` or `return`, or by failing.
pub proof fn law_no_frame_stays_unless_a_function_holds_it(
    s: StatementView,
    at: EnvHandle,
    w: World,
)
    requires
        Env::well_formed(w.env),
        at < w.env.len(),
    ensures
        ({
            let after = interpret(s, at, w).env;
            &&& w.env.len() <= after.len()
            &&& after.len() > w.env.len() ==> after.last().captured
            &&& (forall|j: int| w.env.len() <= j < after.len() ==> !(#[trigger] after[j]).captured)
                ==> after.len() == w.env.len()
            &&& Env::keeps(w.env, after)
            &&& Env::keeps_names_but(w.env, after, at)
            &&& s is Block || s is Loop || s is While ==> Env::keeps_names(w.env, after)
        }),
{
    lemma_interpret_keeps_the_table(s, at, w);
    let after = interpret(s, at, w).env;
    if after.len() > w.env.len() {
        assert(after[after.len() - 1].captured);
    }
}

/// Leaving the scopes entered since the table had `mark` frames takes
/// frames off its end only: what stays is the beginning of the table,
/// at least `mark` frames of it where it had as many, and more than
/// `mark` only where the last of them is captured.
pub proof fn law_release_cuts_the_end(env: EnvView, mark: nat)
    ensures
        Env::released(env, mark).len() <= env.len(),
        Env::released(env, mark) == env.take(Env::released(env, mark).len() as int),
        mark <= env.len() ==> mark <= Env::released(env, mark).len(),
        Env::released(env, mark).len() > mark ==> Env::released(env, mark).last().captured,
    decreases env.len(),
{
    if env.len() > mark && !env.last().captured {
        law_release_cuts_the_end(env.drop_last(), mark);
        let rest = Env::released(env.drop_last(), mark);
        assert(rest =~= env.take(rest.len() as int));
    } else {
        assert(env =~= env.take(env.len() as int));
    }
}

} // verus!
