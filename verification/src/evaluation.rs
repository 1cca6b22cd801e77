//! The evaluator: it walks expressions and statements and does what
//! [`crate::semantics`] says they mean.

use crate::ast::{
    exprs_view, identifiers_view, lemma_statements_view, statements_view, Control, EnvHandle,
    Expr, ExprB, Identifier, OpOne, OpTwo, Statement, Value,
};
use crate::base::Base;
use crate::environment::{Env, EnvView};
use crate::err::{StumbleKind, StumbleKindView};
use crate::number::{
    add_doubles, at_most, divide, equal, format_number, less, multiply_doubles, negate,
    parse_number, subtract_doubles,
};
use crate::semantics;
use crate::semantics::{Outcome, World};
use crate::walker::TreeWalker;
use vstd::prelude::*;

verus! {

/// The world that evaluation works on, put together from its parts.
pub open spec fn world(env: EnvView, base: &Base) -> World {
    World { env, out: base.stdio@, steps: base.steps as nat }
}

/// The scopes `env` and the host's side `base` are what the outcome `o`
/// of an evaluation leaves behind, where the host's side was `before`.
pub open spec fn went<T>(o: Outcome<T>, before: &Base, env: EnvView, base: &Base) -> bool {
    &&& env == o.env
    &&& base.stdio@ == o.out
    &&& base.steps + o.spent == before.steps
}

/// `r` is the result of the outcome `o`.
pub open spec fn gave(o: Outcome<Value>, r: Result<ExprB, StumbleKind>) -> bool {
    match r {
        Ok(v) => o.result == Ok::<Value, StumbleKindView>(v@),
        Err(kind) => o.result == Err::<Value, StumbleKindView>(kind@),
    }
}

/// The same for the outcome of a statement.
pub open spec fn flowed(
    o: Outcome<(Control, Value)>,
    r: Result<(Control, ExprB), StumbleKind>,
) -> bool {
    match r {
        Ok((control, v)) => o.result == Ok::<(Control, Value), StumbleKindView>((control, v@)),
        Err(kind) => o.result == Err::<(Control, Value), StumbleKindView>(kind@),
    }
}

/// The number that a value is taken for where an operator needs one.
pub fn number_value(v: &ExprB) -> (r: Option<u64>)
    ensures
        r == semantics::number_of(v@),
{
    match v {
        ExprB::Numeric { n } => Some(*n),
        ExprB::String { s } => parse_number(s.as_str()),
        _ => None,
    }
}

/// Whether two values are equal.
pub fn same_values(a: &ExprB, b: &ExprB) -> (r: bool)
    ensures
        r == semantics::values_equal(a@, b@),
{
    match (a, b) {
        (ExprB::Nil, ExprB::Nil) => true,
        (ExprB::Boolean { b: x }, ExprB::Boolean { b: y }) => *x == *y,
        (ExprB::Numeric { n: x }, ExprB::Numeric { n: y }) => equal(*x, *y),
        (ExprB::String { s: x }, ExprB::String { s: y }) => *x == *y,
        _ => false,
    }
}

/// Applies an operator that works on numbers; any other operator
/// gives `nil`.
pub fn apply_numbers(op: OpTwo, a: u64, b: u64) -> (r: ExprB)
    ensures
        r@ == semantics::on_numbers(op, a, b),
{
    match op {
        OpTwo::Minus => ExprB::mk_numeric(subtract_doubles(a, b)),
        OpTwo::Star => ExprB::mk_numeric(multiply_doubles(a, b)),
        OpTwo::Slash => ExprB::mk_numeric(divide(a, b)),
        OpTwo::Lt => ExprB::mk_bool(less(a, b)),
        OpTwo::Leq => ExprB::mk_bool(at_most(a, b)),
        OpTwo::Gt => ExprB::mk_bool(less(b, a)),
        OpTwo::Geq => ExprB::mk_bool(at_most(b, a)),
        _ => ExprB::mk_nil(),
    }
}

/// Applies `==` or `!=`; any other operator is applied as `+` is.
pub fn apply_values(op: OpTwo, a: ExprB, b: ExprB) -> (r: Result<ExprB, StumbleKind>)
    ensures
        match r {
            Ok(v) => semantics::on_values(op, a@, b@) == Ok::<Value, StumbleKindView>(v@),
            Err(kind) => semantics::on_values(op, a@, b@) == Err::<Value, StumbleKindView>(kind@),
        },
{
    match op {
        OpTwo::Eq => Ok(ExprB::mk_bool(same_values(&a, &b))),
        OpTwo::Neq => Ok(ExprB::mk_bool(!same_values(&a, &b))),
        _ => match (a, b) {
            (ExprB::Numeric { n: x }, ExprB::Numeric { n: y }) => Ok(
                ExprB::mk_numeric(add_doubles(x, y)),
            ),
            (ExprB::String { s: x }, ExprB::String { s: y }) => {
                let mut joined = x;
                joined.append(y.as_str());
                Ok(ExprB::mk_string(joined))
            },
            _ => Err(StumbleKind::ConflictingSubexpression),
        },
    }
}

/// Applies an operator with one operand.
pub fn apply_unary(op: OpOne, v: &ExprB) -> (r: Result<ExprB, StumbleKind>)
    ensures
        match r {
            Ok(x) => semantics::on_value(op, v@) == Ok::<Value, StumbleKindView>(x@),
            Err(kind) => semantics::on_value(op, v@) == Err::<Value, StumbleKindView>(kind@),
        },
{
    match op {
        OpOne::Bang => Ok(ExprB::mk_bool(!v.is_truthy())),
        OpOne::Minus => match number_value(v) {
            Some(n) => Ok(ExprB::mk_numeric(negate(n))),
            None => Err(StumbleKind::ConflictingSubexpression),
        },
    }
}

/// Writes a value as text.
pub fn display(v: &ExprB) -> (r: String)
    ensures
        r@ == semantics::display(v@),
{
    match v {
        ExprB::Nil => String::from_str("nil"),
        ExprB::Boolean { b } => if *b {
            String::from_str("true")
        } else {
            String::from_str("false")
        },
        ExprB::Numeric { n } => format_number(*n),
        ExprB::String { s } => s.clone(),
        ExprB::Lambda { .. } => String::from_str("\u{3bb}"),
    }
}

/// Builds what a `while` loop repeats.
fn while_round(condition: &Expr, body: &Vec<Statement>) -> (r: Vec<Statement>)
    ensures
        statements_view(r) == semantics::while_round(condition@, statements_view(*body)),
{
    let mut round: Vec<Statement> = Vec::new();
    let test = Statement::mk_conditional(
        condition.duplicate(),
        Statement::Empty,
        Some(Statement::Break),
    );
    round.push(test);
    let mut i: usize = 0;
    while i < body.len()
        invariant
            i <= body.len(),
            round.len() == i + 1,
            round[0]@ == test@,
            forall|k: int| 1 <= k < round.len() ==> (#[trigger] round[k])@ == body[k - 1]@,
        decreases body.len() - i,
    {
        round.push(body[i].duplicate());
        i += 1;
    }
    proof {
        lemma_statements_view(*body);
        lemma_statements_view(round);
        assert(statements_view(round) =~= semantics::while_round(
            condition@,
            statements_view(*body),
        ));
    }
    round
}

/// Writes a value and a line end to the sink.
fn print_value(v: &ExprB, base: &mut Base)
    ensures
        final(base).stdio@ == old(base).stdio@ + semantics::display(v@) + seq!['\n'],
        final(base).steps == old(base).steps,
{
    let text = display(v);
    base.stdio.append(text.as_str());
    base.stdio.push('\n');
    assert(base.stdio@ =~= old(base).stdio@ + semantics::display(v@) + seq!['\n']);
}

/// What a call gives for what its body gave.
fn returned(ran: Result<(Control, ExprB), StumbleKind>) -> (r: Result<ExprB, StumbleKind>)
    ensures
        match ran {
            Ok((Control::Return, v)) => r is Ok && r->Ok_0@ == v@,
            Ok(_) => r is Ok && r->Ok_0@ == Value::Nil,
            Err(kind) => r is Err && r->Err_0@ == kind@,
        },
{
    match ran {
        Ok((Control::Return, v)) => Ok(v),
        Ok(_) => Ok(ExprB::mk_nil()),
        Err(kind) => Err(kind),
    }
}

impl TreeWalker {
    /// Makes an assignment.
    fn assign_value(target: &Expr, v: ExprB, env: &mut Env, at: EnvHandle, base: &Base) -> (r:
        Result<ExprB, StumbleKind>)
        requires
            old(env).wf(),
            at < old(env)@.len(),
        ensures
            went(
                semantics::assign(world(old(env)@, base), at, target@, v@),
                base,
                final(env)@,
                base,
            ),
            gave(semantics::assign(world(old(env)@, base), at, target@, v@), r),
            final(env).wf(),
            Env::extends(old(env)@, final(env)@),
            Env::keeps_names(old(env)@, final(env)@),
    {
        match target {
            Expr::Identifier { id } => match env.assign(at, &id.name, v.duplicate()) {
                Ok(_) => Ok(v),
                Err(_) => Err(StumbleKind::MissingAsignee),
            },
            _ => Err(StumbleKind::InvalidAssignTo),
        }
    }

    /// Evaluates an expression in the frame `at`; what goes wrong is
    /// reported by its kind alone. No frame comes to bind a name that
    /// it did not bind.
    #[verifier::spinoff_prover]
    pub fn eval_kind(expr: &Expr, env: &mut Env, at: EnvHandle, base: &mut Base) -> (r: Result<
        ExprB,
        StumbleKind,
    >)
        requires
            old(env).wf(),
            at < old(env)@.len(),
        ensures
            went(
                semantics::eval(expr@, at, world(old(env)@, old(base))),
                old(base),
                final(env)@,
                final(base),
            ),
            gave(semantics::eval(expr@, at, world(old(env)@, old(base))), r),
            final(env).wf(),
            Env::extends(old(env)@, final(env)@),
            Env::keeps_names(old(env)@, final(env)@),
        decreases old(base).steps, 1nat, expr, 1nat,
    {
        match expr {
            Expr::Empty => Ok(ExprB::mk_nil()),
            Expr::Basic(v) => Ok(v.duplicate()),
            Expr::Identifier { id } => match env.get(at, id) {
                Some(v) => Ok(v),
                None => Err(StumbleKind::InvalidIdentifier { id: id.name.clone() }),
            },
            Expr::Grouping { e } => Self::eval_kind(e, env, at, base),
            Expr::Assignment { .. } => Self::eval_assignment(expr, env, at, base),
            Expr::Unary { .. } => Self::eval_unary(expr, env, at, base),
            Expr::Binary { .. } => Self::eval_binary(expr, env, at, base),
            Expr::Or { .. } => Self::eval_logic(expr, env, at, base),
            Expr::And { .. } => Self::eval_logic(expr, env, at, base),
            Expr::Call { .. } => Self::eval_call(expr, env, at, base),
        }
    }

    /// Evaluates an assignment.
    #[verifier::spinoff_prover]
    fn eval_assignment(expr: &Expr, env: &mut Env, at: EnvHandle, base: &mut Base) -> (r: Result<
        ExprB,
        StumbleKind,
    >)
        requires
            old(env).wf(),
            at < old(env)@.len(),
            expr is Assignment,
        ensures
            went(
                semantics::eval_assignment(expr@, at, world(old(env)@, old(base))),
                old(base),
                final(env)@,
                final(base),
            ),
            gave(semantics::eval_assignment(expr@, at, world(old(env)@, old(base))), r),
            final(env).wf(),
            Env::extends(old(env)@, final(env)@),
            Env::keeps_names(old(env)@, final(env)@),
        decreases old(base).steps, 1nat, expr, 0nat,
    {
        match expr {
            Expr::Assignment { id, e } => match Self::eval_kind(e, env, at, base) {
                Ok(v) => Self::assign_value(id, v, env, at, base),
                Err(kind) => Err(kind),
            },
            _ => Err(StumbleKind::Todo),
        }
    }

    /// Evaluates an operator with one operand.
    #[verifier::spinoff_prover]
    fn eval_unary(expr: &Expr, env: &mut Env, at: EnvHandle, base: &mut Base) -> (r: Result<
        ExprB,
        StumbleKind,
    >)
        requires
            old(env).wf(),
            at < old(env)@.len(),
            expr is Unary,
        ensures
            went(
                semantics::eval_unary(expr@, at, world(old(env)@, old(base))),
                old(base),
                final(env)@,
                final(base),
            ),
            gave(semantics::eval_unary(expr@, at, world(old(env)@, old(base))), r),
            final(env).wf(),
            Env::extends(old(env)@, final(env)@),
            Env::keeps_names(old(env)@, final(env)@),
        decreases old(base).steps, 1nat, expr, 0nat,
    {
        match expr {
            Expr::Unary { op, e } => match Self::eval_kind(e, env, at, base) {
                Ok(v) => apply_unary(*op, &v),
                Err(kind) => Err(kind),
            },
            _ => Err(StumbleKind::Todo),
        }
    }

    /// Evaluates `or` and `and`.
    #[verifier::spinoff_prover]
    #[verifier::rlimit(60)]
    fn eval_logic(expr: &Expr, env: &mut Env, at: EnvHandle, base: &mut Base) -> (r: Result<
        ExprB,
        StumbleKind,
    >)
        requires
            old(env).wf(),
            at < old(env)@.len(),
            expr is Or || expr is And,
        ensures
            went(
                semantics::eval_logic(expr@, at, world(old(env)@, old(base))),
                old(base),
                final(env)@,
                final(base),
            ),
            gave(semantics::eval_logic(expr@, at, world(old(env)@, old(base))), r),
            final(env).wf(),
            Env::extends(old(env)@, final(env)@),
            Env::keeps_names(old(env)@, final(env)@),
        decreases old(base).steps, 1nat, expr, 0nat,
    {
        match expr {
            Expr::Or { a, b } => match Self::eval_kind(a, env, at, base) {
                Ok(v) => if v.is_truthy() {
                    Ok(v)
                } else {
                    Self::eval_kind(b, env, at, base)
                },
                Err(kind) => Err(kind),
            },
            Expr::And { a, b } => match Self::eval_kind(a, env, at, base) {
                Ok(v) => if v.is_falsey() {
                    Ok(v)
                } else {
                    Self::eval_kind(b, env, at, base)
                },
                Err(kind) => Err(kind),
            },
            _ => Err(StumbleKind::Todo),
        }
    }

    /// Evaluates an operator with two operands.
    #[verifier::spinoff_prover]
    fn eval_binary(expr: &Expr, env: &mut Env, at: EnvHandle, base: &mut Base) -> (r: Result<
        ExprB,
        StumbleKind,
    >)
        requires
            old(env).wf(),
            at < old(env)@.len(),
            expr is Binary,
        ensures
            went(
                semantics::eval_binary(expr@, at, world(old(env)@, old(base))),
                old(base),
                final(env)@,
                final(base),
            ),
            gave(semantics::eval_binary(expr@, at, world(old(env)@, old(base))), r),
            final(env).wf(),
            Env::extends(old(env)@, final(env)@),
            Env::keeps_names(old(env)@, final(env)@),
        decreases old(base).steps, 1nat, expr, 0nat,
    {
        match expr {
            Expr::Binary { op, a, b } => {
                let left = match Self::eval_kind(a, env, at, base) {
                    Ok(v) => v,
                    Err(kind) => {
                        return Err(kind);
                    },
                };
                let numeric = match op {
                    OpTwo::Eq => false,
                    OpTwo::Neq => false,
                    OpTwo::Plus => false,
                    _ => true,
                };
                if !numeric {
                    return match Self::eval_kind(b, env, at, base) {
                        Ok(right) => apply_values(*op, left, right),
                        Err(kind) => Err(kind),
                    };
                }
                let x = match number_value(&left) {
                    Some(n) => n,
                    None => {
                        return Err(StumbleKind::ConflictingSubexpression);
                    },
                };
                let right = match Self::eval_kind(b, env, at, base) {
                    Ok(v) => v,
                    Err(kind) => {
                        return Err(kind);
                    },
                };
                match number_value(&right) {
                    Some(y) => Ok(apply_numbers(*op, x, y)),
                    None => Err(StumbleKind::ConflictingSubexpression),
                }
            },
            _ => Err(StumbleKind::Todo),
        }
    }

    /// Evaluates a call.
    #[verifier::spinoff_prover]
    fn eval_call(expr: &Expr, env: &mut Env, at: EnvHandle, base: &mut Base) -> (r: Result<
        ExprB,
        StumbleKind,
    >)
        requires
            old(env).wf(),
            at < old(env)@.len(),
            expr is Call,
        ensures
            went(
                semantics::eval_call(expr@, at, world(old(env)@, old(base))),
                old(base),
                final(env)@,
                final(base),
            ),
            gave(semantics::eval_call(expr@, at, world(old(env)@, old(base))), r),
            final(env).wf(),
            Env::extends(old(env)@, final(env)@),
            Env::keeps_names(old(env)@, final(env)@),
        decreases old(base).steps, 1nat, expr, 0nat,
    {
        match expr {
            Expr::Call { caller, args } => match Self::eval_kind(caller, env, at, base) {
                Ok(callee) => Self::call_value(callee, args, env, at, base),
                Err(kind) => Err(kind),
            },
            _ => Err(StumbleKind::Todo),
        }
    }

    /// Calls a value with arguments that are yet to be evaluated.
    #[verifier::spinoff_prover]
    fn call_value(
        callee: ExprB,
        args: &Vec<Expr>,
        env: &mut Env,
        at: EnvHandle,
        base: &mut Base,
    ) -> (r: Result<ExprB, StumbleKind>)
        requires
            old(env).wf(),
            at < old(env)@.len(),
        ensures
            went(
                semantics::call_value(callee@, exprs_view(*args), at, world(old(env)@, old(base))),
                old(base),
                final(env)@,
                final(base),
            ),
            gave(
                semantics::call_value(callee@, exprs_view(*args), at, world(old(env)@, old(base))),
                r,
            ),
            final(env).wf(),
            Env::extends(old(env)@, final(env)@),
            Env::keeps_names(old(env)@, final(env)@),
        decreases old(base).steps, 1nat, args, args.len() + 1,
    {
        match callee {
            ExprB::Lambda { env: home, params, body } => {
                if home >= env.size() {
                    return Err(StumbleKind::ExpectedLambda);
                }
                if env.size() >= usize::MAX {
                    return Err(StumbleKind::StepLimit);
                }
                let ghost w = world(old(env)@, old(base));
                let mark = env.size();
                let frame = env.narrow(home);
                let ghost inside = world(env@, base);
                assert(inside == (World { env: Env::narrowed(w.env, home), ..w }));
                let ghost o = semantics::bind(
                    identifiers_view(params),
                    exprs_view(*args),
                    0,
                    at,
                    frame,
                    inside,
                );
                let bound = Self::bind(&params, args, 0, env, at, frame, base);
                assert(inside.after(o) == world(env@, base));
                let ghost whole = semantics::call_body(statements_view(body), frame, inside, o);
                let ran = Self::call_body(&body, env, frame, base, bound, Ghost(inside));
                assert(env@ == whole.env);
                env.release(mark);
                ran
            },
            _ => Err(StumbleKind::ExpectedLambda),
        }
    }

    /// Runs the body of a function whose arguments were bound with the
    /// outcome `bound`, from the world `w`.
    #[verifier::spinoff_prover]
    fn call_body(
        body: &Vec<Statement>,
        env: &mut Env,
        frame: EnvHandle,
        base: &mut Base,
        bound: Result<(), StumbleKind>,
        Ghost(w): Ghost<World>,
    ) -> (r: Result<ExprB, StumbleKind>)
        requires
            old(env).wf(),
            frame < old(env)@.len(),
            old(base).steps <= w.steps,
        ensures
            forall|o: Outcome<()>|
                w.after(o) == world(old(env)@, old(base)) && o.spent <= w.steps && (match bound {
                    Ok(()) => o.result is Ok,
                    Err(kind) => o.result == Err::<(), StumbleKindView>(kind@),
                }) ==> {
                    let whole = #[trigger] semantics::call_body(
                        statements_view(*body),
                        frame,
                        w,
                        o,
                    );
                    &&& final(env)@ == whole.env
                    &&& final(base).stdio@ == whole.out
                    &&& final(base).steps + whole.spent == w.steps
                    &&& gave(whole, r)
                },
            final(env).wf(),
            Env::extends(old(env)@, final(env)@),
            Env::keeps_names_but(old(env)@, final(env)@, frame),
        decreases old(base).steps, 0nat, body, 0nat,
    {
        match bound {
            Ok(()) => {},
            Err(kind) => {
                return Err(kind);
            },
        }
        if base.steps == 0 {
            return Err(StumbleKind::StepLimit);
        }
        base.steps = base.steps - 1;
        returned(Self::run_list(body, 0, env, frame, base, ExprB::mk_nil()))
    }

    /// Binds parameters to arguments from the `i`th of each on.
    #[verifier::spinoff_prover]
    fn bind(
        params: &Vec<Identifier>,
        args: &Vec<Expr>,
        i: usize,
        env: &mut Env,
        at: EnvHandle,
        frame: EnvHandle,
        base: &mut Base,
    ) -> (r: Result<(), StumbleKind>)
        requires
            old(env).wf(),
            at < old(env)@.len(),
            frame < old(env)@.len(),
        ensures
            went(
                semantics::bind(
                    identifiers_view(*params),
                    exprs_view(*args),
                    i as nat,
                    at,
                    frame,
                    world(old(env)@, old(base)),
                ),
                old(base),
                final(env)@,
                final(base),
            ),
            match r {
                Ok(()) => semantics::bind(
                    identifiers_view(*params),
                    exprs_view(*args),
                    i as nat,
                    at,
                    frame,
                    world(old(env)@, old(base)),
                ).result is Ok,
                Err(kind) => semantics::bind(
                    identifiers_view(*params),
                    exprs_view(*args),
                    i as nat,
                    at,
                    frame,
                    world(old(env)@, old(base)),
                ).result == Err::<(), StumbleKindView>(kind@),
            },
            final(env).wf(),
            Env::extends(old(env)@, final(env)@),
            Env::keeps_names_but(old(env)@, final(env)@, frame),
        decreases old(base).steps, 1nat, args, args.len() - i,
    {
        if i >= params.len() || i >= args.len() {
            return Ok(());
        }
        assert(exprs_view(*args)[i as int] == args[i as int]@);
        assert(identifiers_view(*params)[i as int].name == params[i as int].name@);
        let ghost w = world(old(env)@, old(base));
        let ghost value = semantics::eval(args[i as int]@, at, w);
        let v = match Self::eval_kind(&args[i], env, at, base) {
            Ok(v) => v,
            Err(kind) => {
                return Err(kind);
            },
        };
        assert(w.after(value) == world(env@, base));
        let ghost mid = env@;
        env.insert(frame, &params[i].name, v);
        assert(world(env@, base) == (World {
            env: Env::inserted(mid, frame, params[i as int].name@, v@),
            ..w.after(value)
        }));
        Self::bind(params, args, i + 1, env, at, frame, base)
    }

    /// Runs the statements from the `from`th on, up to the first that
    /// breaks or returns.
    #[verifier::spinoff_prover]
    fn run_list(
        list: &Vec<Statement>,
        from: usize,
        env: &mut Env,
        at: EnvHandle,
        base: &mut Base,
        last: ExprB,
    ) -> (r: Result<(Control, ExprB), StumbleKind>)
        requires
            old(env).wf(),
            at < old(env)@.len(),
        ensures
            went(
                semantics::run_list(
                    statements_view(*list),
                    from as nat,
                    at,
                    world(old(env)@, old(base)),
                    last@,
                ),
                old(base),
                final(env)@,
                final(base),
            ),
            flowed(
                semantics::run_list(
                    statements_view(*list),
                    from as nat,
                    at,
                    world(old(env)@, old(base)),
                    last@,
                ),
                r,
            ),
            final(env).wf(),
            Env::extends(old(env)@, final(env)@),
            Env::keeps_names_but(old(env)@, final(env)@, at),
        decreases old(base).steps, 1nat, list, list.len() - from,
    {
        if from >= list.len() {
            return Ok((Control::Proceed, last));
        }
        assert(statements_view(*list)[from as int] == list[from as int]@);
        match Self::interpret_kind(&list[from], env, at, base) {
            Ok((Control::Proceed, v)) => Self::run_list(list, from + 1, env, at, base, v),
            other => other,
        }
    }

    /// Runs the statements in a frame of their own.
    #[verifier::spinoff_prover]
    fn run_scope(list: &Vec<Statement>, env: &mut Env, at: EnvHandle, base: &mut Base) -> (r:
        Result<(Control, ExprB), StumbleKind>)
        requires
            old(env).wf(),
            at < old(env)@.len(),
        ensures
            went(
                semantics::run_scope(statements_view(*list), at, world(old(env)@, old(base))),
                old(base),
                final(env)@,
                final(base),
            ),
            flowed(
                semantics::run_scope(statements_view(*list), at, world(old(env)@, old(base))),
                r,
            ),
            final(env).wf(),
            Env::extends(old(env)@, final(env)@),
            Env::keeps_names(old(env)@, final(env)@),
        decreases old(base).steps, 1nat, list, list.len() + 1,
    {
        if env.size() >= usize::MAX {
            return Err(StumbleKind::StepLimit);
        }
        let mark = env.size();
        let frame = env.narrow(at);
        let ran = Self::run_list(list, 0, env, frame, base, ExprB::mk_nil());
        env.release(mark);
        ran
    }

    /// Repeats the statements until a round breaks or returns.
    #[verifier::spinoff_prover]
    fn run_loop(list: &Vec<Statement>, env: &mut Env, at: EnvHandle, base: &mut Base) -> (r:
        Result<(Control, ExprB), StumbleKind>)
        requires
            old(env).wf(),
            at < old(env)@.len(),
        ensures
            went(
                semantics::run_loop(statements_view(*list), at, world(old(env)@, old(base))),
                old(base),
                final(env)@,
                final(base),
            ),
            flowed(semantics::run_loop(statements_view(*list), at, world(old(env)@, old(base))), r),
            final(env).wf(),
            Env::extends(old(env)@, final(env)@),
            Env::keeps_names(old(env)@, final(env)@),
        decreases old(base).steps, 0nat, list, 0nat,
    {
        loop
            invariant
                env.wf(),
                at < env@.len(),
                Env::extends(old(env)@, env@),
                Env::keeps_names(old(env)@, env@),
                base.steps <= old(base).steps,
                ({
                    let whole = semantics::run_loop(
                        statements_view(*list),
                        at,
                        world(old(env)@, old(base)),
                    );
                    let rest = semantics::run_loop(statements_view(*list), at, world(env@, base));
                    &&& whole.result == rest.result
                    &&& whole.env == rest.env
                    &&& whole.out == rest.out
                    &&& whole.spent == (old(base).steps - base.steps) + rest.spent
                }),
            decreases base.steps,
        {
            if base.steps == 0 {
                return Err(StumbleKind::StepLimit);
            }
            base.steps = base.steps - 1;
            match Self::run_scope(list, env, at, base) {
                Ok((Control::Proceed, _)) => {},
                Ok((Control::Break, _)) => {
                    return Ok((Control::Proceed, ExprB::mk_nil()));
                },
                other => {
                    return other;
                },
            }
        }
    }

    /// Runs a statement in the frame `at`; what goes wrong is reported
    /// by its kind alone. Only the frame `at` can come to bind a name
    /// that it did not bind, and not even that frame where the
    /// statement is a block or a loop, which work in frames of their
    /// own.
    #[verifier::spinoff_prover]
    pub fn interpret_kind(
        statement: &Statement,
        env: &mut Env,
        at: EnvHandle,
        base: &mut Base,
    ) -> (r: Result<(Control, ExprB), StumbleKind>)
        requires
            old(env).wf(),
            at < old(env)@.len(),
        ensures
            went(
                semantics::interpret(statement@, at, world(old(env)@, old(base))),
                old(base),
                final(env)@,
                final(base),
            ),
            flowed(semantics::interpret(statement@, at, world(old(env)@, old(base))), r),
            final(env).wf(),
            Env::extends(old(env)@, final(env)@),
            Env::keeps_names_but(old(env)@, final(env)@, at),
            statement@ is Block || statement@ is Loop || statement@ is While ==> Env::keeps_names(
                old(env)@,
                final(env)@,
            ),
        decreases old(base).steps, 1nat, statement, 1nat,
    {
        match statement {
            Statement::Empty => Ok((Control::Proceed, ExprB::mk_nil())),
            Statement::Break => Ok((Control::Break, ExprB::mk_nil())),
            Statement::Expression { .. } => Self::interpret_value(statement, env, at, base),
            Statement::Return { .. } => Self::interpret_value(statement, env, at, base),
            Statement::Print { .. } => Self::interpret_print(statement, env, at, base),
            Statement::Declaration { .. } => Self::interpret_declaration(statement, env, at, base),
            Statement::Assignment { .. } => Self::interpret_assignment(statement, env, at, base),
            Statement::Block { statements } => Self::run_scope(statements, env, at, base),
            Statement::Conditional { .. } => Self::interpret_conditional(statement, env, at, base),
            Statement::Loop { statements } => Self::run_loop(statements, env, at, base),
            Statement::While { .. } => Self::interpret_while(statement, env, at, base),
            Statement::Function { .. } => Self::interpret_function(statement, env, at, base),
        }
    }

    /// Runs an expression statement or a `return`.
    #[verifier::spinoff_prover]
    fn interpret_value(
        statement: &Statement,
        env: &mut Env,
        at: EnvHandle,
        base: &mut Base,
    ) -> (r: Result<(Control, ExprB), StumbleKind>)
        requires
            old(env).wf(),
            at < old(env)@.len(),
            statement is Expression || statement is Return,
        ensures
            went(
                semantics::interpret(statement@, at, world(old(env)@, old(base))),
                old(base),
                final(env)@,
                final(base),
            ),
            flowed(semantics::interpret(statement@, at, world(old(env)@, old(base))), r),
            final(env).wf(),
            Env::extends(old(env)@, final(env)@),
            Env::keeps_names(old(env)@, final(env)@),
        decreases old(base).steps, 1nat, statement, 0nat,
    {
        match statement {
            Statement::Expression { e } => match Self::eval_kind(e, env, at, base) {
                Ok(v) => Ok((Control::Proceed, v)),
                Err(kind) => Err(kind),
            },
            Statement::Return { expr } => match Self::eval_kind(expr, env, at, base) {
                Ok(v) => Ok((Control::Return, v)),
                Err(kind) => Err(kind),
            },
            _ => Err(StumbleKind::Todo),
        }
    }

    /// Runs a `print`.
    #[verifier::spinoff_prover]
    fn interpret_print(
        statement: &Statement,
        env: &mut Env,
        at: EnvHandle,
        base: &mut Base,
    ) -> (r: Result<(Control, ExprB), StumbleKind>)
        requires
            old(env).wf(),
            at < old(env)@.len(),
            statement is Print,
        ensures
            went(
                semantics::interpret(statement@, at, world(old(env)@, old(base))),
                old(base),
                final(env)@,
                final(base),
            ),
            flowed(semantics::interpret(statement@, at, world(old(env)@, old(base))), r),
            final(env).wf(),
            Env::extends(old(env)@, final(env)@),
            Env::keeps_names(old(env)@, final(env)@),
        decreases old(base).steps, 1nat, statement, 0nat,
    {
        match statement {
            Statement::Print { e } => match Self::eval_kind(e, env, at, base) {
                Ok(v) => {
                    print_value(&v, base);
                    Ok((Control::Proceed, ExprB::mk_nil()))
                },
                Err(kind) => Err(kind),
            },
            _ => Err(StumbleKind::Todo),
        }
    }

    /// Runs a declaration of a variable.
    #[verifier::spinoff_prover]
    fn interpret_declaration(
        statement: &Statement,
        env: &mut Env,
        at: EnvHandle,
        base: &mut Base,
    ) -> (r: Result<(Control, ExprB), StumbleKind>)
        requires
            old(env).wf(),
            at < old(env)@.len(),
            statement is Declaration,
        ensures
            went(
                semantics::interpret(statement@, at, world(old(env)@, old(base))),
                old(base),
                final(env)@,
                final(base),
            ),
            flowed(semantics::interpret(statement@, at, world(old(env)@, old(base))), r),
            final(env).wf(),
            Env::extends(old(env)@, final(env)@),
            Env::keeps_names_but(old(env)@, final(env)@, at),
        decreases old(base).steps, 1nat, statement, 0nat,
    {
        match statement {
            Statement::Declaration { id, e } => match Self::eval_kind(e, env, at, base) {
                Ok(v) => {
                    env.insert(at, &id.name, v.duplicate());
                    Ok((Control::Proceed, v))
                },
                Err(kind) => Err(kind),
            },
            _ => Err(StumbleKind::Todo),
        }
    }

    /// Runs an assignment.
    #[verifier::spinoff_prover]
    fn interpret_assignment(
        statement: &Statement,
        env: &mut Env,
        at: EnvHandle,
        base: &mut Base,
    ) -> (r: Result<(Control, ExprB), StumbleKind>)
        requires
            old(env).wf(),
            at < old(env)@.len(),
            statement is Assignment,
        ensures
            went(
                semantics::interpret(statement@, at, world(old(env)@, old(base))),
                old(base),
                final(env)@,
                final(base),
            ),
            flowed(semantics::interpret(statement@, at, world(old(env)@, old(base))), r),
            final(env).wf(),
            Env::extends(old(env)@, final(env)@),
            Env::keeps_names(old(env)@, final(env)@),
        decreases old(base).steps, 1nat, statement, 0nat,
    {
        match statement {
            Statement::Assignment { id, e } => match Self::eval_kind(e, env, at, base) {
                Ok(v) => match Self::assign_value(id, v, env, at, base) {
                    Ok(x) => Ok((Control::Proceed, x)),
                    Err(kind) => Err(kind),
                },
                Err(kind) => Err(kind),
            },
            _ => Err(StumbleKind::Todo),
        }
    }

    /// Runs a `while` loop.
    #[verifier::spinoff_prover]
    fn interpret_while(
        statement: &Statement,
        env: &mut Env,
        at: EnvHandle,
        base: &mut Base,
    ) -> (r: Result<(Control, ExprB), StumbleKind>)
        requires
            old(env).wf(),
            at < old(env)@.len(),
            statement is While,
        ensures
            went(
                semantics::interpret(statement@, at, world(old(env)@, old(base))),
                old(base),
                final(env)@,
                final(base),
            ),
            flowed(semantics::interpret(statement@, at, world(old(env)@, old(base))), r),
            final(env).wf(),
            Env::extends(old(env)@, final(env)@),
            Env::keeps_names(old(env)@, final(env)@),
        decreases old(base).steps, 1nat, statement, 0nat,
    {
        match statement {
            Statement::While { condition, body } => {
                let round = while_round(condition, body);
                Self::run_loop(&round, env, at, base)
            },
            _ => Err(StumbleKind::Todo),
        }
    }

    /// Runs a declaration of a function.
    #[verifier::spinoff_prover]
    fn interpret_function(
        statement: &Statement,
        env: &mut Env,
        at: EnvHandle,
        base: &mut Base,
    ) -> (r: Result<(Control, ExprB), StumbleKind>)
        requires
            old(env).wf(),
            at < old(env)@.len(),
            statement is Function,
        ensures
            went(
                semantics::interpret(statement@, at, world(old(env)@, old(base))),
                old(base),
                final(env)@,
                final(base),
            ),
            flowed(semantics::interpret(statement@, at, world(old(env)@, old(base))), r),
            final(env).wf(),
            Env::extends(old(env)@, final(env)@),
            Env::keeps_names_but(old(env)@, final(env)@, at),
        decreases old(base).steps, 1nat, statement, 0nat,
    {
        match statement {
            Statement::Function { id, parameters, body } => {
                let lambda = ExprB::Lambda {
                    env: at,
                    params: crate::ast::duplicate_identifiers(parameters),
                    body: crate::ast::duplicate_statements(body),
                };
                env.insert(at, &id.name, lambda);
                env.capture(at);
                Ok((Control::Proceed, ExprB::mk_nil()))
            },
            _ => Err(StumbleKind::Todo),
        }
    }

    /// Runs a conditional.
    #[verifier::spinoff_prover]
    fn interpret_conditional(
        statement: &Statement,
        env: &mut Env,
        at: EnvHandle,
        base: &mut Base,
    ) -> (r: Result<(Control, ExprB), StumbleKind>)
        requires
            old(env).wf(),
            at < old(env)@.len(),
            statement is Conditional,
        ensures
            went(
                semantics::interpret_conditional(statement@, at, world(old(env)@, old(base))),
                old(base),
                final(env)@,
                final(base),
            ),
            flowed(
                semantics::interpret_conditional(statement@, at, world(old(env)@, old(base))),
                r,
            ),
            final(env).wf(),
            Env::extends(old(env)@, final(env)@),
            Env::keeps_names_but(old(env)@, final(env)@, at),
        decreases old(base).steps, 1nat, statement, 0nat,
    {
        match statement {
            Statement::Conditional { condition, case_if, case_else } => {
                let test = match Self::eval_kind(condition, env, at, base) {
                    Ok(v) => v,
                    Err(kind) => {
                        return Err(kind);
                    },
                };
                if test.is_truthy() {
                    Self::interpret_kind(case_if, env, at, base)
                } else {
                    match case_else {
                        Some(other) => Self::interpret_kind(other, env, at, base),
                        None => Ok((Control::Proceed, ExprB::mk_nil())),
                    }
                }
            },
            _ => Err(StumbleKind::Todo),
        }
    }
}

} // verus!
