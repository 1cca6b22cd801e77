//! What programs mean: the value of every expression and the effect of
//! every statement, as functions on the scopes, the output written so
//! far and an allowance of steps.
//!
//! A loop round and a call each take one step of the allowance. When the
//! allowance is used up, evaluation ends with `StepLimit`; this is what
//! makes every evaluation end. It ends with `StepLimit` too where a
//! scope is to be entered and the table of scopes has as many frames as
//! a handle can tell apart.

use crate::ast::{
    Control, EnvHandle, ExprB, ExprView, IdentifierView, OpOne, OpTwo, StatementView, Value,
};
use crate::environment::{Env, EnvView};
use crate::err::StumbleKindView;
use crate::number::{
    double_difference, double_product, double_sum, is_at_most, is_equal, is_less,
    negated, number_of_text, number_text, quotient,
};
use vstd::prelude::*;

verus! {

/// What evaluation works on: the scopes, the output written so far, and
/// how many steps are left.
pub struct World {
    pub env: EnvView,
    pub out: Seq<char>,
    pub steps: nat,
}

/// What an evaluation gives: a result or a diagnostic, the scopes and
/// the output afterwards, and how many steps it took.
pub struct Outcome<T> {
    pub result: Result<T, StumbleKindView>,
    pub env: EnvView,
    pub out: Seq<char>,
    pub spent: nat,
}

impl World {
    /// The world that an evaluation from this world leaves behind.
    pub open spec fn after<T>(self, o: Outcome<T>) -> World {
        World {
            env: o.env,
            out: o.out,
            steps: if o.spent <= self.steps {
                (self.steps - o.spent) as nat
            } else {
                0
            },
        }
    }

    /// An evaluation that changes nothing and gives `value`.
    pub open spec fn give<T>(self, value: T) -> Outcome<T> {
        Outcome { result: Ok(value), env: self.env, out: self.out, spent: 0 }
    }

    /// An evaluation that changes nothing and fails.
    pub open spec fn fail<T>(self, kind: StumbleKindView) -> Outcome<T> {
        Outcome { result: Err(kind), env: self.env, out: self.out, spent: 0 }
    }
}

impl<T> Outcome<T> {
    /// This outcome as that of an evaluation that started with the
    /// evaluation `first`.
    pub open spec fn since<U>(self, first: Outcome<U>) -> Outcome<T> {
        Outcome { spent: first.spent + self.spent, ..self }
    }

    /// This outcome with another result.
    pub open spec fn with<U>(self, result: Result<U, StumbleKindView>) -> Outcome<U> {
        Outcome { result, env: self.env, out: self.out, spent: self.spent }
    }

    /// This outcome with the scopes left that were entered since the
    /// table had `mark` frames.
    pub open spec fn leaving(self, mark: nat) -> Outcome<T> {
        Outcome { env: Env::released(self.env, mark), ..self }
    }
}

/// The number that a value is taken for where an operator needs a
/// number: a number itself, or what a string reads as.
pub open spec fn number_of(v: Value) -> Option<u64> {
    match v {
        Value::Numeric { n } => Some(n),
        Value::String { s } => number_of_text(s),
        _ => None,
    }
}

/// Whether two values are equal: `nil` equals `nil`, booleans and
/// strings are equal when they are the same, numbers as IEEE-754 has
/// it; values of different kinds are never equal, and neither are
/// functions.
pub open spec fn values_equal(a: Value, b: Value) -> bool {
    match (a, b) {
        (Value::Nil, Value::Nil) => true,
        (Value::Boolean { b: x }, Value::Boolean { b: y }) => x == y,
        (Value::Numeric { n: x }, Value::Numeric { n: y }) => is_equal(x, y),
        (Value::String { s: x }, Value::String { s: y }) => x == y,
        _ => false,
    }
}

/// Whether the operator works on numbers alone.
pub open spec fn is_numeric_op(op: OpTwo) -> bool {
    !(op is Eq || op is Neq || op is Plus)
}

/// What an operator on numbers gives; `nil` for an operator that does
/// not work on numbers.
pub open spec fn on_numbers(op: OpTwo, a: u64, b: u64) -> Value {
    match op {
        OpTwo::Minus => Value::Numeric { n: double_difference(a, b) },
        OpTwo::Star => Value::Numeric { n: double_product(a, b) },
        OpTwo::Slash => Value::Numeric { n: quotient(a, b) },
        OpTwo::Lt => Value::Boolean { b: is_less(a, b) },
        OpTwo::Leq => Value::Boolean { b: is_at_most(a, b) },
        OpTwo::Gt => Value::Boolean { b: is_less(b, a) },
        OpTwo::Geq => Value::Boolean { b: is_at_most(b, a) },
        _ => Value::Nil,
    }
}

/// What `+`, `==` and `!=` give: the sum of two numbers or two strings
/// joined, and whether two values are equal. Any other operator is
/// taken for `+`.
pub open spec fn on_values(op: OpTwo, a: Value, b: Value) -> Result<Value, StumbleKindView> {
    match op {
        OpTwo::Eq => Ok(Value::Boolean { b: values_equal(a, b) }),
        OpTwo::Neq => Ok(Value::Boolean { b: !values_equal(a, b) }),
        _ => match (a, b) {
            (Value::Numeric { n: x }, Value::Numeric { n: y }) => Ok(
                Value::Numeric { n: double_sum(x, y) },
            ),
            (Value::String { s: x }, Value::String { s: y }) => Ok(Value::String { s: x + y }),
            _ => Err(StumbleKindView::ConflictingSubexpression),
        },
    }
}

/// What an operator with one operand gives.
pub open spec fn on_value(op: OpOne, v: Value) -> Result<Value, StumbleKindView> {
    match op {
        OpOne::Bang => Ok(Value::Boolean { b: !ExprB::truthy(v) }),
        OpOne::Minus => match number_of(v) {
            Some(n) => Ok(Value::Numeric { n: negated(n) }),
            None => Err(StumbleKindView::ConflictingSubexpression),
        },
    }
}

/// How a value is written: `nil`, `true` or `false`, a number as
/// [`number_text`] has it, a string as it is.
pub open spec fn display(v: Value) -> Seq<char> {
    match v {
        Value::Nil => "nil"@,
        Value::Boolean { b } => if b {
            "true"@
        } else {
            "false"@
        },
        Value::Numeric { n } => number_text(n),
        Value::String { s } => s,
        Value::Lambda { .. } => "\u{3bb}"@,
    }
}

/// What a `while` loop repeats: `if (!condition) break;` and then its
/// body.
pub open spec fn while_round(condition: ExprView, body: Seq<StatementView>) -> Seq<StatementView> {
    seq![
        StatementView::Conditional {
            condition,
            case_if: Box::new(StatementView::Empty),
            case_else: Some(Box::new(StatementView::Break)),
        },
    ] + body
}

/// The world with an assignment made, or why it cannot be made.
pub open spec fn assign(w: World, at: EnvHandle, target: ExprView, v: Value) -> Outcome<Value> {
    match target {
        ExprView::Identifier { id } => if Env::holder(w.env, at, id.name) is Some {
            Outcome {
                result: Ok(v),
                env: Env::assigned(w.env, at, id.name, v),
                out: w.out,
                spent: 0,
            }
        } else {
            w.fail(StumbleKindView::MissingAsignee)
        },
        _ => w.fail(StumbleKindView::InvalidAssignTo),
    }
}

/// The value of an expression in the frame `at`.
pub open spec fn eval(e: ExprView, at: EnvHandle, w: World) -> Outcome<Value>
    decreases w.steps, 1nat, e, 1nat,
{
    match e {
        ExprView::Empty => w.give(Value::Nil),
        ExprView::Basic(v) => w.give(v),
        ExprView::Identifier { id } => match Env::value_of(w.env, at, id) {
            Some(v) => w.give(v),
            None => w.fail(StumbleKindView::InvalidIdentifier { id: id.name }),
        },
        ExprView::Grouping { e } => eval(*e, at, w),
        ExprView::Assignment { .. } => eval_assignment(e, at, w),
        ExprView::Unary { .. } => eval_unary(e, at, w),
        ExprView::Binary { .. } => eval_binary(e, at, w),
        ExprView::Or { .. } => eval_logic(e, at, w),
        ExprView::And { .. } => eval_logic(e, at, w),
        ExprView::Call { .. } => eval_call(e, at, w),
    }
}

/// The value of an assignment: the value assigned, once the variable
/// has taken it. Of any other expression this says `Todo`.
pub open spec fn eval_assignment(e: ExprView, at: EnvHandle, w: World) -> Outcome<Value>
    decreases w.steps, 1nat, e, 0nat,
{
    match e {
        ExprView::Assignment { id, e } => {
            let value = eval(*e, at, w);
            match value.result {
                Ok(v) => assign(w.after(value), at, *id, v).since(value),
                Err(_) => value,
            }
        },
        _ => w.fail(StumbleKindView::Todo),
    }
}

/// The value of an operator applied to one operand. Of any other
/// expression this says `Todo`.
pub open spec fn eval_unary(e: ExprView, at: EnvHandle, w: World) -> Outcome<Value>
    decreases w.steps, 1nat, e, 0nat,
{
    match e {
        ExprView::Unary { op, e } => {
            let operand = eval(*e, at, w);
            match operand.result {
                Ok(v) => operand.with(on_value(op, v)),
                Err(_) => operand,
            }
        },
        _ => w.fail(StumbleKindView::Todo),
    }
}

/// The value of an operator applied to two operands: the left operand
/// is evaluated first, and where the operator works on numbers it is
/// taken for a number before the right operand is evaluated. Of any
/// other expression this says `Todo`.
pub open spec fn eval_binary(e: ExprView, at: EnvHandle, w: World) -> Outcome<Value>
    decreases w.steps, 1nat, e, 0nat,
{
    match e {
        ExprView::Binary { op, a, b } => {
            let left = eval(*a, at, w);
            match left.result {
                Err(_) => left,
                Ok(l) => if is_numeric_op(op) && number_of(l) is None {
                    left.with(Err(StumbleKindView::ConflictingSubexpression))
                } else {
                    let right = eval(*b, at, w.after(left)).since(left);
                    match right.result {
                        Err(_) => right,
                        Ok(r) => if !is_numeric_op(op) {
                            right.with(on_values(op, l, r))
                        } else if number_of(r) is None {
                            right.with(Err(StumbleKindView::ConflictingSubexpression))
                        } else {
                            right.with(Ok(on_numbers(op, number_of(l)->0, number_of(r)->0)))
                        },
                    }
                },
            }
        },
        _ => w.fail(StumbleKindView::Todo),
    }
}

/// The value of `a or b` and of `a and b`: that of `a` where it decides
/// the outcome, in which case `b` is not evaluated; else that of `b`.
/// Of any other expression this says `Todo`.
pub open spec fn eval_logic(e: ExprView, at: EnvHandle, w: World) -> Outcome<Value>
    decreases w.steps, 1nat, e, 0nat,
{
    match e {
        ExprView::Or { a, b } => {
            let first = eval(*a, at, w);
            match first.result {
                Ok(v) => if ExprB::truthy(v) {
                    first
                } else {
                    eval(*b, at, w.after(first)).since(first)
                },
                Err(_) => first,
            }
        },
        ExprView::And { a, b } => {
            let first = eval(*a, at, w);
            match first.result {
                Ok(v) => if !ExprB::truthy(v) {
                    first
                } else {
                    eval(*b, at, w.after(first)).since(first)
                },
                Err(_) => first,
            }
        },
        _ => w.fail(StumbleKindView::Todo),
    }
}

/// The value of a call: the callee is evaluated first, then called. Of
/// any other expression this says `Todo`.
pub open spec fn eval_call(e: ExprView, at: EnvHandle, w: World) -> Outcome<Value>
    decreases w.steps, 1nat, e, 0nat,
{
    match e {
        ExprView::Call { caller, args } => {
            let callee = eval(*caller, at, w);
            match callee.result {
                Err(_) => callee,
                Ok(f) => call_value(f, args, at, w.after(callee)).since(callee),
            }
        },
        _ => w.fail(StumbleKindView::Todo),
    }
}

/// What calling the value `f` gives. It must be a function whose frame
/// is in the table. The arguments are bound in a new frame inside the
/// function's frame, the body runs in that new frame, and the frame is
/// left afterwards. The value is what the body returns, or `nil`. A
/// table that is full takes no further frame.
pub open spec fn call_value(f: Value, args: Seq<ExprView>, at: EnvHandle, w: World) -> Outcome<
    Value,
>
    decreases w.steps, 1nat, args, args.len() + 1,
{
    match f {
        Value::Lambda { env: home, params, body } => if home >= w.env.len() {
            w.fail(StumbleKindView::ExpectedLambda)
        } else if w.env.len() >= usize::MAX {
            w.fail(StumbleKindView::StepLimit)
        } else {
            let frame = w.env.len() as EnvHandle;
            let inside = World { env: Env::narrowed(w.env, home), ..w };
            call_body(body, frame, inside, bind(params, args, 0, at, frame, inside)).leaving(
                frame as nat,
            )
        },
        _ => w.fail(StumbleKindView::ExpectedLambda),
    }
}

/// What a call gives once its arguments are bound with the outcome
/// `bound`, from the world `w`: the body takes one step and runs in the
/// frame `frame`.
pub open spec fn call_body(
    body: Seq<StatementView>,
    frame: EnvHandle,
    w: World,
    bound: Outcome<()>,
) -> Outcome<Value>
    decreases w.after(bound).steps, 0nat, body, 0nat,
{
    let w3 = w.after(bound);
    match bound.result {
        Err(kind) => bound.with(Err(kind)),
        Ok(_) => if w3.steps == 0 {
            bound.with(Err(StumbleKindView::StepLimit))
        } else {
            let ran = run_list(
                body,
                0,
                frame,
                World { steps: (w3.steps - 1) as nat, ..w3 },
                Value::Nil,
            );
            Outcome {
                result: match ran.result {
                    Ok((Control::Return, v)) => Ok(v),
                    Ok(_) => Ok(Value::Nil),
                    Err(kind) => Err(kind),
                },
                env: ran.env,
                out: ran.out,
                spent: bound.spent + 1 + ran.spent,
            }
        },
    }
}

/// Binds parameters to arguments, from the `i`th of each on, in the
/// frame `frame`: each argument is evaluated in the frame `at` and then
/// bound. Arguments without a parameter are not evaluated.
pub open spec fn bind(
    params: Seq<IdentifierView>,
    args: Seq<ExprView>,
    i: nat,
    at: EnvHandle,
    frame: EnvHandle,
    w: World,
) -> Outcome<()>
    decreases w.steps, 1nat, args, args.len() - i,
{
    if i >= params.len() || i >= args.len() {
        w.give(())
    } else {
        let value = eval(args[i as int], at, w);
        match value.result {
            Err(kind) => value.with(Err(kind)),
            Ok(v) => {
                let w1 = w.after(value);
                bind(
                    params,
                    args,
                    i + 1,
                    at,
                    frame,
                    World { env: Env::inserted(w1.env, frame, params[i as int].name, v), ..w1 },
                ).since(value)
            },
        }
    }
}

/// The effect of the statements from the `from`th on, in order, in the
/// frame `at`, up to the first that breaks or returns. `last` is the
/// value of the statement before.
pub open spec fn run_list(
    list: Seq<StatementView>,
    from: nat,
    at: EnvHandle,
    w: World,
    last: Value,
) -> Outcome<(Control, Value)>
    decreases w.steps, 1nat, list, list.len() - from,
{
    if from >= list.len() {
        w.give((Control::Proceed, last))
    } else {
        let first = interpret(list[from as int], at, w);
        match first.result {
            Ok((Control::Proceed, v)) => run_list(list, from + 1, at, w.after(first), v).since(
                first,
            ),
            _ => first,
        }
    }
}

/// The effect of the statements in a frame of their own inside the
/// frame `at`, which is left afterwards. A table that is full takes no
/// further frame.
pub open spec fn run_scope(list: Seq<StatementView>, at: EnvHandle, w: World) -> Outcome<
    (Control, Value),
>
    decreases w.steps, 1nat, list, list.len() + 1,
{
    if w.env.len() >= usize::MAX {
        w.fail(StumbleKindView::StepLimit)
    } else {
        run_list(
            list,
            0,
            w.env.len() as EnvHandle,
            World { env: Env::narrowed(w.env, at), ..w },
            Value::Nil,
        ).leaving(w.env.len())
    }
}

/// The effect of repeating the statements, each round in a frame of its
/// own inside the frame `at`, until a round breaks or returns. Each
/// round takes one step.
pub open spec fn run_loop(list: Seq<StatementView>, at: EnvHandle, w: World) -> Outcome<
    (Control, Value),
>
    decreases w.steps, 0nat, list, 0nat,
{
    if w.steps == 0 {
        w.fail(StumbleKindView::StepLimit)
    } else {
        let round = run_scope(list, at, World { steps: (w.steps - 1) as nat, ..w });
        let took = Outcome { spent: round.spent + 1, ..round };
        match round.result {
            Ok((Control::Proceed, _)) => run_loop(list, at, w.after(took)).since(took),
            Ok((Control::Break, _)) => took.with(Ok((Control::Proceed, Value::Nil))),
            _ => took,
        }
    }
}

/// The effect of a statement in the frame `at`: how control goes on
/// behind it, and its value.
pub open spec fn interpret(s: StatementView, at: EnvHandle, w: World) -> Outcome<(Control, Value)>
    decreases w.steps, 1nat, s, 1nat,
{
    match s {
        StatementView::Empty => w.give((Control::Proceed, Value::Nil)),
        StatementView::Break => w.give((Control::Break, Value::Nil)),
        StatementView::Expression { e } => valued(eval(e, at, w), Control::Proceed),
        StatementView::Return { expr } => valued(eval(expr, at, w), Control::Return),
        StatementView::Print { e } => printed(eval(e, at, w)),
        StatementView::Declaration { id, e } => declared(eval(e, at, w), at, id.name),
        StatementView::Assignment { id, e } => {
            let value = eval(e, at, w);
            match value.result {
                Ok(v) => valued(assign(w.after(value), at, id, v).since(value), Control::Proceed),
                Err(kind) => value.with(Err(kind)),
            }
        },
        StatementView::Block { statements } => run_scope(statements, at, w),
        StatementView::Conditional { .. } => interpret_conditional(s, at, w),
        StatementView::Loop { statements } => run_loop(statements, at, w),
        StatementView::While { condition, body } => run_loop(while_round(condition, body), at, w),
        StatementView::Function { id, parameters, body } => Outcome {
            result: Ok((Control::Proceed, Value::Nil)),
            env: Env::captured(
                Env::inserted(
                    w.env,
                    at,
                    id.name,
                    Value::Lambda { env: at, params: parameters, body },
                ),
                at,
            ),
            out: w.out,
            spent: 0,
        },
    }
}

/// The effect of a conditional: that of the branch that the condition
/// selects, or nothing where there is no such branch. Of any other
/// statement this says `Todo`.
pub open spec fn interpret_conditional(s: StatementView, at: EnvHandle, w: World) -> Outcome<
    (Control, Value),
>
    decreases w.steps, 1nat, s, 0nat,
{
    match s {
        StatementView::Conditional { condition, case_if, case_else } => {
            let test = eval(condition, at, w);
            match test.result {
                Err(kind) => test.with(Err(kind)),
                Ok(v) => if ExprB::truthy(v) {
                    interpret(*case_if, at, w.after(test)).since(test)
                } else {
                    match case_else {
                        Some(other) => interpret(*other, at, w.after(test)).since(test),
                        None => test.with(Ok((Control::Proceed, Value::Nil))),
                    }
                },
            }
        },
        _ => w.fail(StumbleKindView::Todo),
    }
}

/// The outcome of a statement that has the value of an expression and
/// goes on as `control` says.
pub open spec fn valued(value: Outcome<Value>, control: Control) -> Outcome<(Control, Value)> {
    match value.result {
        Ok(v) => value.with(Ok((control, v))),
        Err(kind) => value.with(Err(kind)),
    }
}

/// The outcome of printing a value: the value as text and a line end
/// are added to the output.
pub open spec fn printed(value: Outcome<Value>) -> Outcome<(Control, Value)> {
    match value.result {
        Ok(v) => Outcome {
            result: Ok((Control::Proceed, Value::Nil)),
            env: value.env,
            out: value.out + display(v) + seq!['\n'],
            spent: value.spent,
        },
        Err(kind) => value.with(Err(kind)),
    }
}

/// The outcome of declaring a variable with a value in the frame `at`.
pub open spec fn declared(value: Outcome<Value>, at: EnvHandle, name: Seq<char>) -> Outcome<
    (Control, Value),
> {
    match value.result {
        Ok(v) => Outcome {
            result: Ok((Control::Proceed, v)),
            env: Env::inserted(value.env, at, name, v),
            out: value.out,
            spent: value.spent,
        },
        Err(kind) => value.with(Err(kind)),
    }
}

} // verus!
