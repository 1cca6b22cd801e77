//! The grammar, as functions from a token sequence and a position to the
//! tree that is read there.
//!
//! ```text
//! expression   := assignment
//! assignment   := IDENT "=" assignment | logic_or
//! logic_or     := logic_and ("or" logic_and)*
//! logic_and    := equality ("and" equality)*
//! equality     := comparison (("==" | "!=") comparison)*
//! comparison   := term ((">" | ">=" | "<" | "<=") comparison)?
//! term         := factor (("+" | "-") term)?
//! factor       := unary (("*" | "/") factor)?
//! unary        := ("!" | "-") unary | call
//! call         := primary ("(" arguments? ")")*
//! primary      := NUMBER | STRING | "true" | "false" | "nil" | IDENT
//!               | "(" expression ")"
//!
//! program      := declaration*
//! declaration  := "var" IDENT ("=" expression)? ";" | statement
//! statement    := "print" expression ";" | block | conditional
//!               | "loop" block | "while" "(" expression ")" block
//!               | for | function | "return" expression? ";"
//!               | "break" ";" | ";" | expression ";"
//! block        := "{" declaration* "}"
//! conditional  := "if" "(" expression ")" declaration
//!                 ("else" declaration)? ";"?
//! for          := "for" "(" (declaration | ";") expression? ";"
//!                 expression? ")" block
//! function     := "fun" IDENT "(" (IDENT ("," IDENT)*)? ")" block
//! ```
//!
//! Comparison, addition and multiplication group to the right: `8 / 4 / 2`
//! reads as `8 / (4 / 2)`. Every name is annotated, as it is read, with
//! the number of frames between the frame it is read in and the nearest
//! frame that declares it.

use crate::ast::{EnvHandle, ExprView, IdentifierView, OpOne, OpTwo, StatementView, Value};
use crate::environment::{Env, EnvView};
use crate::err::StumbleKindView;
use crate::location::Location;
use crate::token::{TknKView, TknView};
use vstd::prelude::*;

verus! {

/// The outcome of reading at a position: a tree or a refusal, and how
/// many tokens were taken. After a refusal the position is in front of
/// the token that was refused.
pub struct Step<T> {
    pub result: Result<T, StumbleKindView>,
    pub used: nat,
}

impl<T> Step<T> {
    /// A tree was read, and `used` tokens were taken.
    pub open spec fn done(value: T, used: nat) -> Step<T> {
        Step { result: Ok(value), used }
    }

    /// The token behind `used` tokens was refused.
    pub open spec fn fail(kind: StumbleKindView, used: nat) -> Step<T> {
        Step { result: Err(kind), used }
    }
}

/// The most arguments that a call may have.
pub const MAX_ARGUMENTS: usize = 255;

/// How many tokens lie at or behind a position.
pub open spec fn remaining(ts: Seq<TknView>, i: nat) -> nat {
    if i <= ts.len() {
        (ts.len() - i) as nat
    } else {
        0
    }
}

/// The kind of the token at a position, if there is one.
pub open spec fn kind_at(ts: Seq<TknView>, i: nat) -> Option<TknKView> {
    if i < ts.len() {
        Some(ts[i as int].kind)
    } else {
        None
    }
}

/// A name as it is read in the frame `at`.
pub open spec fn named(env: EnvView, at: EnvHandle, name: Seq<char>) -> IdentifierView {
    IdentifierView { name, offset: Env::resolve(env, at, name) }
}

/// The comparison that a token stands for.
pub open spec fn comparison_op(kind: TknKView) -> Option<OpTwo> {
    match kind {
        TknKView::Greater => Some(OpTwo::Gt),
        TknKView::GreaterEqual => Some(OpTwo::Geq),
        TknKView::Less => Some(OpTwo::Lt),
        TknKView::LessEqual => Some(OpTwo::Leq),
        _ => None,
    }
}

/// The test for equality that a token stands for.
pub open spec fn equality_op(kind: TknKView) -> Option<OpTwo> {
    match kind {
        TknKView::EqualEqual => Some(OpTwo::Eq),
        TknKView::BangEqual => Some(OpTwo::Neq),
        _ => None,
    }
}

/// The addition or subtraction that a token stands for.
pub open spec fn term_op(kind: TknKView) -> Option<OpTwo> {
    match kind {
        TknKView::Minus => Some(OpTwo::Minus),
        TknKView::Plus => Some(OpTwo::Plus),
        _ => None,
    }
}

/// The multiplication or division that a token stands for.
pub open spec fn factor_op(kind: TknKView) -> Option<OpTwo> {
    match kind {
        TknKView::Slash => Some(OpTwo::Slash),
        TknKView::Star => Some(OpTwo::Star),
        _ => None,
    }
}

/// The operator with one operand that a token stands for.
pub open spec fn unary_op(kind: TknKView) -> Option<OpOne> {
    match kind {
        TknKView::Bang => Some(OpOne::Bang),
        TknKView::Minus => Some(OpOne::Minus),
        _ => None,
    }
}

/// The levels of operators with two operands, from the loosest to the
/// tightest.
pub enum Level {
    Equality,
    Comparison,
    Term,
    Factor,
}

/// The operator that a token is at a level.
pub open spec fn op_of(level: Level, kind: TknKView) -> Option<OpTwo> {
    match level {
        Level::Equality => equality_op(kind),
        Level::Comparison => comparison_op(kind),
        Level::Term => term_op(kind),
        Level::Factor => factor_op(kind),
    }
}

/// An operator applied to two operands.
pub open spec fn binary(op: OpTwo, a: ExprView, b: ExprView) -> ExprView {
    ExprView::Binary { op, a: Box::new(a), b: Box::new(b) }
}

/// Whether every name in the expression carries the offset that it has
/// in the frame `at` of the scopes `env`: the number of frames to walk
/// to the nearest frame that declares it, or none where no frame does.
pub open spec fn resolved(e: ExprView, env: EnvView, at: EnvHandle) -> bool
    decreases e,
{
    match e {
        ExprView::Empty => true,
        ExprView::Basic(_) => true,
        ExprView::Identifier { id } => id.offset == Env::resolve(env, at, id.name),
        ExprView::Assignment { id, e } => resolved(*id, env, at) && resolved(*e, env, at),
        ExprView::Unary { op, e } => resolved(*e, env, at),
        ExprView::Binary { op, a, b } => resolved(*a, env, at) && resolved(*b, env, at),
        ExprView::Or { a, b } => resolved(*a, env, at) && resolved(*b, env, at),
        ExprView::And { a, b } => resolved(*a, env, at) && resolved(*b, env, at),
        ExprView::Grouping { e } => resolved(*e, env, at),
        ExprView::Call { caller, args } => resolved(*caller, env, at) && all_resolved(
            args,
            env,
            at,
        ),
    }
}

/// Whether every expression of the list is [`resolved`].
pub open spec fn all_resolved(list: Seq<ExprView>, env: EnvView, at: EnvHandle) -> bool
    decreases list,
{
    forall|i: int| 0 <= i < list.len() ==> resolved(#[trigger] list[i], env, at)
}

/// `expression := assignment`
#[verifier::opaque]
pub open spec fn expression(ts: Seq<TknView>, i: nat, env: EnvView, at: EnvHandle) -> Step<
    ExprView,
> {
    expression_rec(ts, i, env, at)
}

/// An expression, as the rules for expressions use it among
/// themselves.
pub open spec fn expression_rec(ts: Seq<TknView>, i: nat, env: EnvView, at: EnvHandle) -> Step<
    ExprView,
>
    decreases remaining(ts, i), 30nat,
{
    assignment(ts, i, env, at)
}

/// `assignment := IDENT "=" assignment | logic_or`
pub open spec fn assignment(ts: Seq<TknView>, i: nat, env: EnvView, at: EnvHandle) -> Step<
    ExprView,
>
    decreases remaining(ts, i), 28nat,
{
    match (kind_at(ts, i), kind_at(ts, i + 1)) {
        (Some(TknKView::Identifier { id }), Some(TknKView::Equal)) => {
            let value = assignment(ts, i + 2, env, at);
            match value.result {
                Ok(e) => Step::done(
                    ExprView::Assignment {
                        id: Box::new(ExprView::Identifier { id: named(env, at, id) }),
                        e: Box::new(e),
                    },
                    2 + value.used,
                ),
                Err(kind) => Step::fail(kind, 2 + value.used),
            }
        },
        _ => logic_or(ts, i, env, at),
    }
}

/// `logic_or := logic_and ("or" logic_and)*`
pub open spec fn logic_or(ts: Seq<TknView>, i: nat, env: EnvView, at: EnvHandle) -> Step<ExprView>
    decreases remaining(ts, i), 26nat,
{
    let left = logic_and(ts, i, env, at);
    match left.result {
        Ok(l) => {
            let rest = or_tail(ts, i + left.used, env, at, l);
            Step { result: rest.result, used: left.used + rest.used }
        },
        Err(_) => left,
    }
}

/// Any further `or` operands behind what was read as `left`.
pub open spec fn or_tail(
    ts: Seq<TknView>,
    i: nat,
    env: EnvView,
    at: EnvHandle,
    left: ExprView,
) -> Step<ExprView>
    decreases remaining(ts, i), 25nat,
{
    if kind_at(ts, i) == Some(TknKView::Or) {
        let right = logic_and(ts, i + 1, env, at);
        match right.result {
            Ok(r) => {
                let rest = or_tail(
                    ts,
                    i + 1 + right.used,
                    env,
                    at,
                    ExprView::Or { a: Box::new(left), b: Box::new(r) },
                );
                Step { result: rest.result, used: 1 + right.used + rest.used }
            },
            Err(kind) => Step::fail(kind, 1 + right.used),
        }
    } else {
        Step::done(left, 0)
    }
}

/// `logic_and := equality ("and" equality)*`
pub open spec fn logic_and(ts: Seq<TknView>, i: nat, env: EnvView, at: EnvHandle) -> Step<
    ExprView,
>
    decreases remaining(ts, i), 24nat,
{
    let left = equality(ts, i, env, at);
    match left.result {
        Ok(l) => {
            let rest = and_tail(ts, i + left.used, env, at, l);
            Step { result: rest.result, used: left.used + rest.used }
        },
        Err(_) => left,
    }
}

/// Any further `and` operands behind what was read as `left`.
pub open spec fn and_tail(
    ts: Seq<TknView>,
    i: nat,
    env: EnvView,
    at: EnvHandle,
    left: ExprView,
) -> Step<ExprView>
    decreases remaining(ts, i), 23nat,
{
    if kind_at(ts, i) == Some(TknKView::And) {
        let right = equality(ts, i + 1, env, at);
        match right.result {
            Ok(r) => {
                let rest = and_tail(
                    ts,
                    i + 1 + right.used,
                    env,
                    at,
                    ExprView::And { a: Box::new(left), b: Box::new(r) },
                );
                Step { result: rest.result, used: 1 + right.used + rest.used }
            },
            Err(kind) => Step::fail(kind, 1 + right.used),
        }
    } else {
        Step::done(left, 0)
    }
}

/// `equality := comparison (("==" | "!=") comparison)*`
pub open spec fn equality(ts: Seq<TknView>, i: nat, env: EnvView, at: EnvHandle) -> Step<ExprView>
    decreases remaining(ts, i), 22nat,
{
    let left = comparison(ts, i, env, at);
    match left.result {
        Ok(l) => {
            let rest = equality_tail(ts, i + left.used, env, at, l);
            Step { result: rest.result, used: left.used + rest.used }
        },
        Err(_) => left,
    }
}

/// Any further operands of `==` and `!=` behind what was read as `left`.
pub open spec fn equality_tail(
    ts: Seq<TknView>,
    i: nat,
    env: EnvView,
    at: EnvHandle,
    left: ExprView,
) -> Step<ExprView>
    decreases remaining(ts, i), 21nat,
{
    match kind_at(ts, i) {
        Some(kind) => match equality_op(kind) {
            Some(op) => {
                let right = comparison(ts, i + 1, env, at);
                match right.result {
                    Ok(r) => {
                        let rest = equality_tail(
                            ts,
                            i + 1 + right.used,
                            env,
                            at,
                            binary(op, left, r),
                        );
                        Step { result: rest.result, used: 1 + right.used + rest.used }
                    },
                    Err(kind) => Step::fail(kind, 1 + right.used),
                }
            },
            None => Step::done(left, 0),
        },
        None => Step::done(left, 0),
    }
}

/// `left op right`, where `op` is the operator of the level that
/// follows what was read as `left`, and `right` is what was read behind
/// it.
pub open spec fn with_right(
    ts: Seq<TknView>,
    i: nat,
    level: Level,
    left: Step<ExprView>,
    right: Step<ExprView>,
) -> Step<ExprView> {
    match right.result {
        Ok(r) => Step::done(
            binary(op_of(level, kind_at(ts, i + left.used)->0)->0, left.result->Ok_0, r),
            left.used + 1 + right.used,
        ),
        Err(kind) => Step::fail(kind, left.used + 1 + right.used),
    }
}

/// Whether an operator of the level stands behind what was read as
/// `left`.
pub open spec fn operator_follows(
    ts: Seq<TknView>,
    i: nat,
    level: Level,
    left: Step<ExprView>,
) -> bool {
    &&& left.result is Ok
    &&& kind_at(ts, i + left.used) is Some
    &&& op_of(level, kind_at(ts, i + left.used)->0) is Some
}

/// `comparison := term ((">" | ">=" | "<" | "<=") comparison)?`
pub open spec fn comparison(ts: Seq<TknView>, i: nat, env: EnvView, at: EnvHandle) -> Step<
    ExprView,
>
    decreases remaining(ts, i), 20nat,
{
    let left = term(ts, i, env, at);
    if operator_follows(ts, i, Level::Comparison, left) {
        with_right(ts, i, Level::Comparison, left, comparison(ts, i + left.used + 1, env, at))
    } else {
        left
    }
}

/// `term := factor (("+" | "-") term)?`
pub open spec fn term(ts: Seq<TknView>, i: nat, env: EnvView, at: EnvHandle) -> Step<ExprView>
    decreases remaining(ts, i), 18nat,
{
    let left = factor(ts, i, env, at);
    if operator_follows(ts, i, Level::Term, left) {
        with_right(ts, i, Level::Term, left, term(ts, i + left.used + 1, env, at))
    } else {
        left
    }
}

/// `factor := unary (("*" | "/") factor)?`
pub open spec fn factor(ts: Seq<TknView>, i: nat, env: EnvView, at: EnvHandle) -> Step<ExprView>
    decreases remaining(ts, i), 16nat,
{
    let left = unary(ts, i, env, at);
    if operator_follows(ts, i, Level::Factor, left) {
        with_right(ts, i, Level::Factor, left, factor(ts, i + left.used + 1, env, at))
    } else {
        left
    }
}

/// `unary := ("!" | "-") unary | call`
pub open spec fn unary(ts: Seq<TknView>, i: nat, env: EnvView, at: EnvHandle) -> Step<ExprView>
    decreases remaining(ts, i), 14nat,
{
    match kind_at(ts, i) {
        None => Step::fail(StumbleKindView::MissingToken, 0),
        Some(kind) => match unary_op(kind) {
            Some(op) => {
                let operand = unary(ts, i + 1, env, at);
                match operand.result {
                    Ok(e) => Step::done(ExprView::Unary { op, e: Box::new(e) }, 1 + operand.used),
                    Err(kind) => Step::fail(kind, 1 + operand.used),
                }
            },
            None => call(ts, i, env, at),
        },
    }
}

/// `call := primary ("(" arguments? ")")*`
pub open spec fn call(ts: Seq<TknView>, i: nat, env: EnvView, at: EnvHandle) -> Step<ExprView>
    decreases remaining(ts, i), 12nat,
{
    let callee = primary(ts, i, env, at);
    match callee.result {
        Ok(e) => {
            let rest = call_tail(ts, i + callee.used, env, at, e);
            Step { result: rest.result, used: callee.used + rest.used }
        },
        Err(_) => callee,
    }
}

/// Any argument lists behind what was read as `callee`.
pub open spec fn call_tail(
    ts: Seq<TknView>,
    i: nat,
    env: EnvView,
    at: EnvHandle,
    callee: ExprView,
) -> Step<ExprView>
    decreases remaining(ts, i), 11nat,
{
    if kind_at(ts, i) == Some(TknKView::ParenL) {
        let args = arguments(ts, i + 1, env, at);
        match args.result {
            Ok(list) => {
                let rest = call_tail(
                    ts,
                    i + 1 + args.used,
                    env,
                    at,
                    ExprView::Call { caller: Box::new(callee), args: list },
                );
                Step { result: rest.result, used: 1 + args.used + rest.used }
            },
            Err(kind) => Step::fail(kind, 1 + args.used),
        }
    } else {
        Step::done(callee, 0)
    }
}

/// The arguments of a call, from behind the opening parenthesis up to
/// and including the closing one.
pub open spec fn arguments(ts: Seq<TknView>, i: nat, env: EnvView, at: EnvHandle) -> Step<
    Seq<ExprView>,
>
    decreases remaining(ts, i), 33nat,
{
    if kind_at(ts, i) == Some(TknKView::ParenR) {
        Step::done(Seq::empty(), 1)
    } else {
        more_arguments(ts, i, env, at, Seq::empty())
    }
}

/// One more argument behind those in `list`, then a comma and further
/// arguments, or the closing parenthesis.
pub open spec fn more_arguments(
    ts: Seq<TknView>,
    i: nat,
    env: EnvView,
    at: EnvHandle,
    list: Seq<ExprView>,
) -> Step<Seq<ExprView>>
    decreases remaining(ts, i), 32nat,
{
    let next = expression_rec(ts, i, env, at);
    match next.result {
        Err(kind) => Step::fail(kind, next.used),
        Ok(e) => {
            if list.len() >= MAX_ARGUMENTS {
                Step::fail(StumbleKindView::ArgLimit, next.used)
            } else if kind_at(ts, i + next.used) == Some(TknKView::Comma) {
                let rest = more_arguments(ts, i + next.used + 1, env, at, list.push(e));
                Step { result: rest.result, used: next.used + 1 + rest.used }
            } else if kind_at(ts, i + next.used) == Some(TknKView::ParenR) {
                Step::done(list.push(e), next.used + 1)
            } else {
                Step::fail(StumbleKindView::MismatchedParentheses, next.used)
            }
        },
    }
}

/// `primary := NUMBER | STRING | "true" | "false" | "nil" | IDENT
/// | "(" expression ")"`; parentheses leave no trace in the tree.
pub open spec fn primary(ts: Seq<TknView>, i: nat, env: EnvView, at: EnvHandle) -> Step<ExprView>
    decreases remaining(ts, i), 8nat,
{
    match kind_at(ts, i) {
        None => Step::fail(StumbleKindView::MissingToken, 0),
        Some(TknKView::Number { literal }) => Step::done(
            ExprView::Basic(Value::Numeric { n: literal }),
            1,
        ),
        Some(TknKView::String { literal }) => Step::done(
            ExprView::Basic(Value::String { s: literal }),
            1,
        ),
        Some(TknKView::True) => Step::done(ExprView::Basic(Value::Boolean { b: true }), 1),
        Some(TknKView::False) => Step::done(ExprView::Basic(Value::Boolean { b: false }), 1),
        Some(TknKView::Nil) => Step::done(ExprView::Basic(Value::Nil), 1),
        Some(TknKView::Identifier { id }) => Step::done(
            ExprView::Identifier { id: named(env, at, id) },
            1,
        ),
        Some(TknKView::ParenL) => {
            let inner = expression_rec(ts, i + 1, env, at);
            match inner.result {
                Ok(e) => if kind_at(ts, i + 1 + inner.used) == Some(TknKView::ParenR) {
                    Step::done(e, inner.used + 2)
                } else {
                    Step::fail(StumbleKindView::MismatchedParentheses, 1 + inner.used)
                },
                Err(kind) => Step::fail(kind, 1 + inner.used),
            }
        },
        Some(found) => Step::fail(StumbleKindView::Unexpected { found }, 0),
    }
}

/// The kinds of token that decide what statement is read.
#[derive(Clone, Copy, PartialEq, Eq, Structural)]
pub enum Lead {
    Nothing,
    Var,
    Print,
    BraceL,
    BraceR,
    If,
    Loop,
    While,
    For,
    Function,
    Semicolon,
    Break,
    Return,
    Other,
}

/// What kind of statement a token starts.
pub open spec fn lead_of(kind: Option<TknKView>) -> Lead {
    match kind {
        None => Lead::Nothing,
        Some(TknKView::Var) => Lead::Var,
        Some(TknKView::Print) => Lead::Print,
        Some(TknKView::BraceL) => Lead::BraceL,
        Some(TknKView::BraceR) => Lead::BraceR,
        Some(TknKView::If) => Lead::If,
        Some(TknKView::Loop) => Lead::Loop,
        Some(TknKView::While) => Lead::While,
        Some(TknKView::For) => Lead::For,
        Some(TknKView::Function) => Lead::Function,
        Some(TknKView::Semicolon) => Lead::Semicolon,
        Some(TknKView::Break) => Lead::Break,
        Some(TknKView::Return) => Lead::Return,
        Some(_) => Lead::Other,
    }
}

/// The outcome of reading a statement: as a [`Step`], and with the
/// scopes as the statement leaves them.
pub struct Change<T> {
    pub result: Result<T, StumbleKindView>,
    pub used: nat,
    pub env: EnvView,
}

impl<T> Change<T> {
    /// A tree was read, `used` tokens were taken, and the scopes are
    /// `env`.
    pub open spec fn done(value: T, used: nat, env: EnvView) -> Change<T> {
        Change { result: Ok(value), used, env }
    }

    /// The token behind `used` tokens was refused, and the scopes are
    /// `env`.
    pub open spec fn fail(kind: StumbleKindView, used: nat, env: EnvView) -> Change<T> {
        Change { result: Err(kind), used, env }
    }

    /// The outcome with the scopes left that were entered since the
    /// table had `mark` frames.
    pub open spec fn leaving(self, mark: nat) -> Change<T> {
        Change { env: Env::released(self.env, mark), ..self }
    }

    /// The outcome with `by` more tokens taken before it.
    pub open spec fn later(self, by: nat) -> Change<T> {
        Change { used: self.used + by, ..self }
    }
}

/// A statement that ends with a semicolon at `i`: the statement where
/// the semicolon is there, `OpenStatement` where it is not. `used` is
/// how many tokens the statement itself took.
pub open spec fn closing(
    ts: Seq<TknView>,
    i: nat,
    statement: StatementView,
    used: nat,
    env: EnvView,
) -> Change<StatementView> {
    if kind_at(ts, i) == Some(TknKView::Semicolon) {
        Change::done(statement, used + 1, env)
    } else {
        Change::fail(StumbleKindView::OpenStatement, used, env)
    }
}

/// `var IDENT ("=" expression)? ";"`, which also declares the name in
/// the frame `at`, or any other statement.
pub open spec fn declaration(ts: Seq<TknView>, i: nat, env: EnvView, at: EnvHandle) -> Change<
    StatementView,
>
    decreases remaining(ts, i), 40nat,
{
    if lead_of(kind_at(ts, i)) == Lead::Var {
        variable(ts, i + 1, env, at).later(1)
    } else {
        statement(ts, i, env, at)
    }
}

/// A declaration of a variable from behind `var` on:
/// `IDENT ("=" expression)? ";"`. The name is declared, with no value
/// yet, once its initialiser has been read.
#[verifier::opaque]
pub open spec fn variable(ts: Seq<TknView>, i: nat, env: EnvView, at: EnvHandle) -> Change<
    StatementView,
> {
    match kind_at(ts, i) {
        Some(TknKView::Identifier { id }) => {
            let init = initialiser(ts, i + 1, env, at);
            match init.result {
                Err(kind) => Change::fail(kind, 1 + init.used, env),
                Ok(e) => closing(
                    ts,
                    i + 1 + init.used,
                    StatementView::Declaration { id: named(env, at, id), e },
                    1 + init.used,
                    Env::inserted(env, at, id, Value::Nil),
                ),
            }
        },
        Some(_) => Change::fail(StumbleKindView::InvalidAsignee, 0, env),
        None => Change::fail(StumbleKindView::MissingToken, 0, env),
    }
}

/// `("=" expression)?`, where nothing stands for `nil`.
pub open spec fn initialiser(ts: Seq<TknView>, i: nat, env: EnvView, at: EnvHandle) -> Step<
    ExprView,
> {
    if kind_at(ts, i) == Some(TknKView::Equal) {
        let e = expression(ts, i + 1, env, at);
        Step { result: e.result, used: 1 + e.used }
    } else {
        Step::done(ExprView::Basic(Value::Nil), 0)
    }
}

/// Any statement but a declaration of a variable.
pub open spec fn statement(ts: Seq<TknView>, i: nat, env: EnvView, at: EnvHandle) -> Change<
    StatementView,
>
    decreases remaining(ts, i), 38nat,
{
    match lead_of(kind_at(ts, i)) {
        Lead::Nothing => Change::fail(StumbleKindView::TokensExhausted, 0, env),
        Lead::Print => {
            let e = expression(ts, i + 1, env, at);
            match e.result {
                Ok(x) => closing(
                    ts,
                    i + 1 + e.used,
                    StatementView::Print { e: x },
                    1 + e.used,
                    env,
                ),
                Err(kind) => Change::fail(kind, 1 + e.used, env),
            }
        },
        Lead::BraceL => {
            let inner = block_statements(ts, i, Env::narrowed(env, at), env.len() as EnvHandle);
            (match inner.result {
                Ok(list) => Change::done(
                    StatementView::Block { statements: list },
                    inner.used,
                    inner.env,
                ),
                Err(kind) => Change::fail(kind, inner.used, inner.env),
            }).leaving(env.len())
        },
        Lead::If => conditional(ts, i, env, at),
        Lead::Loop => {
            let inner = block_statements(ts, i + 1, Env::narrowed(env, at), env.len() as EnvHandle);
            (match inner.result {
                Ok(list) => Change::done(
                    StatementView::Loop { statements: list },
                    1 + inner.used,
                    inner.env,
                ),
                Err(kind) => Change::fail(kind, 1 + inner.used, inner.env),
            }).leaving(env.len())
        },
        Lead::While => while_loop(
            ts,
            i,
            Env::narrowed(env, at),
            env.len() as EnvHandle,
        ).leaving(env.len()),
        Lead::For => for_loop(ts, i, Env::narrowed(env, at), env.len() as EnvHandle).leaving(
            env.len(),
        ),
        Lead::Function => function(ts, i, env, at),
        Lead::Semicolon => Change::done(StatementView::Empty, 1, env),
        Lead::Break => closing(ts, i + 1, StatementView::Break, 1, env),
        Lead::Return => {
            let e = expression_delimited(ts, i + 1, env, at, TknKView::Semicolon);
            match e.result {
                Ok(x) => closing(
                    ts,
                    i + 1 + e.used,
                    StatementView::Return { expr: x },
                    1 + e.used,
                    env,
                ),
                Err(kind) => Change::fail(kind, 1 + e.used, env),
            }
        },
        _ => {
            let e = expression(ts, i, env, at);
            match e.result {
                Ok(x) => closing(ts, i + e.used, StatementView::Expression { e: x }, e.used, env),
                Err(kind) => Change::fail(kind, e.used, env),
            }
        },
    }
}

/// `"{" declaration* "}"`, read in the frame `at`.
pub open spec fn block_statements(ts: Seq<TknView>, i: nat, env: EnvView, at: EnvHandle) -> Change<
    Seq<StatementView>,
>
    decreases remaining(ts, i), 36nat,
{
    if lead_of(kind_at(ts, i)) == Lead::BraceL {
        block_items(ts, i + 1, env, at, Seq::empty()).later(1)
    } else {
        Change::fail(StumbleKindView::ExpectedBlock, 0, env)
    }
}

/// The declarations of a block behind those in `list`, up to and
/// including the closing brace. A declaration that is read takes at
/// least one token; the case that it took none only serves to make it
/// plain that reading ends.
pub open spec fn block_items(
    ts: Seq<TknView>,
    i: nat,
    env: EnvView,
    at: EnvHandle,
    list: Seq<StatementView>,
) -> Change<Seq<StatementView>>
    decreases remaining(ts, i), 42nat,
{
    match lead_of(kind_at(ts, i)) {
        Lead::Nothing => Change::fail(StumbleKindView::MissingToken, 0, env),
        Lead::BraceR => Change::done(list, 1, env),
        _ => {
            let next = declaration(ts, i, env, at);
            match next.result {
                Err(kind) => Change::fail(kind, next.used, next.env),
                Ok(s) => if next.used == 0 {
                    Change::fail(StumbleKindView::Todo, 0, next.env)
                } else {
                    block_items(ts, i + next.used, next.env, at, list.push(s)).later(next.used)
                },
            }
        },
    }
}

/// `"if" "(" expression ")" declaration ("else" declaration)? ";"?`
pub open spec fn conditional(ts: Seq<TknView>, i: nat, env: EnvView, at: EnvHandle) -> Change<
    StatementView,
>
    decreases remaining(ts, i), 37nat,
{
    if kind_at(ts, i) != Some(TknKView::If) {
        Change::fail(StumbleKindView::MissingToken, 0, env)
    } else if kind_at(ts, i + 1) != Some(TknKView::ParenL) {
        Change::fail(StumbleKindView::MissingToken, 1, env)
    } else {
        let condition = expression(ts, i + 2, env, at);
        match condition.result {
            Err(kind) => Change::fail(kind, 2 + condition.used, env),
            Ok(c) => if kind_at(ts, i + 2 + condition.used) != Some(TknKView::ParenR) {
                Change::fail(StumbleKindView::MissingToken, 2 + condition.used, env)
            } else {
                branches(ts, i + 3 + condition.used, env, at, c).later(3 + condition.used)
            },
        }
    }
}

/// The branches of a conditional with the condition `c`:
/// `declaration ("else" declaration)? ";"?`
pub open spec fn branches(
    ts: Seq<TknView>,
    i: nat,
    env: EnvView,
    at: EnvHandle,
    c: ExprView,
) -> Change<StatementView>
    decreases remaining(ts, i), 43nat,
{
    let first = declaration(ts, i, env, at);
    match first.result {
        Err(kind) => Change::fail(kind, first.used, first.env),
        Ok(case_if) => {
            let second = otherwise(ts, i + first.used, first.env, at);
            match second.result {
                Err(kind) => Change::fail(kind, first.used + second.used, second.env),
                Ok(case_else) => optional_semicolon(
                    ts,
                    i,
                    Change::done(
                        StatementView::Conditional {
                            condition: c,
                            case_if: Box::new(case_if),
                            case_else: match case_else {
                                Some(s) => Some(Box::new(s)),
                                None => None,
                            },
                        },
                        first.used + second.used,
                        second.env,
                    ),
                ),
            }
        },
    }
}

/// `("else" declaration)?`
pub open spec fn otherwise(ts: Seq<TknView>, i: nat, env: EnvView, at: EnvHandle) -> Change<
    Option<StatementView>,
>
    decreases remaining(ts, i), 41nat,
{
    if kind_at(ts, i) == Some(TknKView::Else) {
        let second = declaration(ts, i + 1, env, at);
        match second.result {
            Err(kind) => Change::fail(kind, 1 + second.used, second.env),
            Ok(s) => Change::done(Some(s), 1 + second.used, second.env),
        }
    } else {
        Change::done(None, 0, env)
    }
}

/// The outcome `read` of reading from `i`, with a semicolon that
/// follows it taken too.
pub open spec fn optional_semicolon(
    ts: Seq<TknView>,
    i: nat,
    read: Change<StatementView>,
) -> Change<StatementView> {
    if kind_at(ts, i + read.used) == Some(TknKView::Semicolon) {
        read.later(1)
    } else {
        read
    }
}

/// `"while" "(" expression ")" block`, where `env` already holds the
/// loop's frame `at`: condition and body are read in that frame.
pub open spec fn while_loop(ts: Seq<TknView>, i: nat, env: EnvView, at: EnvHandle) -> Change<
    StatementView,
>
    decreases remaining(ts, i), 37nat,
{
    if kind_at(ts, i) != Some(TknKView::While) {
        Change::fail(StumbleKindView::MissingToken, 0, env)
    } else if kind_at(ts, i + 1) != Some(TknKView::ParenL) {
        Change::fail(StumbleKindView::MissingToken, 1, env)
    } else {
        let condition = expression(ts, i + 2, env, at);
        match condition.result {
            Err(kind) => Change::fail(kind, 2 + condition.used, env),
            Ok(c) => if kind_at(ts, i + 2 + condition.used) != Some(TknKView::ParenR) {
                Change::fail(StumbleKindView::MissingToken, 2 + condition.used, env)
            } else {
                let body = block_statements(ts, i + 3 + condition.used, env, at);
                match body.result {
                    Err(kind) => Change::fail(kind, 3 + condition.used + body.used, body.env),
                    Ok(list) => Change::done(
                        StatementView::While { condition: c, body: list },
                        3 + condition.used + body.used,
                        body.env,
                    ),
                }
            },
        }
    }
}

/// The loop that a `for` loop is turned into: a `while` loop whose
/// condition is `true` where none was given and whose body ends with
/// the increment, if there is one.
pub open spec fn for_round(
    condition: ExprView,
    increment: ExprView,
    body: Seq<StatementView>,
) -> StatementView {
    StatementView::While {
        condition: if condition is Empty {
            ExprView::Basic(Value::Boolean { b: true })
        } else {
            condition
        },
        body: if increment is Empty {
            body
        } else {
            body.push(StatementView::Expression { e: increment })
        },
    }
}

/// What a `for` loop is turned into: a block that holds the
/// initialiser, if there is one, and the loop.
pub open spec fn lowered_for(init: StatementView, repeat: StatementView) -> StatementView {
    StatementView::Block {
        statements: if init is Empty {
            seq![repeat]
        } else {
            seq![init, repeat]
        },
    }
}

/// `"for" "(" (declaration | ";") expression? ";" expression? ")" block`,
/// where `env` already holds the frame `at` for the initialiser. The
/// frame for condition, increment and body is made inside it once the
/// initialiser is read.
pub open spec fn for_loop(ts: Seq<TknView>, i: nat, env: EnvView, at: EnvHandle) -> Change<
    StatementView,
>
    decreases remaining(ts, i), 37nat,
{
    if kind_at(ts, i) != Some(TknKView::For) {
        Change::fail(StumbleKindView::MissingToken, 0, env)
    } else if kind_at(ts, i + 1) != Some(TknKView::ParenL) {
        Change::fail(StumbleKindView::MissingToken, 1, env)
    } else {
        let init = declaration(ts, i + 2, env, at);
        match init.result {
            Err(kind) => Change::fail(kind, 2 + init.used, init.env),
            Ok(first) => if !(first is Declaration || first is Empty) {
                Change::fail(StumbleKindView::ForInitialiser, 2 + init.used, init.env)
            } else {
                let rest = for_rest(
                    ts,
                    i + 2 + init.used,
                    Env::narrowed(init.env, at),
                    init.env.len() as EnvHandle,
                ).leaving(init.env.len());
                match rest.result {
                    Err(kind) => Change::fail(kind, 2 + init.used + rest.used, rest.env),
                    Ok(repeat) => Change::done(
                        lowered_for(first, repeat),
                        2 + init.used + rest.used,
                        rest.env,
                    ),
                }
            },
        }
    }
}

/// A `for` loop from behind its initialiser on, read in the frame `at`:
/// the loop that it is turned into.
pub open spec fn for_rest(ts: Seq<TknView>, i: nat, env: EnvView, at: EnvHandle) -> Change<
    StatementView,
>
    decreases remaining(ts, i), 35nat,
{
    let condition = expression_delimited(ts, i, env, at, TknKView::Semicolon);
    match condition.result {
        Err(kind) => Change::fail(kind, condition.used, env),
        Ok(c) => if kind_at(ts, i + condition.used) != Some(TknKView::Semicolon) {
            Change::fail(StumbleKindView::MissingToken, condition.used, env)
        } else {
            let increment = expression_delimited(
                ts,
                i + condition.used + 1,
                env,
                at,
                TknKView::ParenR,
            );
            let used = condition.used + 1 + increment.used;
            match increment.result {
                Err(kind) => Change::fail(kind, used, env),
                Ok(n) => if kind_at(ts, i + used) != Some(TknKView::ParenR) {
                    Change::fail(StumbleKindView::MissingToken, used, env)
                } else {
                    let body = block_statements(ts, i + used + 1, env, at);
                    match body.result {
                        Err(kind) => Change::fail(kind, used + 1 + body.used, body.env),
                        Ok(list) => Change::done(
                            for_round(c, n, list),
                            used + 1 + body.used,
                            body.env,
                        ),
                    }
                },
            }
        },
    }
}

/// The parameters of a function, from behind the opening parenthesis up
/// to and including the closing one.
pub open spec fn parameters(
    ts: Seq<TknView>,
    i: nat,
    env: EnvView,
    at: EnvHandle,
    list: Seq<IdentifierView>,
) -> Step<Seq<IdentifierView>>
    decreases remaining(ts, i),
{
    match kind_at(ts, i) {
        None => Step::fail(StumbleKindView::MissingToken, 0),
        Some(TknKView::ParenR) => if list.len() == 0 {
            Step::done(list, 1)
        } else {
            Step::fail(StumbleKindView::Unexpected { found: TknKView::ParenR }, 0)
        },
        Some(TknKView::Identifier { id }) => if list.len() >= MAX_ARGUMENTS {
            Step::fail(StumbleKindView::ArgLimit, 0)
        } else if kind_at(ts, i + 1) == Some(TknKView::Comma) {
            let rest = parameters(ts, i + 2, env, at, list.push(named(env, at, id)));
            Step { result: rest.result, used: 2 + rest.used }
        } else if kind_at(ts, i + 1) == Some(TknKView::ParenR) {
            Step::done(list.push(named(env, at, id)), 2)
        } else {
            Step::fail(StumbleKindView::MismatchedParentheses, 1)
        },
        Some(found) => Step::fail(StumbleKindView::Unexpected { found }, 0),
    }
}

/// The table with the names of `list` from `from` on declared in the
/// frame `at`.
pub open spec fn with_parameters(
    env: EnvView,
    at: EnvHandle,
    list: Seq<IdentifierView>,
    from: nat,
) -> EnvView
    decreases list.len() - from,
{
    if from >= list.len() {
        env
    } else {
        with_parameters(
            Env::inserted(env, at, list[from as int].name, Value::Nil),
            at,
            list,
            from + 1,
        )
    }
}

/// `"fun" IDENT "(" parameters? ")" block`. The name is declared in the
/// frame `at`; the parameters are declared in a new frame inside it, in
/// which the body is read.
pub open spec fn function(ts: Seq<TknView>, i: nat, env: EnvView, at: EnvHandle) -> Change<
    StatementView,
>
    decreases remaining(ts, i), 37nat,
{
    if kind_at(ts, i) != Some(TknKView::Function) {
        Change::fail(StumbleKindView::MissingToken, 0, env)
    } else {
        match kind_at(ts, i + 1) {
            None => Change::fail(StumbleKindView::MissingToken, 1, env),
            Some(TknKView::Identifier { id }) => if kind_at(ts, i + 2) != Some(TknKView::ParenL) {
                Change::fail(StumbleKindView::MissingToken, 2, env)
            } else {
                let heads = parameters(ts, i + 3, env, at, Seq::empty());
                match heads.result {
                    Err(kind) => Change::fail(kind, 3 + heads.used, env),
                    Ok(list) => {
                        let declared = Env::inserted(env, at, id, Value::Nil);
                        let inside = with_parameters(
                            Env::narrowed(declared, at),
                            env.len() as EnvHandle,
                            list,
                            0,
                        );
                        let body = block_statements(
                            ts,
                            i + 3 + heads.used,
                            inside,
                            env.len() as EnvHandle,
                        );
                        (match body.result {
                            Err(kind) => Change::fail(kind, 3 + heads.used + body.used, body.env),
                            Ok(statements) => Change::done(
                                StatementView::Function {
                                    id: named(env, at, id),
                                    parameters: list,
                                    body: statements,
                                },
                                3 + heads.used + body.used,
                                body.env,
                            ),
                        }).leaving(env.len())
                    },
                }
            },
            Some(found) => Change::fail(StumbleKindView::Unexpected { found }, 1, env),
        }
    }
}

/// What reading a whole program gives: the statements read, how many
/// tokens were taken, the scopes afterwards, and what stopped the
/// reading if the end of the tokens was not reached.
pub struct Program {
    pub statements: Seq<StatementView>,
    pub used: nat,
    pub env: EnvView,
    pub failure: Option<StumbleKindView>,
}

/// `declaration*` up to the end of the tokens, or up to the first
/// declaration that is refused. A declaration that is read takes at
/// least one token; the case that it took none only serves to make it
/// plain that reading ends.
pub open spec fn program(ts: Seq<TknView>, i: nat, env: EnvView, at: EnvHandle) -> Program
    decreases remaining(ts, i), 44nat,
{
    if i >= ts.len() {
        Program { statements: Seq::empty(), used: 0, env, failure: None }
    } else {
        let next = declaration(ts, i, env, at);
        match next.result {
            Err(kind) => Program {
                statements: Seq::empty(),
                used: next.used,
                env: next.env,
                failure: Some(kind),
            },
            Ok(s) => if next.used == 0 {
                Program {
                    statements: Seq::empty(),
                    used: 0,
                    env: next.env,
                    failure: Some(StumbleKindView::Todo),
                }
            } else {
                let rest = program(ts, i + next.used, next.env, at);
                Program {
                    statements: seq![s] + rest.statements,
                    used: next.used + rest.used,
                    env: rest.env,
                    failure: rest.failure,
                }
            },
        }
    }
}

/// An expression, or nothing where the expression is refused at a token
/// of the kind `delimiter`.
pub open spec fn expression_delimited(
    ts: Seq<TknView>,
    i: nat,
    env: EnvView,
    at: EnvHandle,
    delimiter: TknKView,
) -> Step<ExprView> {
    let e = expression(ts, i, env, at);
    if e.result == Err::<ExprView, StumbleKindView>(
        StumbleKindView::Unexpected { found: delimiter },
    ) {
        Step::done(ExprView::Empty, e.used)
    } else {
        e
    }
}

/// The first position at or behind `i` that holds a semicolon; the
/// number of tokens if there is none.
pub open spec fn semicolon_from(ts: Seq<TknView>, i: nat) -> nat
    decreases remaining(ts, i),
{
    if i >= ts.len() {
        ts.len()
    } else if ts[i as int].kind == TknKView::Semicolon {
        i
    } else {
        semicolon_from(ts, i + 1)
    }
}

/// The position that a diagnostic of the given kind is about, when it
/// arises at the token position `i`: the end of the text for
/// `TokensExhausted`, the token before `i` for `OpenStatement`, else
/// the token at `i`; the start of the text where there is no such
/// token.
pub open spec fn place(
    ts: Seq<TknView>,
    i: nat,
    kind: StumbleKindView,
    here: Location,
) -> Location {
    match kind {
        StumbleKindView::TokensExhausted => here,
        StumbleKindView::OpenStatement => if 1 <= i <= ts.len() {
            ts[i - 1].location
        } else {
            Location { col: 0, line: 0 }
        },
        _ => if i < ts.len() {
            ts[i as int].location
        } else {
            Location { col: 0, line: 0 }
        },
    }
}

} // verus!
