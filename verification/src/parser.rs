//! The parser: from tokens to expressions and statements, by recursive
//! descent along the grammar.

use crate::ast::{
    exprs_view, identifiers_view, statements_view, EnvHandle, Expr, ExprB, ExprView, Identifier,
    IdentifierView, OpOne, OpTwo, Statement, StatementView,
};
use crate::environment::{Env, EnvView};
use crate::err::{Stumble, StumbleKind, StumbleKindView};
use crate::grammar;
use crate::grammar::{lead_of, Change, Lead, Step, MAX_ARGUMENTS};
use crate::location::Location;
use crate::scanner::Scanner;
use crate::scoping::{
    bound, declared_by, declared_by_list, expr_bound, grown, lemma_block_is_scoped,
    lemma_declared_by_grows, lemma_declared_by_list_grows, lemma_for_round_is_scoped,
    lemma_grown_twice, lemma_leave_scope, lemma_list_scoped_push, lemma_lowered_for_is_scoped,
    lemma_conditional_is_scoped, lemma_declaration_is_scoped, lemma_function_is_scoped,
    lemma_list_scoped_step, lemma_named_is_bound, lemma_plain_is_scoped,
    lemma_resolved_is_bound, lemma_scope_is_scoped, lemma_simple_is_scoped,
    lemma_while_is_scoped, lemma_with_parameters_grows, list_scoped, names_bound, scoped,
};
use crate::token::{tokens_view, Tkn, TknK, TknKView, TknView};
use vstd::prelude::*;

verus! {

/// The parser's state: the tokens, how many of them have been read, the
/// statements read so far, and the position at which the scanned text
/// ends.
#[derive(Debug)]
pub struct Parser {
    pub tokens: Vec<Tkn>,
    pub token_index: usize,
    pub statements: Vec<Statement>,
    pub location: Location,
}

impl Default for Parser {
    fn default() -> (r: Self)
        ensures
            r.tokens@.len() == 0,
            r.token_index == 0,
            r.statements@.len() == 0,
            r.location == (Location { col: 0, line: 0 }),
            r.wf(),
    {
        Parser {
            tokens: Vec::new(),
            token_index: 0,
            statements: Vec::new(),
            location: Location::default(),
        }
    }
}

/// Declares the names of `list` in the frame `at`.
fn declare_all(env: &mut Env, at: EnvHandle, list: &Vec<Identifier>)
    requires
        old(env).wf(),
        at < old(env)@.len(),
    ensures
        final(env)@ == grammar::with_parameters(old(env)@, at, identifiers_view(*list), 0),
        final(env).wf(),
        final(env)@.len() == old(env)@.len(),
{
    let mut i: usize = 0;
    while i < list.len()
        invariant
            i <= list.len(),
            env.wf(),
            at < env@.len(),
            env@.len() == old(env)@.len(),
            grammar::with_parameters(env@, at, identifiers_view(*list), i as nat)
                == grammar::with_parameters(old(env)@, at, identifiers_view(*list), 0),
        decreases list.len() - i,
    {
        env.insert(at, &list[i].name, ExprB::mk_nil());
        i += 1;
    }
}

/// The list with one more statement at its end.
fn with_statement(list: Vec<Statement>, s: Statement) -> (r: Vec<Statement>)
    ensures
        statements_view(r) == statements_view(list).push(s@),
{
    let mut list = list;
    let ghost earlier = statements_view(list);
    list.push(s);
    assert(statements_view(list) =~= earlier.push(s@));
    list
}

/// Builds the loop that a `for` loop is turned into.
fn for_round(condition: Expr, increment: Expr, body: Vec<Statement>) -> (r: Statement)
    ensures
        r@ == grammar::for_round(condition@, increment@, statements_view(body)),
{
    let test = match condition {
        Expr::Empty => Expr::mk_true(),
        other => other,
    };
    let round = match increment {
        Expr::Empty => body,
        other => with_statement(body, Statement::mk_expression(other)),
    };
    Statement::mk_while(test, round)
}

/// Builds what a `for` loop is turned into.
fn lower_for(init: Statement, repeat: Statement) -> (r: Statement)
    ensures
        r@ == grammar::lowered_for(init@, repeat@),
{
    let mut block: Vec<Statement> = Vec::new();
    match init {
        Statement::Empty => {
            block.push(repeat);
            assert(statements_view(block) =~= seq![repeat@]);
        },
        other => {
            block.push(other);
            block.push(repeat);
            assert(statements_view(block) =~= seq![other@, repeat@]);
        },
    }
    Statement::mk_block(block)
}

/// The test for equality that a token stands for.
fn equality_op_of(kind: &TknK) -> (r: Option<OpTwo>)
    ensures
        r == grammar::equality_op(kind@),
{
    match kind {
        TknK::EqualEqual => Some(OpTwo::Eq),
        TknK::BangEqual => Some(OpTwo::Neq),
        _ => None,
    }
}

/// The comparison that a token stands for.
fn comparison_op_of(kind: &TknK) -> (r: Option<OpTwo>)
    ensures
        r == grammar::comparison_op(kind@),
{
    match kind {
        TknK::Greater => Some(OpTwo::Gt),
        TknK::GreaterEqual => Some(OpTwo::Geq),
        TknK::Less => Some(OpTwo::Lt),
        TknK::LessEqual => Some(OpTwo::Leq),
        _ => None,
    }
}

/// The addition or subtraction that a token stands for.
fn term_op_of(kind: &TknK) -> (r: Option<OpTwo>)
    ensures
        r == grammar::term_op(kind@),
{
    match kind {
        TknK::Minus => Some(OpTwo::Minus),
        TknK::Plus => Some(OpTwo::Plus),
        _ => None,
    }
}

/// The multiplication or division that a token stands for.
fn factor_op_of(kind: &TknK) -> (r: Option<OpTwo>)
    ensures
        r == grammar::factor_op(kind@),
{
    match kind {
        TknK::Slash => Some(OpTwo::Slash),
        TknK::Star => Some(OpTwo::Star),
        _ => None,
    }
}

/// The operator with one operand that a token stands for.
fn unary_op_of(kind: &TknK) -> (r: Option<OpOne>)
    ensures
        r == grammar::unary_op(kind@),
{
    match kind {
        TknK::Bang => Some(OpOne::Bang),
        TknK::Minus => Some(OpOne::Minus),
        _ => None,
    }
}

impl Parser {
    /// No more tokens have been read than there are.
    pub open spec fn wf(&self) -> bool {
        self.token_index <= self.tokens.len()
    }

    /// The tokens, as contracts speak of them.
    pub open spec fn ts(&self) -> Seq<TknView> {
        tokens_view(self.tokens)
    }

    /// The position in the tokens, as contracts speak of it.
    pub open spec fn at(&self) -> nat {
        self.token_index as nat
    }

    /// The parser is as `before`, but for `used` more tokens read.
    pub open spec fn moved(&self, before: &Parser, used: nat) -> bool {
        &&& self.tokens == before.tokens
        &&& self.statements == before.statements
        &&& self.location == before.location
        &&& self.token_index == before.token_index + used
        &&& self.wf()
    }

    /// The parser went from `before` to `self` as `step` says, and `r`
    /// is what `step` gives.
    pub open spec fn read(
        &self,
        before: &Parser,
        step: Step<ExprView>,
        r: Result<Expr, StumbleKind>,
    ) -> bool {
        &&& self.moved(before, step.used)
        &&& match r {
            Ok(e) => step.result == Ok::<ExprView, StumbleKindView>(e@),
            Err(kind) => step.result == Err::<ExprView, StumbleKindView>(kind@),
        }
    }

    /// The same for a list of expressions.
    pub open spec fn read_list(
        &self,
        before: &Parser,
        step: Step<Seq<ExprView>>,
        r: Result<Vec<Expr>, StumbleKind>,
    ) -> bool {
        &&& self.moved(before, step.used)
        &&& match r {
            Ok(list) => step.result == Ok::<Seq<ExprView>, StumbleKindView>(exprs_view(list)),
            Err(kind) => step.result == Err::<Seq<ExprView>, StumbleKindView>(kind@),
        }
    }

    /// The token at the current position.
    pub fn token(&self) -> (r: Option<&Tkn>)
        requires
            self.wf(),
        ensures
            r is Some == (self.token_index < self.tokens.len()),
            r is Some ==> *r->0 == self.tokens[self.token_index as int],
    {
        if self.token_index < self.tokens.len() {
            Some(&self.tokens[self.token_index])
        } else {
            None
        }
    }

    /// The kind of the token at the current position.
    pub fn token_kind(&self) -> (r: Option<&TknK>)
        requires
            self.wf(),
        ensures
            r is Some == (grammar::kind_at(self.ts(), self.at()) is Some),
            r is Some ==> r->0@ == grammar::kind_at(self.ts(), self.at())->0,
            r is Some ==> *r->0 == self.tokens[self.token_index as int].kind,
    {
        if self.token_index < self.tokens.len() {
            Some(&self.tokens[self.token_index].kind)
        } else {
            None
        }
    }

    /// The token `ahead` places behind the current position.
    pub fn token_ahead(&self, ahead: usize) -> (r: Option<&Tkn>)
        requires
            self.wf(),
        ensures
            r is Some == (self.token_index + ahead < self.tokens.len()),
            r is Some ==> *r->0 == self.tokens[self.token_index + ahead],
    {
        if ahead < self.tokens.len() - self.token_index {
            Some(&self.tokens[self.token_index + ahead])
        } else {
            None
        }
    }

    /// The kind of the token `ahead` places behind the current position.
    pub fn token_kind_ahead(&self, ahead: usize) -> (r: Option<&TknK>)
        requires
            self.wf(),
        ensures
            r is Some == (grammar::kind_at(self.ts(), self.at() + ahead as nat) is Some),
            r is Some ==> r->0@ == grammar::kind_at(self.ts(), self.at() + ahead as nat)->0,
    {
        if ahead < self.tokens.len() - self.token_index {
            Some(&self.tokens[self.token_index + ahead].kind)
        } else {
            None
        }
    }

    /// Moves behind the current token.
    fn skip(&mut self)
        requires
            old(self).token_index < old(self).tokens.len(),
        ensures
            final(self).moved(old(self), 1),
    {
        self.token_index += 1;
    }

    /// `primary := NUMBER | STRING | "true" | "false" | "nil" | IDENT
    /// | "(" expression ")"`. A name is annotated with the number of
    /// enclosing frames between `at` and the nearest frame that binds
    /// it; `env` is only looked at.
    #[verifier::spinoff_prover]
    pub fn primary(&mut self, env: &Env, at: EnvHandle) -> (r: Result<Expr, StumbleKind>)
        requires
            old(self).wf(),
            env.wf(),
        ensures
            final(self).read(
                old(self),
                grammar::primary(old(self).ts(), old(self).at(), env@, at),
                r,
            ),
            r is Ok ==> grammar::resolved(r->Ok_0@, env@, at),
            r is Ok ==> final(self).token_index > old(self).token_index,
        decreases old(self).tokens.len() - old(self).token_index, 8nat,
    {
        if self.token_index >= self.tokens.len() {
            return Err(StumbleKind::MissingToken);
        }
        let found = match &self.tokens[self.token_index].kind {
            TknK::Number { literal } => Expr::mk_numeric(*literal),
            TknK::String { literal } => Expr::mk_string(literal.clone()),
            TknK::True => Expr::mk_true(),
            TknK::False => Expr::mk_false(),
            TknK::Nil => Expr::mk_nil(),
            TknK::Identifier { id } => Expr::mk_identifier(id.clone(), env.offset(at, id)),
            TknK::ParenL => {
                self.skip();
                let inner = match self.expression_inner(env, at) {
                    Ok(e) => e,
                    Err(kind) => {
                        return Err(kind);
                    },
                };
                match self.token_kind() {
                    Some(TknK::ParenR) => {},
                    _ => {
                        return Err(StumbleKind::MismatchedParentheses);
                    },
                }
                inner
            },
            other => {
                return Err(StumbleKind::Unexpected { found: other.duplicate() });
            },
        };
        self.skip();
        Ok(found)
    }

    /// One more argument behind those in `list`, and what follows it.
    #[verifier::spinoff_prover]
    fn more_arguments(&mut self, env: &Env, at: EnvHandle, list: Vec<Expr>) -> (r: Result<
        Vec<Expr>,
        StumbleKind,
    >)
        requires
            grammar::all_resolved(exprs_view(list), env@, at),
            old(self).wf(),
            env.wf(),
        ensures
            final(self).read_list(
                old(self),
                grammar::more_arguments(old(self).ts(), old(self).at(), env@, at, exprs_view(list)),
                r,
            ),
            r is Ok ==> grammar::all_resolved(exprs_view(r->Ok_0), env@, at),
            r is Ok ==> final(self).token_index > old(self).token_index,
        decreases old(self).tokens.len() - old(self).token_index, 32nat,
    {
        let next = match self.expression_inner(env, at) {
            Ok(e) => e,
            Err(kind) => {
                return Err(kind);
            },
        };
        if list.len() >= MAX_ARGUMENTS {
            return Err(StumbleKind::ArgLimit);
        }
        let mut list = list;
        let ghost before = exprs_view(list);
        list.push(next);
        assert(exprs_view(list) =~= before.push(next@));
        match self.token_kind() {
            Some(TknK::Comma) => {
                self.skip();
                self.more_arguments(env, at, list)
            },
            Some(TknK::ParenR) => {
                self.skip();
                Ok(list)
            },
            _ => Err(StumbleKind::MismatchedParentheses),
        }
    }

    /// The arguments of a call, up to and including the closing
    /// parenthesis.
    fn arguments(&mut self, env: &Env, at: EnvHandle) -> (r: Result<Vec<Expr>, StumbleKind>)
        requires
            old(self).wf(),
            env.wf(),
        ensures
            final(self).read_list(
                old(self),
                grammar::arguments(old(self).ts(), old(self).at(), env@, at),
                r,
            ),
            r is Ok ==> grammar::all_resolved(exprs_view(r->Ok_0), env@, at),
            r is Ok ==> final(self).token_index > old(self).token_index,
        decreases old(self).tokens.len() - old(self).token_index, 33nat,
    {
        let list: Vec<Expr> = Vec::new();
        assert(exprs_view(list) =~= Seq::empty());
        match self.token_kind() {
            Some(TknK::ParenR) => {
                self.skip();
                Ok(list)
            },
            _ => self.more_arguments(env, at, list),
        }
    }

    /// Any argument lists behind what was read as `callee`.
    fn call_tail(&mut self, env: &Env, at: EnvHandle, callee: Expr) -> (r: Result<
        Expr,
        StumbleKind,
    >)
        requires
            grammar::resolved(callee@, env@, at),
            old(self).wf(),
            env.wf(),
        ensures
            final(self).read(
                old(self),
                grammar::call_tail(old(self).ts(), old(self).at(), env@, at, callee@),
                r,
            ),
            r is Ok ==> grammar::resolved(r->Ok_0@, env@, at),
        decreases old(self).tokens.len() - old(self).token_index, 11nat,
    {
        match self.token_kind() {
            Some(TknK::ParenL) => {
                self.skip();
                match self.arguments(env, at) {
                    Ok(list) => self.call_tail(env, at, Expr::mk_call(callee, list)),
                    Err(kind) => Err(kind),
                }
            },
            _ => Ok(callee),
        }
    }

    /// Reads a call: `call := primary ("(" arguments? ")")*`.
    pub fn call(&mut self, env: &Env, at: EnvHandle) -> (r: Result<Expr, StumbleKind>)
        requires
            old(self).wf(),
            env.wf(),
        ensures
            final(self).read(old(self), grammar::call(old(self).ts(), old(self).at(), env@, at), r),
            r is Ok ==> grammar::resolved(r->Ok_0@, env@, at),
            r is Ok ==> final(self).token_index > old(self).token_index,
        decreases old(self).tokens.len() - old(self).token_index, 12nat,
    {
        match self.primary(env, at) {
            Ok(callee) => self.call_tail(env, at, callee),
            Err(kind) => Err(kind),
        }
    }

    /// `unary := ("!" | "-") unary | call`
    fn unary(&mut self, env: &Env, at: EnvHandle) -> (r: Result<Expr, StumbleKind>)
        requires
            old(self).wf(),
            env.wf(),
        ensures
            final(self).read(
                old(self),
                grammar::unary(old(self).ts(), old(self).at(), env@, at),
                r,
            ),
            r is Ok ==> grammar::resolved(r->Ok_0@, env@, at),
            r is Ok ==> final(self).token_index > old(self).token_index,
        decreases old(self).tokens.len() - old(self).token_index, 14nat,
    {
        let op = match self.token_kind() {
            None => {
                return Err(StumbleKind::MissingToken);
            },
            Some(kind) => unary_op_of(kind),
        };
        match op {
            Some(op) => {
                self.skip();
                match self.unary(env, at) {
                    Ok(e) => Ok(Expr::mk_unary(op, e)),
                    Err(kind) => Err(kind),
                }
            },
            None => self.call(env, at),
        }
    }

    /// `factor := unary (("*" | "/") factor)?`
    fn factor(&mut self, env: &Env, at: EnvHandle) -> (r: Result<Expr, StumbleKind>)
        requires
            old(self).wf(),
            env.wf(),
        ensures
            final(self).read(
                old(self),
                grammar::factor(old(self).ts(), old(self).at(), env@, at),
                r,
            ),
            r is Ok ==> grammar::resolved(r->Ok_0@, env@, at),
            r is Ok ==> final(self).token_index > old(self).token_index,
        decreases old(self).tokens.len() - old(self).token_index, 16nat,
    {
        let left = match self.unary(env, at) {
            Ok(e) => e,
            Err(kind) => {
                return Err(kind);
            },
        };
        let op = match self.token_kind() {
            Some(kind) => factor_op_of(kind),
            None => None,
        };
        match op {
            Some(op) => {
                self.skip();
                match self.factor(env, at) {
                    Ok(right) => Ok(Expr::mk_binary(op, left, right)),
                    Err(kind) => Err(kind),
                }
            },
            None => Ok(left),
        }
    }

    /// `term := factor (("+" | "-") term)?`
    fn term(&mut self, env: &Env, at: EnvHandle) -> (r: Result<Expr, StumbleKind>)
        requires
            old(self).wf(),
            env.wf(),
        ensures
            final(self).read(old(self), grammar::term(old(self).ts(), old(self).at(), env@, at), r),
            r is Ok ==> grammar::resolved(r->Ok_0@, env@, at),
            r is Ok ==> final(self).token_index > old(self).token_index,
        decreases old(self).tokens.len() - old(self).token_index, 18nat,
    {
        let left = match self.factor(env, at) {
            Ok(e) => e,
            Err(kind) => {
                return Err(kind);
            },
        };
        let op = match self.token_kind() {
            Some(kind) => term_op_of(kind),
            None => None,
        };
        match op {
            Some(op) => {
                self.skip();
                match self.term(env, at) {
                    Ok(right) => Ok(Expr::mk_binary(op, left, right)),
                    Err(kind) => Err(kind),
                }
            },
            None => Ok(left),
        }
    }

    /// Reads a comparison:
    /// `comparison := term ((">" | ">=" | "<" | "<=") comparison)?`.
    pub fn comparison(&mut self, env: &Env, at: EnvHandle) -> (r: Result<Expr, StumbleKind>)
        requires
            old(self).wf(),
            env.wf(),
        ensures
            final(self).read(
                old(self),
                grammar::comparison(old(self).ts(), old(self).at(), env@, at),
                r,
            ),
            r is Ok ==> grammar::resolved(r->Ok_0@, env@, at),
            r is Ok ==> final(self).token_index > old(self).token_index,
        decreases old(self).tokens.len() - old(self).token_index, 20nat,
    {
        let left = match self.term(env, at) {
            Ok(e) => e,
            Err(kind) => {
                return Err(kind);
            },
        };
        let op = match self.token_kind() {
            Some(kind) => comparison_op_of(kind),
            None => None,
        };
        match op {
            Some(op) => {
                self.skip();
                match self.comparison(env, at) {
                    Ok(right) => Ok(Expr::mk_binary(op, left, right)),
                    Err(kind) => Err(kind),
                }
            },
            None => Ok(left),
        }
    }

    /// Any further operands of `==` and `!=` behind what was read as
    /// `left`.
    fn equality_tail(&mut self, env: &Env, at: EnvHandle, left: Expr) -> (r: Result<
        Expr,
        StumbleKind,
    >)
        requires
            grammar::resolved(left@, env@, at),
            old(self).wf(),
            env.wf(),
        ensures
            final(self).read(
                old(self),
                grammar::equality_tail(old(self).ts(), old(self).at(), env@, at, left@),
                r,
            ),
            r is Ok ==> grammar::resolved(r->Ok_0@, env@, at),
        decreases old(self).tokens.len() - old(self).token_index, 21nat,
    {
        let op = match self.token_kind() {
            Some(kind) => equality_op_of(kind),
            None => None,
        };
        match op {
            Some(op) => {
                self.skip();
                match self.comparison(env, at) {
                    Ok(right) => self.equality_tail(env, at, Expr::mk_binary(op, left, right)),
                    Err(kind) => Err(kind),
                }
            },
            None => Ok(left),
        }
    }

    /// `equality := comparison (("==" | "!=") comparison)*`
    fn equality(&mut self, env: &Env, at: EnvHandle) -> (r: Result<Expr, StumbleKind>)
        requires
            old(self).wf(),
            env.wf(),
        ensures
            final(self).read(
                old(self),
                grammar::equality(old(self).ts(), old(self).at(), env@, at),
                r,
            ),
            r is Ok ==> grammar::resolved(r->Ok_0@, env@, at),
            r is Ok ==> final(self).token_index > old(self).token_index,
        decreases old(self).tokens.len() - old(self).token_index, 22nat,
    {
        match self.comparison(env, at) {
            Ok(left) => self.equality_tail(env, at, left),
            Err(kind) => Err(kind),
        }
    }

    /// Any further `and` operands behind what was read as `left`.
    fn and_tail(&mut self, env: &Env, at: EnvHandle, left: Expr) -> (r: Result<Expr, StumbleKind>)
        requires
            grammar::resolved(left@, env@, at),
            old(self).wf(),
            env.wf(),
        ensures
            final(self).read(
                old(self),
                grammar::and_tail(old(self).ts(), old(self).at(), env@, at, left@),
                r,
            ),
            r is Ok ==> grammar::resolved(r->Ok_0@, env@, at),
        decreases old(self).tokens.len() - old(self).token_index, 23nat,
    {
        match self.token_kind() {
            Some(TknK::And) => {
                self.skip();
                match self.equality(env, at) {
                    Ok(right) => self.and_tail(env, at, Expr::mk_and(left, right)),
                    Err(kind) => Err(kind),
                }
            },
            _ => Ok(left),
        }
    }

    /// `logic_and := equality ("and" equality)*`
    fn logic_and(&mut self, env: &Env, at: EnvHandle) -> (r: Result<Expr, StumbleKind>)
        requires
            old(self).wf(),
            env.wf(),
        ensures
            final(self).read(
                old(self),
                grammar::logic_and(old(self).ts(), old(self).at(), env@, at),
                r,
            ),
            r is Ok ==> grammar::resolved(r->Ok_0@, env@, at),
            r is Ok ==> final(self).token_index > old(self).token_index,
        decreases old(self).tokens.len() - old(self).token_index, 24nat,
    {
        match self.equality(env, at) {
            Ok(left) => self.and_tail(env, at, left),
            Err(kind) => Err(kind),
        }
    }

    /// Any further `or` operands behind what was read as `left`.
    fn or_tail(&mut self, env: &Env, at: EnvHandle, left: Expr) -> (r: Result<Expr, StumbleKind>)
        requires
            grammar::resolved(left@, env@, at),
            old(self).wf(),
            env.wf(),
        ensures
            final(self).read(
                old(self),
                grammar::or_tail(old(self).ts(), old(self).at(), env@, at, left@),
                r,
            ),
            r is Ok ==> grammar::resolved(r->Ok_0@, env@, at),
        decreases old(self).tokens.len() - old(self).token_index, 25nat,
    {
        match self.token_kind() {
            Some(TknK::Or) => {
                self.skip();
                match self.logic_and(env, at) {
                    Ok(right) => self.or_tail(env, at, Expr::mk_or(left, right)),
                    Err(kind) => Err(kind),
                }
            },
            _ => Ok(left),
        }
    }

    /// `logic_or := logic_and ("or" logic_and)*`
    fn logic_or(&mut self, env: &Env, at: EnvHandle) -> (r: Result<Expr, StumbleKind>)
        requires
            old(self).wf(),
            env.wf(),
        ensures
            final(self).read(
                old(self),
                grammar::logic_or(old(self).ts(), old(self).at(), env@, at),
                r,
            ),
            r is Ok ==> grammar::resolved(r->Ok_0@, env@, at),
            r is Ok ==> final(self).token_index > old(self).token_index,
        decreases old(self).tokens.len() - old(self).token_index, 26nat,
    {
        match self.logic_and(env, at) {
            Ok(left) => self.or_tail(env, at, left),
            Err(kind) => Err(kind),
        }
    }

    /// `assignment := IDENT "=" assignment | logic_or`
    fn assignment(&mut self, env: &Env, at: EnvHandle) -> (r: Result<Expr, StumbleKind>)
        requires
            old(self).wf(),
            env.wf(),
        ensures
            final(self).read(
                old(self),
                grammar::assignment(old(self).ts(), old(self).at(), env@, at),
                r,
            ),
            r is Ok ==> grammar::resolved(r->Ok_0@, env@, at),
            r is Ok ==> final(self).token_index > old(self).token_index,
        decreases old(self).tokens.len() - old(self).token_index, 28nat,
    {
        let target = match (self.token_kind(), self.token_kind_ahead(1)) {
            (Some(TknK::Identifier { id }), Some(TknK::Equal)) => Some(
                Expr::mk_identifier(id.clone(), env.offset(at, id)),
            ),
            _ => None,
        };
        match target {
            Some(id) => {
                assert(grammar::resolved(id@, env@, at));
                self.skip();
                self.skip();
                match self.assignment(env, at) {
                    Ok(value) => Ok(Expr::mk_assignment(id, value)),
                    Err(kind) => Err(kind),
                }
            },
            None => self.logic_or(env, at),
        }
    }

    /// The parser went from `before` to `self` and the scopes to `env`
    /// as `step` says, and `r` is what `step` gives.
    pub open spec fn wrote(
        &self,
        before: &Parser,
        step: Change<StatementView>,
        r: Result<Statement, StumbleKind>,
        env: EnvView,
    ) -> bool {
        &&& self.moved(before, step.used)
        &&& env == step.env
        &&& match r {
            Ok(s) => step.result == Ok::<StatementView, StumbleKindView>(s@),
            Err(kind) => step.result == Err::<StatementView, StumbleKindView>(kind@),
        }
    }

    /// The same for a list of statements.
    pub open spec fn wrote_list(
        &self,
        before: &Parser,
        step: Change<Seq<StatementView>>,
        r: Result<Vec<Statement>, StumbleKind>,
        env: EnvView,
    ) -> bool {
        &&& self.moved(before, step.used)
        &&& env == step.env
        &&& match r {
            Ok(list) => step.result == Ok::<Seq<StatementView>, StumbleKindView>(
                statements_view(list),
            ),
            Err(kind) => step.result == Err::<Seq<StatementView>, StumbleKindView>(kind@),
        }
    }

    /// Takes the semicolon that ends a statement.
    fn close_statement(&mut self) -> (r: Result<(), StumbleKind>)
        requires
            old(self).wf(),
        ensures
            grammar::kind_at(old(self).ts(), old(self).at()) == Some(TknKView::Semicolon) ==> r
                is Ok && final(self).moved(old(self), 1),
            grammar::kind_at(old(self).ts(), old(self).at()) != Some(TknKView::Semicolon) ==> r
                is Err && r->Err_0@ == StumbleKindView::OpenStatement && final(self).moved(
                old(self),
                0,
            ),
    {
        match self.token_kind() {
            Some(TknK::Semicolon) => {
                self.skip();
                Ok(())
            },
            _ => Err(StumbleKind::OpenStatement),
        }
    }

    /// Takes a semicolon if one stands at the current position.
    fn optional_semicolon(&mut self)
        requires
            old(self).wf(),
        ensures
            final(self).moved(
                old(self),
                if grammar::kind_at(old(self).ts(), old(self).at()) == Some(TknKView::Semicolon) {
                    1nat
                } else {
                    0nat
                },
            ),
    {
        match self.token_kind() {
            Some(TknK::Semicolon) => {
                self.skip();
            },
            _ => {},
        }
    }

    /// Takes a token of the given kind.
    fn consume(&mut self, check: &TknK) -> (r: Result<(), StumbleKind>)
        requires
            old(self).wf(),
        ensures
            grammar::kind_at(old(self).ts(), old(self).at()) == Some(check@) ==> r is Ok
                && final(self).moved(old(self), 1),
            grammar::kind_at(old(self).ts(), old(self).at()) != Some(check@) ==> r is Err
                && r->Err_0@ == StumbleKindView::MissingToken && final(self).moved(old(self), 0),
    {
        match self.token_kind() {
            Some(kind) => {
                if kind.same(check) {
                    self.skip();
                    Ok(())
                } else {
                    Err(StumbleKind::MissingToken)
                }
            },
            None => Err(StumbleKind::MissingToken),
        }
    }

    /// What kind of statement starts at the current position.
    fn lead(&self) -> (r: Lead)
        requires
            self.wf(),
        ensures
            r == lead_of(grammar::kind_at(self.ts(), self.at())),
    {
        match self.token_kind() {
            None => Lead::Nothing,
            Some(TknK::Var) => Lead::Var,
            Some(TknK::Print) => Lead::Print,
            Some(TknK::BraceL) => Lead::BraceL,
            Some(TknK::BraceR) => Lead::BraceR,
            Some(TknK::If) => Lead::If,
            Some(TknK::Loop) => Lead::Loop,
            Some(TknK::While) => Lead::While,
            Some(TknK::For) => Lead::For,
            Some(TknK::Function) => Lead::Function,
            Some(TknK::Semicolon) => Lead::Semicolon,
            Some(TknK::Break) => Lead::Break,
            Some(TknK::Return) => Lead::Return,
            Some(_) => Lead::Other,
        }
    }

    /// Reads a declaration:
    /// `declaration := "var" IDENT ("=" expression)? ";" | statement`.
    /// What it declares is bound in the frame `at` of `env`, so that
    /// what is read behind it finds it there.
    #[verifier::spinoff_prover]
    pub fn declaration(&mut self, env: &mut Env, at: EnvHandle) -> (r: Result<Statement, StumbleKind>)
        requires
            old(self).wf(),
            old(env).wf(),
            at < old(env)@.len(),
        ensures
            final(self).wrote(
                old(self),
                grammar::declaration(old(self).ts(), old(self).at(), old(env)@, at),
                r,
                final(env)@,
            ),
            final(env).wf(),
            final(env)@.len() >= old(env)@.len(),
            r is Ok ==> final(self).token_index > old(self).token_index,
            r is Ok ==> scoped(r->Ok_0@, old(env)@, at),
            r is Ok ==> final(env)@ == declared_by(r->Ok_0@, old(env)@, at),
        decreases old(self).tokens.len() - old(self).token_index, 40nat,
    {
        match self.lead() {
            Lead::Var => {
                self.skip();
                self.variable(env, at)
            },
            _ => self.statement(env, at),
        }
    }

    /// `("=" expression)?`
    fn initialiser(&mut self, env: &Env, at: EnvHandle) -> (r: Result<Expr, StumbleKind>)
        requires
            old(self).wf(),
            env.wf(),
        ensures
            final(self).read(
                old(self),
                grammar::initialiser(old(self).ts(), old(self).at(), env@, at),
                r,
            ),
            r is Ok ==> grammar::resolved(r->Ok_0@, env@, at),
    {
        match self.token_kind() {
            Some(TknK::Equal) => {
                self.skip();
                self.expression_at(env, at)
            },
            _ => Ok(Expr::mk_nil()),
        }
    }

    /// A declaration of a variable from behind `var` on.
    #[verifier::spinoff_prover]
    fn variable(&mut self, env: &mut Env, at: EnvHandle) -> (r: Result<Statement, StumbleKind>)
        requires
            old(self).wf(),
            old(env).wf(),
            at < old(env)@.len(),
        ensures
            final(self).wrote(
                old(self),
                grammar::variable(old(self).ts(), old(self).at(), old(env)@, at),
                r,
                final(env)@,
            ),
            final(env).wf(),
            final(env)@.len() >= old(env)@.len(),
            r is Ok ==> final(self).token_index > old(self).token_index,
            r is Ok ==> scoped(r->Ok_0@, old(env)@, at),
            r is Ok ==> final(env)@ == declared_by(r->Ok_0@, old(env)@, at),
    {
        proof {
            reveal(grammar::variable);
        }
        let id = match self.token_kind() {
            Some(TknK::Identifier { id }) => Identifier::fresh(id.clone(), env.offset(at, id)),
            Some(_) => {
                return Err(StumbleKind::InvalidAsignee);
            },
            None => {
                return Err(StumbleKind::MissingToken);
            },
        };
        self.skip();
        let init = match self.initialiser(env, at) {
            Ok(e) => e,
            Err(kind) => {
                return Err(kind);
            },
        };
        proof {
            lemma_named_is_bound(id@.name, env@, at);
            lemma_resolved_is_bound(init@, env@, at);
            lemma_declaration_is_scoped(id@, init@, env@, at);
        }
        env.insert(at, &id.name, ExprB::mk_nil());
        match self.close_statement() {
            Ok(()) => Ok(Statement::mk_declaration(id, init)),
            Err(kind) => Err(kind),
        }
    }

    /// Reads any statement but a declaration of a variable. A function
    /// is bound in the frame `at` of `env`; the frames that blocks, loops
    /// and function bodies are read in are left again.
    #[verifier::spinoff_prover]
    pub fn statement(&mut self, env: &mut Env, at: EnvHandle) -> (r: Result<Statement, StumbleKind>)
        requires
            old(self).wf(),
            old(env).wf(),
            at < old(env)@.len(),
        ensures
            final(self).wrote(
                old(self),
                grammar::statement(old(self).ts(), old(self).at(), old(env)@, at),
                r,
                final(env)@,
            ),
            final(env).wf(),
            final(env)@.len() >= old(env)@.len(),
            r is Ok ==> final(self).token_index > old(self).token_index,
            r is Ok ==> scoped(r->Ok_0@, old(env)@, at),
            r is Ok ==> final(env)@ == declared_by(r->Ok_0@, old(env)@, at),
        decreases old(self).tokens.len() - old(self).token_index, 39nat,
    {
        match self.lead() {
            Lead::Nothing => Err(StumbleKind::TokensExhausted),
            Lead::BraceL => self.block(env, at),
            Lead::Loop => self.block(env, at),
            Lead::If => self.conditional(env, at),
            Lead::While => self.while_statement(env, at),
            Lead::For => self.for_statement(env, at),
            Lead::Function => self.function(env, at),
            Lead::Semicolon => {
                self.skip();
                proof {
                    lemma_plain_is_scoped(env@, at);
                }
                Ok(Statement::Empty)
            },
            _ => self.simple(env, at),
        }
    }

    /// A statement that stays in the scopes that it is read in: `print`,
    /// `break`, `return`, and an expression.
    #[verifier::spinoff_prover]
    fn simple(&mut self, env: &Env, at: EnvHandle) -> (r: Result<Statement, StumbleKind>)
        requires
            old(self).wf(),
            env.wf(),
            at < env@.len(),
            ({
                let lead = lead_of(grammar::kind_at(old(self).ts(), old(self).at()));
                lead is Print || lead is Break || lead is Return || lead is Var || lead is BraceR
                    || lead is Other
            }),
        ensures
            final(self).wrote(
                old(self),
                grammar::statement(old(self).ts(), old(self).at(), env@, at),
                r,
                env@,
            ),
            r is Ok ==> final(self).token_index > old(self).token_index,
            r is Ok ==> scoped(r->Ok_0@, env@, at),
            r is Ok ==> env@ == declared_by(r->Ok_0@, env@, at),
    {
        match self.lead() {
            Lead::Print => {
                self.skip();
                match self.expression_at(env, at) {
                    Ok(e) => match self.close_statement() {
                        Ok(()) => {
                            proof {
                                lemma_resolved_is_bound(e@, env@, at);
                                lemma_simple_is_scoped(e@, env@, at);
                            }
                            Ok(Statement::mk_print(e))
                        },
                        Err(kind) => Err(kind),
                    },
                    Err(kind) => Err(kind),
                }
            },
            Lead::Break => {
                self.skip();
                proof {
                    lemma_plain_is_scoped(env@, at);
                }
                match self.close_statement() {
                    Ok(()) => Ok(Statement::Break),
                    Err(kind) => Err(kind),
                }
            },
            Lead::Return => {
                self.skip();
                match self.delimited(env, at, &TknK::Semicolon) {
                    Ok(e) => match self.close_statement() {
                        Ok(()) => {
                            proof {
                                lemma_resolved_is_bound(e@, env@, at);
                                lemma_simple_is_scoped(e@, env@, at);
                            }
                            Ok(Statement::Return { expr: e })
                        },
                        Err(kind) => Err(kind),
                    },
                    Err(kind) => Err(kind),
                }
            },
            _ => match self.expression_at(env, at) {
                Ok(e) => match self.close_statement() {
                    Ok(()) => {
                        proof {
                            lemma_resolved_is_bound(e@, env@, at);
                            lemma_simple_is_scoped(e@, env@, at);
                        }
                        Ok(Statement::mk_expression(e))
                    },
                    Err(kind) => Err(kind),
                },
                Err(kind) => Err(kind),
            },
        }
    }

    /// A block, or a `loop` with its block: the statements are read in
    /// a frame of their own.
    #[verifier::spinoff_prover]
    fn block(&mut self, env: &mut Env, at: EnvHandle) -> (r: Result<Statement, StumbleKind>)
        requires
            old(self).wf(),
            old(env).wf(),
            at < old(env)@.len(),
            ({
                let lead = lead_of(grammar::kind_at(old(self).ts(), old(self).at()));
                lead is BraceL || lead is Loop
            }),
        ensures
            final(self).wrote(
                old(self),
                grammar::statement(old(self).ts(), old(self).at(), old(env)@, at),
                r,
                final(env)@,
            ),
            final(env).wf(),
            final(env)@.len() >= old(env)@.len(),
            r is Ok ==> final(self).token_index > old(self).token_index,
            r is Ok ==> scoped(r->Ok_0@, old(env)@, at),
            r is Ok ==> final(env)@ == declared_by(r->Ok_0@, old(env)@, at),
        decreases old(self).tokens.len() - old(self).token_index, 37nat,
    {
        let looping = match self.lead() {
            Lead::Loop => true,
            _ => false,
        };
        if looping {
            self.skip();
        }
        let mark = env.size();
        let inner = env.narrow(at);
        let read = self.block_statements(env, inner);
        let ghost left = env@;
        env.release(mark);
        match read {
            Ok(list) => {
                proof {
                    lemma_block_is_scoped(old(env)@, at, statements_view(list), left);
                    lemma_scope_is_scoped(old(env)@, at, ExprView::Empty, statements_view(list));
                }
                if looping {
                    Ok(Statement::mk_loop(list))
                } else {
                    Ok(Statement::mk_block(list))
                }
            },
            Err(kind) => Err(kind),
        }
    }

    /// A `while` loop: condition and body are read in a frame of their
    /// own.
    #[verifier::spinoff_prover]
    fn while_statement(&mut self, env: &mut Env, at: EnvHandle) -> (r: Result<
        Statement,
        StumbleKind,
    >)
        requires
            old(self).wf(),
            old(env).wf(),
            at < old(env)@.len(),
            lead_of(grammar::kind_at(old(self).ts(), old(self).at())) is While,
        ensures
            final(self).wrote(
                old(self),
                grammar::statement(old(self).ts(), old(self).at(), old(env)@, at),
                r,
                final(env)@,
            ),
            final(env).wf(),
            final(env)@.len() >= old(env)@.len(),
            r is Ok ==> final(self).token_index > old(self).token_index,
            r is Ok ==> scoped(r->Ok_0@, old(env)@, at),
            r is Ok ==> final(env)@ == declared_by(r->Ok_0@, old(env)@, at),
        decreases old(self).tokens.len() - old(self).token_index, 38nat,
    {
        let mark = env.size();
        let inner = env.narrow(at);
        let read = self.while_loop(env, inner);
        let ghost left = env@;
        env.release(mark);
        proof {
            if read is Ok {
                lemma_leave_scope(old(env)@, at, left);
                lemma_while_is_scoped(
                    old(env)@,
                    at,
                    read->Ok_0@->While_condition,
                    read->Ok_0@->While_body,
                );
                lemma_scope_is_scoped(
                    old(env)@,
                    at,
                    read->Ok_0@->While_condition,
                    read->Ok_0@->While_body,
                );
            }
        }
        read
    }

    /// A `for` loop: its parts are read in a frame of their own.
    #[verifier::spinoff_prover]
    fn for_statement(&mut self, env: &mut Env, at: EnvHandle) -> (r: Result<Statement, StumbleKind>)
        requires
            old(self).wf(),
            old(env).wf(),
            at < old(env)@.len(),
            lead_of(grammar::kind_at(old(self).ts(), old(self).at())) is For,
        ensures
            final(self).wrote(
                old(self),
                grammar::statement(old(self).ts(), old(self).at(), old(env)@, at),
                r,
                final(env)@,
            ),
            final(env).wf(),
            final(env)@.len() >= old(env)@.len(),
            r is Ok ==> final(self).token_index > old(self).token_index,
            r is Ok ==> scoped(r->Ok_0@, old(env)@, at),
            r is Ok ==> final(env)@ == declared_by(r->Ok_0@, old(env)@, at),
        decreases old(self).tokens.len() - old(self).token_index, 38nat,
    {
        let mark = env.size();
        let outer = env.narrow(at);
        let read = self.for_loop(env, outer);
        let ghost left = env@;
        env.release(mark);
        proof {
            if read is Ok {
                lemma_leave_scope(old(env)@, at, left);
                lemma_scope_is_scoped(
                    old(env)@,
                    at,
                    ExprView::Empty,
                    read->Ok_0@->Block_statements,
                );
            }
        }
        read
    }

    /// `"{" declaration* "}"`, read in the frame `at`.
    #[verifier::spinoff_prover]
    fn block_statements(&mut self, env: &mut Env, at: EnvHandle) -> (r: Result<
        Vec<Statement>,
        StumbleKind,
    >)
        requires
            old(self).wf(),
            old(env).wf(),
            at < old(env)@.len(),
        ensures
            final(self).wrote_list(
                old(self),
                grammar::block_statements(old(self).ts(), old(self).at(), old(env)@, at),
                r,
                final(env)@,
            ),
            final(env).wf(),
            final(env)@.len() >= old(env)@.len(),
            r is Ok ==> final(self).token_index > old(self).token_index,
            r is Ok ==> list_scoped(statements_view(r->Ok_0), 0, old(env)@, at),
            r is Ok ==> final(env)@ == declared_by_list(
                statements_view(r->Ok_0),
                0,
                old(env)@,
                at,
            ),
        decreases old(self).tokens.len() - old(self).token_index, 36nat,
    {
        match self.lead() {
            Lead::BraceL => {},
            _ => {
                return Err(StumbleKind::ExpectedBlock);
            },
        }
        self.skip();
        let list: Vec<Statement> = Vec::new();
        assert(statements_view(list) =~= Seq::empty());
        self.block_items(env, at, list)
    }

    /// The declarations of a block behind those in `list`, up to and
    /// including the closing brace.
    #[verifier::spinoff_prover]
    fn block_items(&mut self, env: &mut Env, at: EnvHandle, list: Vec<Statement>) -> (r: Result<
        Vec<Statement>,
        StumbleKind,
    >)
        requires
            old(self).wf(),
            old(env).wf(),
            at < old(env)@.len(),
        ensures
            final(self).wrote_list(
                old(self),
                grammar::block_items(
                    old(self).ts(),
                    old(self).at(),
                    old(env)@,
                    at,
                    statements_view(list),
                ),
                r,
                final(env)@,
            ),
            final(env).wf(),
            final(env)@.len() >= old(env)@.len(),
            r is Ok ==> final(self).token_index > old(self).token_index,
            r is Ok ==> r->Ok_0.len() >= list.len() && statements_view(r->Ok_0).take(
                list.len() as int,
            ) == statements_view(list),
            r is Ok ==> list_scoped(statements_view(r->Ok_0), list.len() as nat, old(env)@, at),
            r is Ok ==> final(env)@ == declared_by_list(
                statements_view(r->Ok_0),
                list.len() as nat,
                old(env)@,
                at,
            ),
        decreases old(self).tokens.len() - old(self).token_index, 42nat,
    {
        match self.lead() {
            Lead::Nothing => {
                return Err(StumbleKind::MissingToken);
            },
            Lead::BraceR => {
                self.skip();
                assert(statements_view(list).take(list.len() as int) =~= statements_view(list));
                proof {
                    lemma_list_scoped_step(statements_view(list), list.len() as nat, env@, at);
                }
                return Ok(list);
            },
            _ => {},
        }
        let next = match self.declaration(env, at) {
            Ok(s) => s,
            Err(kind) => {
                return Err(kind);
            },
        };
        let ghost count = list.len();
        let ghost earlier = statements_view(list);
        let ghost one = next@;
        let r = self.block_items(env, at, with_statement(list, next));
        proof {
            if r is Ok {
                let all = statements_view(r->Ok_0);
                assert(all.take(count + 1) == earlier.push(one));
                assert(all[count as int] == all.take(count + 1)[count as int]);
                assert(all.take(count as int) =~= earlier);
                lemma_list_scoped_step(all, count as nat, old(env)@, at);
            }
        }
        r
    }

    /// `"if" "(" expression ")" declaration ("else" declaration)? ";"?`
    #[verifier::spinoff_prover]
    fn conditional(&mut self, env: &mut Env, at: EnvHandle) -> (r: Result<Statement, StumbleKind>)
        requires
            old(self).wf(),
            old(env).wf(),
            at < old(env)@.len(),
        ensures
            final(self).wrote(
                old(self),
                grammar::conditional(old(self).ts(), old(self).at(), old(env)@, at),
                r,
                final(env)@,
            ),
            final(env).wf(),
            final(env)@.len() >= old(env)@.len(),
            r is Ok ==> final(self).token_index > old(self).token_index,
            r is Ok ==> scoped(r->Ok_0@, old(env)@, at),
            r is Ok ==> final(env)@ == declared_by(r->Ok_0@, old(env)@, at),
        decreases old(self).tokens.len() - old(self).token_index, 37nat,
    {
        match self.consume(&TknK::If) {
            Ok(()) => {},
            Err(kind) => {
                return Err(kind);
            },
        }
        match self.consume(&TknK::ParenL) {
            Ok(()) => {},
            Err(kind) => {
                return Err(kind);
            },
        }
        let condition = match self.expression_at(env, at) {
            Ok(e) => e,
            Err(kind) => {
                return Err(kind);
            },
        };
        match self.consume(&TknK::ParenR) {
            Ok(()) => {},
            Err(kind) => {
                return Err(kind);
            },
        }
        proof {
            lemma_resolved_is_bound(condition@, env@, at);
        }
        self.branches(env, at, condition)
    }

    /// The branches of a conditional.
    #[verifier::spinoff_prover]
    fn branches(&mut self, env: &mut Env, at: EnvHandle, condition: Expr) -> (r: Result<
        Statement,
        StumbleKind,
    >)
        requires
            old(self).wf(),
            old(env).wf(),
            at < old(env)@.len(),
            expr_bound(condition@, old(env)@, at),
        ensures
            final(self).wrote(
                old(self),
                grammar::branches(old(self).ts(), old(self).at(), old(env)@, at, condition@),
                r,
                final(env)@,
            ),
            final(env).wf(),
            final(env)@.len() >= old(env)@.len(),
            r is Ok ==> final(self).token_index > old(self).token_index,
            r is Ok ==> scoped(r->Ok_0@, old(env)@, at),
            r is Ok ==> final(env)@ == declared_by(r->Ok_0@, old(env)@, at),
        decreases old(self).tokens.len() - old(self).token_index, 43nat,
    {
        let case_if = match self.declaration(env, at) {
            Ok(s) => s,
            Err(kind) => {
                return Err(kind);
            },
        };
        let case_else = match self.otherwise(env, at) {
            Ok(s) => s,
            Err(kind) => {
                return Err(kind);
            },
        };
        proof {
            lemma_conditional_is_scoped(
                condition@,
                case_if@,
                if case_else is Some {
                    Some(case_else->0@)
                } else {
                    None
                },
                old(env)@,
                at,
            );
        }
        let read = Statement::mk_conditional(condition, case_if, case_else);
        self.optional_semicolon();
        Ok(read)
    }

    /// `("else" declaration)?`
    #[verifier::spinoff_prover]
    fn otherwise(&mut self, env: &mut Env, at: EnvHandle) -> (r: Result<
        Option<Statement>,
        StumbleKind,
    >)
        requires
            old(self).wf(),
            old(env).wf(),
            at < old(env)@.len(),
        ensures
            ({
                let step = grammar::otherwise(old(self).ts(), old(self).at(), old(env)@, at);
                &&& final(self).moved(old(self), step.used)
                &&& final(env)@ == step.env
                &&& match r {
                    Ok(Some(s)) => step.result == Ok::<Option<StatementView>, StumbleKindView>(
                        Some(s@),
                    ),
                    Ok(None) => step.result == Ok::<Option<StatementView>, StumbleKindView>(None),
                    Err(kind) => step.result == Err::<Option<StatementView>, StumbleKindView>(
                        kind@,
                    ),
                }
            }),
            final(env).wf(),
            final(env)@.len() >= old(env)@.len(),
            match r {
                Ok(Some(s)) => scoped(s@, old(env)@, at) && final(env)@ == declared_by(
                    s@,
                    old(env)@,
                    at,
                ),
                Ok(None) => final(env)@ == old(env)@,
                Err(_) => true,
            },
        decreases old(self).tokens.len() - old(self).token_index, 41nat,
    {
        match self.token_kind() {
            Some(TknK::Else) => {
                self.skip();
                match self.declaration(env, at) {
                    Ok(s) => Ok(Some(s)),
                    Err(kind) => Err(kind),
                }
            },
            _ => Ok(None),
        }
    }

    /// `"while" "(" expression ")" block`, read in the loop's frame.
    #[verifier::spinoff_prover]
    fn while_loop(&mut self, env: &mut Env, at: EnvHandle) -> (r: Result<Statement, StumbleKind>)
        requires
            old(self).wf(),
            old(env).wf(),
            at < old(env)@.len(),
        ensures
            final(self).wrote(
                old(self),
                grammar::while_loop(old(self).ts(), old(self).at(), old(env)@, at),
                r,
                final(env)@,
            ),
            final(env).wf(),
            final(env)@.len() >= old(env)@.len(),
            r is Ok ==> final(self).token_index > old(self).token_index,
            r is Ok ==> r->Ok_0@ is While && expr_bound(
                r->Ok_0@->While_condition,
                old(env)@,
                at,
            ) && list_scoped(r->Ok_0@->While_body, 0, old(env)@, at),
            r is Ok ==> grown(old(env)@, final(env)@, at),
        decreases old(self).tokens.len() - old(self).token_index, 37nat,
    {
        match self.consume(&TknK::While) {
            Ok(()) => {},
            Err(kind) => {
                return Err(kind);
            },
        }
        match self.consume(&TknK::ParenL) {
            Ok(()) => {},
            Err(kind) => {
                return Err(kind);
            },
        }
        let condition = match self.expression_at(env, at) {
            Ok(e) => e,
            Err(kind) => {
                return Err(kind);
            },
        };
        match self.consume(&TknK::ParenR) {
            Ok(()) => {},
            Err(kind) => {
                return Err(kind);
            },
        }
        proof {
            lemma_resolved_is_bound(condition@, env@, at);
        }
        match self.block_statements(env, at) {
            Ok(body) => {
                proof {
                    lemma_declared_by_list_grows(statements_view(body), 0, old(env)@, at);
                }
                Ok(Statement::mk_while(condition, body))
            },
            Err(kind) => Err(kind),
        }
    }

    /// A `for` loop, read in the frame of its initialiser.
    #[verifier::spinoff_prover]
    fn for_loop(&mut self, env: &mut Env, at: EnvHandle) -> (r: Result<Statement, StumbleKind>)
        requires
            old(self).wf(),
            old(env).wf(),
            at < old(env)@.len(),
        ensures
            final(self).wrote(
                old(self),
                grammar::for_loop(old(self).ts(), old(self).at(), old(env)@, at),
                r,
                final(env)@,
            ),
            final(env).wf(),
            final(env)@.len() >= old(env)@.len(),
            r is Ok ==> final(self).token_index > old(self).token_index,
            r is Ok ==> r->Ok_0@ is Block && list_scoped(
                r->Ok_0@->Block_statements,
                0,
                old(env)@,
                at,
            ),
            r is Ok ==> grown(old(env)@, final(env)@, at),
        decreases old(self).tokens.len() - old(self).token_index, 37nat,
    {
        match self.consume(&TknK::For) {
            Ok(()) => {},
            Err(kind) => {
                return Err(kind);
            },
        }
        match self.consume(&TknK::ParenL) {
            Ok(()) => {},
            Err(kind) => {
                return Err(kind);
            },
        }
        let init = match self.declaration(env, at) {
            Ok(s) => s,
            Err(kind) => {
                return Err(kind);
            },
        };
        match &init {
            Statement::Declaration { .. } => {},
            Statement::Empty => {},
            _ => {
                return Err(StumbleKind::ForInitialiser);
            },
        }
        let ghost behind = env@;
        let mark = env.size();
        let inner = env.narrow(at);
        let read = self.for_rest(env, inner);
        let ghost left = env@;
        env.release(mark);
        match read {
            Ok(repeat) => {
                proof {
                    lemma_leave_scope(behind, at, left);
                    lemma_while_is_scoped(
                        behind,
                        at,
                        repeat@->While_condition,
                        repeat@->While_body,
                    );
                    lemma_lowered_for_is_scoped(old(env)@, at, init@, repeat@);
                    lemma_declared_by_grows(init@, old(env)@, at);
                }
                Ok(lower_for(init, repeat))
            },
            Err(kind) => Err(kind),
        }
    }

    /// A `for` loop from behind its initialiser on, read in the loop's
    /// frame.
    #[verifier::spinoff_prover]
    fn for_rest(&mut self, env: &mut Env, at: EnvHandle) -> (r: Result<Statement, StumbleKind>)
        requires
            old(self).wf(),
            old(env).wf(),
            at < old(env)@.len(),
        ensures
            final(self).wrote(
                old(self),
                grammar::for_rest(old(self).ts(), old(self).at(), old(env)@, at),
                r,
                final(env)@,
            ),
            final(env).wf(),
            final(env)@.len() >= old(env)@.len(),
            r is Ok ==> final(self).token_index > old(self).token_index,
            r is Ok ==> r->Ok_0@ is While && expr_bound(
                r->Ok_0@->While_condition,
                old(env)@,
                at,
            ) && list_scoped(r->Ok_0@->While_body, 0, old(env)@, at),
            r is Ok ==> grown(old(env)@, final(env)@, at),
        decreases old(self).tokens.len() - old(self).token_index, 35nat,
    {
        let condition = match self.delimited(env, at, &TknK::Semicolon) {
            Ok(e) => e,
            Err(kind) => {
                return Err(kind);
            },
        };
        match self.consume(&TknK::Semicolon) {
            Ok(()) => {},
            Err(kind) => {
                return Err(kind);
            },
        }
        let increment = match self.delimited(env, at, &TknK::ParenR) {
            Ok(e) => e,
            Err(kind) => {
                return Err(kind);
            },
        };
        match self.consume(&TknK::ParenR) {
            Ok(()) => {},
            Err(kind) => {
                return Err(kind);
            },
        }
        proof {
            lemma_resolved_is_bound(condition@, env@, at);
            lemma_resolved_is_bound(increment@, env@, at);
        }
        match self.block_statements(env, at) {
            Ok(body) => {
                proof {
                    lemma_for_round_is_scoped(
                        old(env)@,
                        at,
                        condition@,
                        increment@,
                        statements_view(body),
                    );
                }
                Ok(for_round(condition, increment, body))
            },
            Err(kind) => Err(kind),
        }
    }

    /// The parameters of a function behind those in `list`, up to and
    /// including the closing parenthesis.
    fn parameters(&mut self, env: &Env, at: EnvHandle, list: Vec<Identifier>) -> (r: Result<
        Vec<Identifier>,
        StumbleKind,
    >)
        requires
            old(self).wf(),
            env.wf(),
            at < env@.len(),
            names_bound(identifiers_view(list), env@, at),
        ensures
            final(self).moved(
                old(self),
                grammar::parameters(
                    old(self).ts(),
                    old(self).at(),
                    env@,
                    at,
                    identifiers_view(list),
                ).used,
            ),
            match r {
                Ok(all) => grammar::parameters(
                    old(self).ts(),
                    old(self).at(),
                    env@,
                    at,
                    identifiers_view(list),
                ).result == Ok::<Seq<IdentifierView>, StumbleKindView>(identifiers_view(all)),
                Err(kind) => grammar::parameters(
                    old(self).ts(),
                    old(self).at(),
                    env@,
                    at,
                    identifiers_view(list),
                ).result == Err::<Seq<IdentifierView>, StumbleKindView>(kind@),
            },
            r is Ok ==> names_bound(identifiers_view(r->Ok_0), env@, at),
        decreases old(self).tokens.len() - old(self).token_index,
    {
        let id = match self.token_kind() {
            None => {
                return Err(StumbleKind::MissingToken);
            },
            Some(TknK::ParenR) => {
                if list.len() == 0 {
                    self.skip();
                    return Ok(list);
                }
                return Err(StumbleKind::Unexpected { found: TknK::ParenR });
            },
            Some(TknK::Identifier { id }) => Identifier::fresh(id.clone(), env.offset(at, id)),
            Some(other) => {
                return Err(StumbleKind::Unexpected { found: other.duplicate() });
            },
        };
        if list.len() >= MAX_ARGUMENTS {
            return Err(StumbleKind::ArgLimit);
        }
        let mut list = list;
        let ghost earlier = identifiers_view(list);
        list.push(id);
        assert(identifiers_view(list) =~= earlier.push(id@));
        proof {
            lemma_named_is_bound(id@.name, env@, at);
            assert forall|i: int| 0 <= i < earlier.push(id@).len() implies bound(
                #[trigger] earlier.push(id@)[i],
                env@,
                at,
            ) by {
                if i < earlier.len() {
                    assert(earlier.push(id@)[i] == earlier[i]);
                }
            }
        }
        match self.token_kind_ahead(1) {
            Some(TknK::Comma) => {
                self.skip();
                self.skip();
                self.parameters(env, at, list)
            },
            Some(TknK::ParenR) => {
                self.skip();
                self.skip();
                Ok(list)
            },
            _ => {
                self.skip();
                Err(StumbleKind::MismatchedParentheses)
            },
        }
    }

    /// `"fun" IDENT "(" parameters? ")" block`
    #[verifier::spinoff_prover]
    fn function(&mut self, env: &mut Env, at: EnvHandle) -> (r: Result<Statement, StumbleKind>)
        requires
            old(self).wf(),
            old(env).wf(),
            at < old(env)@.len(),
        ensures
            final(self).wrote(
                old(self),
                grammar::function(old(self).ts(), old(self).at(), old(env)@, at),
                r,
                final(env)@,
            ),
            final(env).wf(),
            final(env)@.len() >= old(env)@.len(),
            r is Ok ==> final(self).token_index > old(self).token_index,
            r is Ok ==> scoped(r->Ok_0@, old(env)@, at),
            r is Ok ==> final(env)@ == declared_by(r->Ok_0@, old(env)@, at),
        decreases old(self).tokens.len() - old(self).token_index, 37nat,
    {
        match self.consume(&TknK::Function) {
            Ok(()) => {},
            Err(kind) => {
                return Err(kind);
            },
        }
        let id = match self.token_kind() {
            None => {
                return Err(StumbleKind::MissingToken);
            },
            Some(TknK::Identifier { id }) => Identifier::fresh(id.clone(), env.offset(at, id)),
            Some(other) => {
                return Err(StumbleKind::Unexpected { found: other.duplicate() });
            },
        };
        self.skip();
        match self.consume(&TknK::ParenL) {
            Ok(()) => {},
            Err(kind) => {
                return Err(kind);
            },
        }
        let none: Vec<Identifier> = Vec::new();
        assert(identifiers_view(none) =~= Seq::empty());
        let params = match self.parameters(env, at, none) {
            Ok(list) => list,
            Err(kind) => {
                return Err(kind);
            },
        };
        proof {
            lemma_named_is_bound(id@.name, env@, at);
        }
        let mark = env.size();
        env.insert(at, &id.name, ExprB::mk_nil());
        let ghost declared = env@;
        let inner = env.narrow(at);
        let ghost entered = env@;
        declare_all(env, inner, &params);
        let ghost ready = env@;
        let read = self.block_statements(env, inner);
        let ghost left = env@;
        env.release(mark);
        match read {
            Ok(body) => {
                proof {
                    lemma_with_parameters_grows(entered, inner, identifiers_view(params), 0);
                    lemma_declared_by_list_grows(statements_view(body), 0, ready, inner);
                    lemma_grown_twice(entered, ready, left, inner);
                    lemma_leave_scope(declared, at, left);
                    lemma_function_is_scoped(
                        id@,
                        identifiers_view(params),
                        statements_view(body),
                        old(env)@,
                        at,
                    );
                }
                Ok(Statement::mk_function(id, params, body))
            },
            Err(kind) => Err(kind),
        }
    }

    /// Reads an expression in the frame `at`, or nothing where the
    /// expression is refused at a token of the kind `delimiter`; what
    /// is refused otherwise is reported by its kind alone.
    pub fn delimited(&mut self, env: &Env, at: EnvHandle, delimiter: &TknK) -> (r: Result<
        Expr,
        StumbleKind,
    >)
        requires
            old(self).wf(),
            env.wf(),
        ensures
            final(self).read(
                old(self),
                grammar::expression_delimited(
                    old(self).ts(),
                    old(self).at(),
                    env@,
                    at,
                    delimiter@,
                ),
                r,
            ),
            r is Ok ==> grammar::resolved(r->Ok_0@, env@, at),
    {
        match self.expression_at(env, at) {
            Ok(e) => Ok(e),
            Err(kind) => {
                let nothing = match &kind {
                    StumbleKind::Unexpected { found } => found.same(delimiter),
                    _ => false,
                };
                if nothing {
                    Ok(Expr::Empty)
                } else {
                    Err(kind)
                }
            },
        }
    }

    /// Reads an expression, as the functions for expressions use it
    /// among themselves.
    fn expression_inner(&mut self, env: &Env, at: EnvHandle) -> (r: Result<Expr, StumbleKind>)
        requires
            old(self).wf(),
            env.wf(),
        ensures
            final(self).read(
                old(self),
                grammar::expression_rec(old(self).ts(), old(self).at(), env@, at),
                r,
            ),
            r is Ok ==> grammar::resolved(r->Ok_0@, env@, at),
            r is Ok ==> final(self).token_index > old(self).token_index,
        decreases old(self).tokens.len() - old(self).token_index, 30nat,
    {
        self.assignment(env, at)
    }

    /// Reads an expression in the frame `at`; what is refused is
    /// reported by its kind alone.
    pub fn expression_at(&mut self, env: &Env, at: EnvHandle) -> (r: Result<Expr, StumbleKind>)
        requires
            old(self).wf(),
            env.wf(),
        ensures
            final(self).read(
                old(self),
                grammar::expression(old(self).ts(), old(self).at(), env@, at),
                r,
            ),
            r is Ok ==> grammar::resolved(r->Ok_0@, env@, at),
            r is Ok ==> final(self).token_index > old(self).token_index,
    {
        proof {
            reveal(grammar::expression);
        }
        self.expression_inner(env, at)
    }

    /// The statements read so far.
    pub fn statements(&self) -> (r: &Vec<Statement>)
        ensures
            *r == self.statements,
    {
        &self.statements
    }

    /// Takes over what a scanner has found: its tokens are added to
    /// those not yet read, and its position becomes the end of the text.
    pub fn take_scaner(&mut self, scanner: Scanner)
        requires
            old(self).wf(),
        ensures
            final(self).ts() == old(self).ts() + tokens_view(scanner.tokens),
            final(self).location == scanner.location,
            final(self).token_index == old(self).token_index,
            final(self).statements == old(self).statements,
            final(self).wf(),
    {
        let mut taken = scanner;
        self.location = taken.location;
        self.tokens.append(&mut taken.tokens);
        assert(self.ts() =~= old(self).ts() + tokens_view(scanner.tokens));
    }

    /// A diagnostic of the given kind about the end of the text.
    pub fn stumble_here(&self, kind: StumbleKind) -> (r: Stumble)
        ensures
            r.kind == kind,
            r.location == self.location,
    {
        Stumble { location: self.location, kind }
    }

    /// A diagnostic of the given kind about the current token.
    pub fn stumble_token(&self, kind: StumbleKind) -> (r: Stumble)
        requires
            self.wf(),
        ensures
            r.kind == kind,
            r.location == grammar::place(self.ts(), self.at(), kind@, self.location),
    {
        let location = match kind {
            StumbleKind::TokensExhausted => self.location,
            StumbleKind::OpenStatement => if 1 <= self.token_index {
                self.tokens[self.token_index - 1].location
            } else {
                Location::default()
            },
            _ => if self.token_index < self.tokens.len() {
                self.tokens[self.token_index].location
            } else {
                Location::default()
            },
        };
        Stumble { location, kind }
    }

    /// Reads an expression in the frame `at`.
    pub fn expression(&mut self, env: &Env, at: EnvHandle) -> (r: Result<Expr, Stumble>)
        requires
            old(self).wf(),
            env.wf(),
        ensures
            ({
                let step = grammar::expression(old(self).ts(), old(self).at(), env@, at);
                &&& final(self).moved(old(self), step.used)
                &&& match r {
                    Ok(e) => step.result == Ok::<ExprView, StumbleKindView>(e@),
                    Err(s) => step.result == Err::<ExprView, StumbleKindView>(s@.kind)
                        && s.location == grammar::place(
                        final(self).ts(),
                        final(self).at(),
                        s@.kind,
                        final(self).location,
                    ),
                }
            }),
            r is Ok ==> grammar::resolved(r->Ok_0@, env@, at),
            r is Ok ==> final(self).token_index > old(self).token_index,
    {
        match self.expression_at(env, at) {
            Ok(e) => Ok(e),
            Err(kind) => Err(self.stumble_token(kind)),
        }
    }

    /// Reads an expression in the frame `at`, or nothing where the
    /// expression is refused at a token of the kind `delimiter`.
    pub fn expression_delimited(&mut self, env: &Env, at: EnvHandle, delimiter: &TknK) -> (r:
        Result<Expr, Stumble>)
        requires
            old(self).wf(),
            env.wf(),
        ensures
            ({
                let step = grammar::expression_delimited(
                    old(self).ts(),
                    old(self).at(),
                    env@,
                    at,
                    delimiter@,
                );
                &&& final(self).moved(old(self), step.used)
                &&& match r {
                    Ok(e) => step.result == Ok::<ExprView, StumbleKindView>(e@),
                    Err(s) => step.result == Err::<ExprView, StumbleKindView>(s@.kind)
                        && s.location == grammar::place(
                        final(self).ts(),
                        final(self).at(),
                        s@.kind,
                        final(self).location,
                    ),
                }
            }),
            r is Ok ==> grammar::resolved(r->Ok_0@, env@, at),
    {
        match self.delimited(env, at, delimiter) {
            Ok(e) => Ok(e),
            Err(kind) => Err(self.stumble_token(kind)),
        }
    }

    /// The identifier that an expression is; `InvalidAsignee` for any
    /// other expression.
    pub fn to_identifier(&self, expr: Expr) -> (r: Result<Identifier, Stumble>)
        requires
            self.wf(),
        ensures
            match r {
                Ok(id) => expr@ == (ExprView::Identifier { id: id@ }),
                Err(s) => !(expr@ is Identifier) && s@.kind == StumbleKindView::InvalidAsignee
                    && s.location == grammar::place(
                    self.ts(),
                    self.at(),
                    StumbleKindView::InvalidAsignee,
                    self.location,
                ),
            },
    {
        match expr {
            Expr::Identifier { id } => Ok(id),
            _ => Err(self.stumble_token(StumbleKind::InvalidAsignee)),
        }
    }

    /// The identifiers that the expressions are; `InvalidAsignee` where
    /// one of them is no identifier.
    pub fn to_identifiers(&self, expr: Vec<Expr>) -> (r: Result<Vec<Identifier>, Stumble>)
        requires
            self.wf(),
        ensures
            match r {
                Ok(ids) => ids.len() == expr.len() && forall|i: int|
                    0 <= i < expr.len() ==> (#[trigger] expr[i])@ == (ExprView::Identifier {
                        id: ids[i]@,
                    }),
                Err(s) => s@.kind == StumbleKindView::InvalidAsignee && s.location
                    == grammar::place(
                    self.ts(),
                    self.at(),
                    StumbleKindView::InvalidAsignee,
                    self.location,
                ) && exists|i: int| 0 <= i < expr.len() && !((#[trigger] expr[i])@ is Identifier),
            },
    {
        let mut identifiers: Vec<Identifier> = Vec::new();
        let mut i: usize = 0;
        while i < expr.len()
            invariant
                self.wf(),
                i <= expr.len(),
                identifiers.len() == i,
                forall|j: int|
                    0 <= j < i ==> (#[trigger] expr[j])@ == (ExprView::Identifier {
                        id: identifiers[j]@,
                    }),
            decreases expr.len() - i,
        {
            match &expr[i] {
                Expr::Identifier { id } => {
                    identifiers.push(id.duplicate());
                },
                _ => {
                    return Err(self.stumble_token(StumbleKind::InvalidAsignee));
                },
            }
            i += 1;
        }
        Ok(identifiers)
    }

    /// Recovers from a refusal: skips tokens up to and including the
    /// next semicolon. Says whether there was one; where there was
    /// none, all tokens have been skipped.
    pub fn syncronise(&mut self) -> (r: bool)
        requires
            old(self).wf(),
        ensures
            r == (grammar::semicolon_from(old(self).ts(), old(self).at()) < old(self).ts().len()),
            final(self).tokens == old(self).tokens,
            final(self).statements == old(self).statements,
            final(self).location == old(self).location,
            final(self).wf(),
            final(self).token_index == (if r {
                grammar::semicolon_from(old(self).ts(), old(self).at()) + 1
            } else {
                old(self).ts().len()
            }),
    {
        while self.token_index < self.tokens.len()
            invariant
                self.wf(),
                self.tokens == old(self).tokens,
                self.statements == old(self).statements,
                self.location == old(self).location,
                old(self).token_index <= self.token_index,
                grammar::semicolon_from(self.ts(), self.at()) == grammar::semicolon_from(
                    old(self).ts(),
                    old(self).at(),
                ),
            decreases self.tokens.len() - self.token_index,
        {
            let found = match &self.tokens[self.token_index].kind {
                TknK::Semicolon => true,
                _ => false,
            };
            self.token_index += 1;
            if found {
                return true;
            }
        }
        false
    }

    /// Reads declarations in the frame `at` up to the end of the
    /// tokens and adds them to the statements read so far. Hands back
    /// how many were added, or the first refusal; what was read before
    /// a refusal is kept. Every name in what was added has no offset,
    /// or an offset that leads to a frame that declares it.
    #[verifier::rlimit(100)]
    #[verifier::spinoff_prover]
    pub fn parse(&mut self, env: &mut Env, at: EnvHandle) -> (r: Result<usize, Stumble>)
        requires
            old(self).wf(),
            old(env).wf(),
            at < old(env)@.len(),
        ensures
            ({
                let p = grammar::program(old(self).ts(), old(self).at(), old(env)@, at);
                &&& final(self).tokens == old(self).tokens
                &&& final(self).location == old(self).location
                &&& final(self).token_index == old(self).token_index + p.used
                &&& final(self).wf()
                &&& statements_view(final(self).statements) == statements_view(
                    old(self).statements,
                ) + p.statements
                &&& final(env)@ == p.env
                &&& match r {
                    Ok(count) => p.failure is None && count == p.statements.len(),
                    Err(s) => p.failure == Some(s@.kind) && s.location == grammar::place(
                        final(self).ts(),
                        final(self).at(),
                        s@.kind,
                        final(self).location,
                    ),
                }
            }),
            final(env).wf(),
            final(env)@.len() >= old(env)@.len(),
            list_scoped(
                statements_view(final(self).statements),
                old(self).statements.len() as nat,
                old(env)@,
                at,
            ),
    {
        let mut count: usize = 0;
        proof {
            lemma_list_scoped_step(
                statements_view(self.statements),
                self.statements.len() as nat,
                env@,
                at,
            );
        }
        let ghost start = self.at();
        let ghost before = statements_view(self.statements);
        let ghost mut done: Seq<StatementView> = Seq::empty();
        assert(before + done =~= before);
        loop
            invariant
                self.wf(),
                env.wf(),
                at < env@.len(),
                env@.len() >= old(env)@.len(),
                self.tokens == old(self).tokens,
                self.location == old(self).location,
                start == old(self).at(),
                before == statements_view(old(self).statements),
                before.len() == old(self).statements.len(),
                list_scoped(
                    statements_view(self.statements),
                    old(self).statements.len() as nat,
                    old(env)@,
                    at,
                ),
                env@ == declared_by_list(
                    statements_view(self.statements),
                    old(self).statements.len() as nat,
                    old(env)@,
                    at,
                ),
                start <= self.at(),
                count == done.len(),
                count <= self.at() - start,
                statements_view(self.statements) == before + done,
                ({
                    let whole = grammar::program(old(self).ts(), start, old(env)@, at);
                    let rest = grammar::program(self.ts(), self.at(), env@, at);
                    &&& whole.statements == done + rest.statements
                    &&& whole.used == (self.at() - start) + rest.used
                    &&& whole.env == rest.env
                    &&& whole.failure == rest.failure
                }),
            decreases self.tokens.len() - self.token_index,
        {
            if self.token_index >= self.tokens.len() {
                assert(done + Seq::<StatementView>::empty() =~= done);
                return Ok(count);
            }
            let ghost rest = grammar::program(self.ts(), self.at(), env@, at);
            match self.declaration(env, at) {
                Err(kind) => {
                    assert(done + Seq::<StatementView>::empty() =~= done);
                    return Err(self.stumble_token(kind));
                },
                Ok(s) => {
                    proof {
                        let after = grammar::program(self.ts(), self.at(), env@, at);
                        assert(done + (seq![s@] + after.statements) =~= done.push(s@)
                            + after.statements);
                        assert((before + done).push(s@) =~= before + done.push(s@));
                        done = done.push(s@);
                    }
                    let ghost earlier = statements_view(self.statements);
                    proof {
                        lemma_list_scoped_push(
                            earlier,
                            old(self).statements.len() as nat,
                            old(env)@,
                            at,
                            s@,
                        );
                    }
                    self.statements.push(s);
                    assert(statements_view(self.statements) =~= earlier.push(s@));
                    count += 1;
                },
            }
        }
    }
}

} // verus!
