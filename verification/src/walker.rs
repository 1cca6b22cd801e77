//! The driver: it holds the source text, the tokens and statements found
//! in it, and the scopes for parsing and for evaluation.

use crate::ast::{
    statements_view, Control, EnvHandle, Expr, ExprB, ExprView, Identifier, IdentifierView,
    Statement, StatementView, Value,
};
use crate::base::Base;
use crate::environment::Env;
use crate::err::{Stumble, StumbleKind, StumbleKindView, StumbleView};
use crate::evaluation::{number_value, went, world};
use crate::grammar;
use crate::location::Location;
use crate::parser::Parser;
use crate::scanner::{advance, lemma_after_all_joined, scanned, Scanner};
use crate::scoping::list_scoped;
use crate::semantics;
use crate::semantics::{Outcome, World};
use crate::text::{chars_of, decimal_digits, push_chars, push_decimal};
use crate::token::{tokens_view, Tkn, TknK, TknKView};
use vstd::prelude::*;

verus! {

/// An interpreter that can be fed source text piece by piece.
#[derive(Debug)]
pub struct TreeWalker {
    /// All text scanned so far.
    pub source: Vec<char>,
    /// Where each line of the source starts.
    pub line_breaks: Vec<usize>,
    pub scanner: Scanner,
    pub parser: Parser,
    /// The scopes as the parser sees them, and the frame that programs
    /// are read in.
    pub parse_env: Env,
    pub parse_at: EnvHandle,
    /// The scopes of the running program, and the frame that programs
    /// run in.
    pub interpret_env: Env,
    pub interpret_at: EnvHandle,
}

/// Where the lines of a text start: line 0 at its beginning, and every
/// further line behind a line end.
pub open spec fn line_starts(source: Seq<char>) -> Seq<usize>
    decreases source.len(),
{
    if source.len() == 0 {
        seq![0usize]
    } else if source.last() == '\n' {
        line_starts(source.drop_last()).push(source.len() as usize)
    } else {
        line_starts(source.drop_last())
    }
}

/// Where the line with the given number starts; the end of the text if
/// it has no such line.
pub open spec fn line_start(source: Seq<char>, line: nat) -> nat {
    if line < line_starts(source).len() {
        line_starts(source)[line as int] as nat
    } else {
        source.len()
    }
}

/// How many characters from `from` on stand in front of the next line
/// end.
pub open spec fn line_rest(source: Seq<char>, from: nat) -> nat
    decreases source.len() - from,
{
    if from >= source.len() || source[from as int] == '\n' {
        0
    } else {
        1 + line_rest(source, from + 1)
    }
}

/// The line with the given number, without its line end.
pub open spec fn source_line(source: Seq<char>, line: nat) -> Seq<char> {
    let start = line_start(source, line);
    source.subrange(start as int, start as int + line_rest(source, start))
}

/// A diagnostic as it is shown: what went wrong and where, and under
/// it the line of the source that it is about.
pub open spec fn report(source: Seq<char>, stumble: StumbleView) -> Seq<char> {
    "Error on line "@ + decimal_digits(stumble.location.line as nat) + " at column "@
        + decimal_digits(stumble.location.col as nat) + ": "@ + stumble.kind.describe()
        + "\n> "@ + source_line(source, stumble.location.line as nat) + "\n"@
}

/// The effect of the statements from the `from`th on, in order, in the
/// frame `at`, up to the first that fails. A `break` or `return`
/// outside any loop or function ends the statement it stands in, and
/// no more.
pub open spec fn run_all(list: Seq<StatementView>, from: nat, at: EnvHandle, w: World) -> Outcome<
    (),
>
    decreases list.len() - from,
{
    if from >= list.len() {
        w.give(())
    } else {
        let first = semantics::interpret(list[from as int], at, w);
        match first.result {
            Ok(_) => run_all(list, from + 1, at, w.after(first)).since(first),
            Err(kind) => first.with(Err(kind)),
        }
    }
}

/// The diagnostic of the given kind that evaluation gives: it is about
/// no position in particular.
fn at_runtime(kind: StumbleKind) -> (r: Stumble)
    ensures
        r.kind == kind,
        r.location == (Location { col: 0, line: 0 }),
{
    Stumble { location: Location::default(), kind }
}

impl Default for TreeWalker {
    fn default() -> (r: Self)
        ensures
            r.wf(),
            r.source@.len() == 0,
            r.line_breaks@ == seq![0usize],
            r.parser.ts().len() == 0,
            r.parser.token_index == 0,
            r.parser.statements@.len() == 0,
            r.scanner.location == (Location { col: 0, line: 0 }),
            r.parse_env@ == Env::standard(),
            r.parse_at == 1,
            r.interpret_env@ == Env::standard(),
            r.interpret_at == 1,
    {
        let (parse_env, parse_at) = Env::fresh_std_env();
        let (interpret_env, interpret_at) = Env::fresh_std_env();
        let mut line_breaks: Vec<usize> = Vec::new();
        line_breaks.push(0);
        assert(line_breaks@ =~= line_starts(Seq::empty()));
        TreeWalker {
            source: Vec::new(),
            line_breaks,
            scanner: Scanner::default(),
            parser: Parser::default(),
            parse_env,
            parse_at,
            interpret_env,
            interpret_at,
        }
    }
}

impl TreeWalker {
    /// The parts fit together: the table of line starts is that of the
    /// source, the scanner stands at the end of the source, the tokens
    /// found are all with the parser, and both tables of scopes hold
    /// the frame that programs are read and run in.
    pub open spec fn wf(&self) -> bool {
        &&& self.line_breaks@ == line_starts(self.source@)
        &&& self.scanner.location == (Location { col: 0, line: 0 }).after_all(self.source@)
        &&& forall|k: int|
            0 <= k < self.line_breaks@.len() ==> #[trigger] self.line_breaks@[k]
                <= self.source@.len()
        &&& self.scanner.tokens@.len() == 0
        &&& self.parser.wf()
        &&& self.parse_env.wf()
        &&& self.parse_at < self.parse_env@.len()
        &&& self.interpret_env.wf()
        &&& self.interpret_at < self.interpret_env@.len()
    }

    /// Adds `src` to the source and scans it. The tokens found are
    /// handed to the parser. Stops in front of the first token that is
    /// refused, with that refusal and the position of that token; the
    /// tokens before it are kept, and what follows it in `src` is not
    /// scanned. Either way the scanner comes to stand at the end of
    /// `src`, so that the positions in what is scanned next are
    /// positions in the source.
    pub fn scan(&mut self, src: &str) -> (r: Result<(), Stumble>)
        requires
            old(self).wf(),
            old(self).scanner.location.has_room(src@.len() as int),
        ensures
            final(self).wf(),
            final(self).source@ == old(self).source@ + src@,
            final(self).parser.token_index == old(self).parser.token_index,
            final(self).parser.statements == old(self).parser.statements,
            final(self).parser.location == final(self).scanner.location,
            final(self).parse_env == old(self).parse_env,
            final(self).parse_at == old(self).parse_at,
            final(self).interpret_env == old(self).interpret_env,
            final(self).interpret_at == old(self).interpret_at,
            ({
                let s = scanned(src@, 0, old(self).scanner.location);
                &&& final(self).parser.ts() == old(self).parser.ts() + s.tokens
                &&& s.end <= src@.len()
                &&& final(self).scanner.location == old(self).scanner.location.after_all(src@)
                &&& match r {
                    Ok(()) => s.failure is None && s.end == src@.len(),
                    Err(e) => s.failure is Some && e@.kind == StumbleKind::token_err(s.failure->0)
                        && e.location == old(self).scanner.location.after_all(
                        src@.take(s.end as int),
                    ),
                }
            }),
    {
        let chars = chars_of(src);
        self.take_in(&chars);
        let ghost before = self.parser.ts();
        assert(tokens_view(self.scanner.tokens) =~= Seq::empty());
        let (r, end) = self.scanner.scan_part(&chars);
        advance(&mut self.scanner.location, &chars, end, chars.len());
        proof {
            let start = old(self).scanner.location;
            assert(chars@.take(end as int) =~= chars@.subrange(0, end as int));
            lemma_after_all_joined(
                start,
                chars@.subrange(0, end as int),
                chars@.subrange(end as int, chars.len() as int),
            );
            assert(chars@.subrange(0, end as int) + chars@.subrange(
                end as int,
                chars.len() as int,
            ) =~= chars@);
            lemma_after_all_joined(Location { col: 0, line: 0 }, old(self).source@, chars@);
        }
        let ghost found = tokens_view(self.scanner.tokens);
        self.parser.tokens.append(&mut self.scanner.tokens);
        self.parser.location = self.scanner.location;
        assert(self.parser.ts() =~= before + found);
        r
    }

    /// Adds characters to the source, and notes where lines start in
    /// them.
    fn take_in(&mut self, chars: &Vec<char>)
        requires
            old(self).line_breaks@ == line_starts(old(self).source@),
            forall|k: int|
                0 <= k < old(self).line_breaks@.len() ==> #[trigger] old(self).line_breaks@[k]
                    <= old(self).source@.len(),
        ensures
            final(self).source@ == old(self).source@ + chars@,
            final(self).line_breaks@ == line_starts(final(self).source@),
            forall|k: int|
                0 <= k < final(self).line_breaks@.len() ==> #[trigger] final(self).line_breaks@[k]
                    <= final(self).source@.len(),
            final(self).scanner == old(self).scanner,
            final(self).parser == old(self).parser,
            final(self).parse_env == old(self).parse_env,
            final(self).parse_at == old(self).parse_at,
            final(self).interpret_env == old(self).interpret_env,
            final(self).interpret_at == old(self).interpret_at,
    {
        let mut i: usize = 0;
        while i < chars.len()
            invariant
                i <= chars.len(),
                self.source@ == old(self).source@ + chars@.take(i as int),
                self.line_breaks@ == line_starts(self.source@),
                forall|k: int|
                    0 <= k < self.line_breaks@.len() ==> #[trigger] self.line_breaks@[k]
                        <= self.source@.len(),
                self.scanner == old(self).scanner,
                self.parser == old(self).parser,
                self.parse_env == old(self).parse_env,
                self.parse_at == old(self).parse_at,
                self.interpret_env == old(self).interpret_env,
                self.interpret_at == old(self).interpret_at,
            decreases chars.len() - i,
        {
            let ghost before = self.source@;
            self.source.push(chars[i]);
            assert(self.source@.drop_last() =~= before);
            if chars[i] == '\n' {
                self.line_breaks.push(self.source.len());
            }
            i += 1;
            assert(self.source@ =~= old(self).source@ + chars@.take(i as int));
        }
        assert(chars@.take(chars.len() as int) =~= chars@);
    }

    /// Reads the tokens not yet read as declarations and adds them to
    /// the statements. Hands back how many were added, or the first
    /// refusal; what was read before a refusal is kept. Every name in
    /// what was added has no offset, or an offset that leads to a frame
    /// that declares it.
    pub fn parse(&mut self) -> (r: Result<usize, Stumble>)
        requires
            old(self).wf(),
        ensures
            final(self).wf(),
            final(self).source == old(self).source,
            final(self).scanner == old(self).scanner,
            final(self).interpret_env == old(self).interpret_env,
            final(self).interpret_at == old(self).interpret_at,
            final(self).parse_at == old(self).parse_at,
            ({
                let p = grammar::program(
                    old(self).parser.ts(),
                    old(self).parser.at(),
                    old(self).parse_env@,
                    old(self).parse_at,
                );
                &&& final(self).parser.tokens == old(self).parser.tokens
                &&& final(self).parser.location == old(self).parser.location
                &&& final(self).parser.token_index == old(self).parser.token_index + p.used
                &&& statements_view(final(self).parser.statements) == statements_view(
                    old(self).parser.statements,
                ) + p.statements
                &&& final(self).parse_env@ == p.env
                &&& match r {
                    Ok(count) => p.failure is None && count == p.statements.len(),
                    Err(s) => p.failure == Some(s@.kind) && s.location == grammar::place(
                        final(self).parser.ts(),
                        final(self).parser.at(),
                        s@.kind,
                        final(self).parser.location,
                    ),
                }
            }),
            list_scoped(
                statements_view(final(self).parser.statements),
                old(self).parser.statements.len() as nat,
                old(self).parse_env@,
                old(self).parse_at,
            ),
    {
        self.parser.parse(&mut self.parse_env, self.parse_at)
    }

    /// The statements read so far.
    pub fn statements(&self) -> (r: &Vec<Statement>)
        ensures
            *r == self.parser.statements,
    {
        self.parser.statements()
    }

    /// The token at the parser's position.
    pub fn token(&self) -> (r: Option<&Tkn>)
        requires
            self.wf(),
        ensures
            r is Some == (self.parser.token_index < self.parser.tokens.len()),
            r is Some ==> *r->0 == self.parser.tokens[self.parser.token_index as int],
    {
        self.parser.token()
    }

    /// The kind of the token at the parser's position.
    pub fn token_kind(&self) -> (r: Option<&TknK>)
        requires
            self.wf(),
        ensures
            r is Some == (grammar::kind_at(self.parser.ts(), self.parser.at()) is Some),
            r is Some ==> r->0@ == grammar::kind_at(self.parser.ts(), self.parser.at())->0,
    {
        self.parser.token_kind()
    }

    /// The token `ahead` places behind the parser's position.
    pub fn token_ahead(&self, ahead: usize) -> (r: Option<&Tkn>)
        requires
            self.wf(),
        ensures
            r is Some == (self.parser.token_index + ahead < self.parser.tokens.len()),
            r is Some ==> *r->0 == self.parser.tokens[self.parser.token_index + ahead],
    {
        self.parser.token_ahead(ahead)
    }

    /// The kind of the token `ahead` places behind the parser's
    /// position.
    pub fn token_kind_ahead(&self, ahead: usize) -> (r: Option<&TknK>)
        requires
            self.wf(),
        ensures
            r is Some == (grammar::kind_at(self.parser.ts(), self.parser.at() + ahead as nat)
                is Some),
            r is Some ==> r->0@ == grammar::kind_at(
                self.parser.ts(),
                self.parser.at() + ahead as nat,
            )->0,
    {
        self.parser.token_kind_ahead(ahead)
    }

    /// A diagnostic of the given kind about the end of the text.
    pub fn stumble_here(&self, kind: StumbleKind) -> (r: Stumble)
        ensures
            r.kind == kind,
            r.location == self.parser.location,
    {
        self.parser.stumble_here(kind)
    }

    /// A diagnostic of the given kind about the parser's position.
    pub fn stumble_token(&self, kind: StumbleKind) -> (r: Stumble)
        requires
            self.wf(),
        ensures
            r.kind == kind,
            r.location == grammar::place(
                self.parser.ts(),
                self.parser.at(),
                kind@,
                self.parser.location,
            ),
    {
        self.parser.stumble_token(kind)
    }

    /// Recovers from a refusal: skips tokens up to and including the
    /// next semicolon. Says whether there was one.
    pub fn syncronise(&mut self) -> (r: bool)
        requires
            old(self).wf(),
        ensures
            final(self).wf(),
            r == (grammar::semicolon_from(old(self).parser.ts(), old(self).parser.at()) < old(
                self,
            ).parser.ts().len()),
            final(self).parser.tokens == old(self).parser.tokens,
            final(self).parser.statements == old(self).parser.statements,
            final(self).parser.token_index == (if r {
                grammar::semicolon_from(old(self).parser.ts(), old(self).parser.at()) + 1
            } else {
                old(self).parser.ts().len()
            }),
            final(self).parse_env == old(self).parse_env,
            final(self).interpret_env == old(self).interpret_env,
    {
        self.parser.syncronise()
    }

    /// Reads an expression in the frame that programs are read in.
    pub fn expression(&mut self) -> (r: Result<Expr, Stumble>)
        requires
            old(self).wf(),
        ensures
            final(self).wf(),
            final(self).parse_env == old(self).parse_env,
            final(self).interpret_env == old(self).interpret_env,
            ({
                let step = grammar::expression(
                    old(self).parser.ts(),
                    old(self).parser.at(),
                    old(self).parse_env@,
                    old(self).parse_at,
                );
                &&& final(self).parser.moved(&old(self).parser, step.used)
                &&& match r {
                    Ok(e) => step.result == Ok::<ExprView, StumbleKindView>(e@),
                    Err(s) => step.result == Err::<ExprView, StumbleKindView>(s@.kind)
                        && s.location == grammar::place(
                        final(self).parser.ts(),
                        final(self).parser.at(),
                        s@.kind,
                        final(self).parser.location,
                    ),
                }
            }),
            r is Ok ==> grammar::resolved(r->Ok_0@, old(self).parse_env@, old(self).parse_at),
            r is Ok ==> final(self).parser.token_index > old(self).parser.token_index,
    {
        self.parser.expression(&self.parse_env, self.parse_at)
    }

    /// Reads a primary in the frame that programs are read in: a
    /// literal, a name, or an expression in parentheses. A name takes
    /// up one token and is annotated with the number of enclosing
    /// frames between that frame and the nearest frame that binds it,
    /// or with none where no frame binds it. The scopes stay as they
    /// are.
    pub fn primary(&mut self) -> (r: Result<Expr, Stumble>)
        requires
            old(self).wf(),
        ensures
            final(self).wf(),
            final(self).parse_env == old(self).parse_env,
            final(self).parse_at == old(self).parse_at,
            final(self).interpret_env == old(self).interpret_env,
            ({
                let step = grammar::primary(
                    old(self).parser.ts(),
                    old(self).parser.at(),
                    old(self).parse_env@,
                    old(self).parse_at,
                );
                &&& final(self).parser.moved(&old(self).parser, step.used)
                &&& match r {
                    Ok(e) => step.result == Ok::<ExprView, StumbleKindView>(e@),
                    Err(s) => step.result == Err::<ExprView, StumbleKindView>(s@.kind)
                        && s.location == grammar::place(
                        final(self).parser.ts(),
                        final(self).parser.at(),
                        s@.kind,
                        final(self).parser.location,
                    ),
                }
            }),
            r is Ok ==> grammar::resolved(r->Ok_0@, old(self).parse_env@, old(self).parse_at),
            r is Ok ==> final(self).parser.token_index > old(self).parser.token_index,
            forall|name: Seq<char>|
                grammar::kind_at(old(self).parser.ts(), old(self).parser.at()) == Some(
                    TknKView::Identifier { id: name },
                ) ==> r is Ok && r->Ok_0@ == (ExprView::Identifier {
                    id: IdentifierView {
                        name,
                        offset: Env::resolve(old(self).parse_env@, old(self).parse_at, name),
                    },
                }) && final(self).parser.token_index == old(self).parser.token_index + 1,
    {
        match self.parser.primary(&self.parse_env, self.parse_at) {
            Ok(e) => Ok(e),
            Err(kind) => Err(self.parser.stumble_token(kind)),
        }
    }

    /// Reads an expression in the frame that programs are read in, or
    /// nothing where the expression is refused at a token of the kind
    /// `delimiter`.
    pub fn expression_delimited(&mut self, delimiter: &TknK) -> (r: Result<Expr, Stumble>)
        requires
            old(self).wf(),
        ensures
            final(self).wf(),
            final(self).parse_env == old(self).parse_env,
            final(self).interpret_env == old(self).interpret_env,
            ({
                let step = grammar::expression_delimited(
                    old(self).parser.ts(),
                    old(self).parser.at(),
                    old(self).parse_env@,
                    old(self).parse_at,
                    delimiter@,
                );
                &&& final(self).parser.moved(&old(self).parser, step.used)
                &&& match r {
                    Ok(e) => step.result == Ok::<ExprView, StumbleKindView>(e@),
                    Err(s) => step.result == Err::<ExprView, StumbleKindView>(s@.kind)
                        && s.location == grammar::place(
                        final(self).parser.ts(),
                        final(self).parser.at(),
                        s@.kind,
                        final(self).parser.location,
                    ),
                }
            }),
            r is Ok ==> grammar::resolved(r->Ok_0@, old(self).parse_env@, old(self).parse_at),
    {
        self.parser.expression_delimited(&self.parse_env, self.parse_at, delimiter)
    }

    /// The identifier that an expression is; `InvalidAsignee` for any
    /// other expression.
    pub fn to_identifier(&self, expr: Expr) -> (r: Result<Identifier, Stumble>)
        requires
            self.wf(),
        ensures
            match r {
                Ok(id) => expr@ == (ExprView::Identifier { id: id@ }),
                Err(s) => !(expr@ is Identifier) && s@.kind == StumbleKindView::InvalidAsignee
                    && s.location == grammar::place(
                    self.parser.ts(),
                    self.parser.at(),
                    StumbleKindView::InvalidAsignee,
                    self.parser.location,
                ),
            },
    {
        self.parser.to_identifier(expr)
    }

    /// The identifiers that the expressions are; `InvalidAsignee` where
    /// one of them is no identifier.
    pub fn to_identifiers(&self, expr: Vec<Expr>) -> (r: Result<Vec<Identifier>, Stumble>)
        requires
            self.wf(),
        ensures
            match r {
                Ok(ids) => ids.len() == expr.len() && forall|i: int|
                    0 <= i < expr.len() ==> (#[trigger] expr[i])@ == (ExprView::Identifier {
                        id: ids[i]@,
                    }),
                Err(s) => s@.kind == StumbleKindView::InvalidAsignee && s.location
                    == grammar::place(
                    self.parser.ts(),
                    self.parser.at(),
                    StumbleKindView::InvalidAsignee,
                    self.parser.location,
                ) && exists|i: int| 0 <= i < expr.len() && !((#[trigger] expr[i])@ is Identifier),
            },
    {
        self.parser.to_identifiers(expr)
    }

    /// The identifier that an expression is, as the target of an
    /// assignment; `InvalidAssignTo` for any other expression.
    pub fn get_identifier(expr: Expr) -> (r: Result<Identifier, Stumble>)
        ensures
            match r {
                Ok(id) => expr@ == (ExprView::Identifier { id: id@ }),
                Err(s) => !(expr@ is Identifier) && s@.kind == StumbleKindView::InvalidAssignTo
                    && s.location == (Location { col: 0, line: 0 }),
            },
    {
        match expr {
            Expr::Identifier { id } => Ok(id),
            _ => Err(at_runtime(StumbleKind::InvalidAssignTo)),
        }
    }

    /// Evaluates an expression in the frame `at`. Output goes to
    /// `base`, and each call and each loop round takes one of its
    /// steps. A diagnostic of evaluation is about no position.
    pub fn eval(expr: &Expr, env: &mut Env, at: EnvHandle, base: &mut Base) -> (r: Result<
        ExprB,
        Stumble,
    >)
        requires
            old(env).wf(),
            at < old(env)@.len(),
        ensures
            went(
                semantics::eval(expr@, at, world(old(env)@, old(base))),
                old(base),
                final(env)@,
                final(base),
            ),
            match r {
                Ok(v) => semantics::eval(expr@, at, world(old(env)@, old(base))).result == Ok::<
                    Value,
                    StumbleKindView,
                >(v@),
                Err(s) => semantics::eval(expr@, at, world(old(env)@, old(base))).result == Err::<
                    Value,
                    StumbleKindView,
                >(s@.kind) && s.location == (Location { col: 0, line: 0 }),
            },
            final(env).wf(),
            Env::extends(old(env)@, final(env)@),
            Env::keeps_names(old(env)@, final(env)@),
    {
        match Self::eval_kind(expr, env, at, base) {
            Ok(v) => Ok(v),
            Err(kind) => Err(at_runtime(kind)),
        }
    }

    /// Evaluates an expression that must give a boolean:
    /// `ConflictingSubexpression` where it gives another value.
    pub fn eval_boolean(expr: &Expr, env: &mut Env, at: EnvHandle, base: &mut Base) -> (r: Result<
        bool,
        Stumble,
    >)
        requires
            old(env).wf(),
            at < old(env)@.len(),
        ensures
            went(
                semantics::eval(expr@, at, world(old(env)@, old(base))),
                old(base),
                final(env)@,
                final(base),
            ),
            match (semantics::eval(expr@, at, world(old(env)@, old(base))).result, r) {
                (Ok(Value::Boolean { b }), Ok(found)) => found == b,
                (Ok(v), Err(s)) => !(v is Boolean) && s@.kind
                    == StumbleKindView::ConflictingSubexpression,
                (Err(kind), Err(s)) => s@.kind == kind,
                _ => false,
            },
            final(env).wf(),
            Env::extends(old(env)@, final(env)@),
            Env::keeps_names(old(env)@, final(env)@),
    {
        match Self::eval_kind(expr, env, at, base) {
            Ok(ExprB::Boolean { b }) => Ok(b),
            Ok(_) => Err(at_runtime(StumbleKind::ConflictingSubexpression)),
            Err(kind) => Err(at_runtime(kind)),
        }
    }

    /// Evaluates an expression that must give a number, or a string
    /// that reads as one: `ConflictingSubexpression` where it gives
    /// another value.
    pub fn eval_numeric(expr: &Expr, env: &mut Env, at: EnvHandle, base: &mut Base) -> (r: Result<
        u64,
        Stumble,
    >)
        requires
            old(env).wf(),
            at < old(env)@.len(),
        ensures
            went(
                semantics::eval(expr@, at, world(old(env)@, old(base))),
                old(base),
                final(env)@,
                final(base),
            ),
            match (semantics::eval(expr@, at, world(old(env)@, old(base))).result, r) {
                (Ok(v), Ok(n)) => semantics::number_of(v) == Some(n),
                (Ok(v), Err(s)) => semantics::number_of(v) is None && s@.kind
                    == StumbleKindView::ConflictingSubexpression,
                (Err(kind), Err(s)) => s@.kind == kind,
                _ => false,
            },
            final(env).wf(),
            Env::extends(old(env)@, final(env)@),
            Env::keeps_names(old(env)@, final(env)@),
    {
        match Self::eval_kind(expr, env, at, base) {
            Ok(v) => match number_value(&v) {
                Some(n) => Ok(n),
                None => Err(at_runtime(StumbleKind::ConflictingSubexpression)),
            },
            Err(kind) => Err(at_runtime(kind)),
        }
    }

    /// Evaluates an expression that must give a string:
    /// `ConflictingSubexpression` where it gives another value.
    pub fn eval_string(expr: &Expr, env: &mut Env, at: EnvHandle, base: &mut Base) -> (r: Result<
        String,
        Stumble,
    >)
        requires
            old(env).wf(),
            at < old(env)@.len(),
        ensures
            went(
                semantics::eval(expr@, at, world(old(env)@, old(base))),
                old(base),
                final(env)@,
                final(base),
            ),
            match (semantics::eval(expr@, at, world(old(env)@, old(base))).result, r) {
                (Ok(Value::String { s }), Ok(found)) => found@ == s,
                (Ok(v), Err(s)) => !(v is String) && s@.kind
                    == StumbleKindView::ConflictingSubexpression,
                (Err(kind), Err(s)) => s@.kind == kind,
                _ => false,
            },
            final(env).wf(),
            Env::extends(old(env)@, final(env)@),
            Env::keeps_names(old(env)@, final(env)@),
    {
        match Self::eval_kind(expr, env, at, base) {
            Ok(ExprB::String { s }) => Ok(s),
            Ok(_) => Err(at_runtime(StumbleKind::ConflictingSubexpression)),
            Err(kind) => Err(at_runtime(kind)),
        }
    }

    /// Runs a statement in the frame `at`: how control goes on behind
    /// it, and its value. Every frame that the statement leaves behind
    /// in the table is held by a function, or stands before a frame
    /// that is. Only the frame `at` can come to bind a name that it did
    /// not bind, and not even that frame where the statement is a block
    /// or a loop.
    pub fn interpret(statement: &Statement, env: &mut Env, at: EnvHandle, base: &mut Base) -> (r:
        Result<(Control, ExprB), Stumble>)
        requires
            old(env).wf(),
            at < old(env)@.len(),
        ensures
            went(
                semantics::interpret(statement@, at, world(old(env)@, old(base))),
                old(base),
                final(env)@,
                final(base),
            ),
            match r {
                Ok((control, v)) => semantics::interpret(
                    statement@,
                    at,
                    world(old(env)@, old(base)),
                ).result == Ok::<(Control, Value), StumbleKindView>((control, v@)),
                Err(s) => semantics::interpret(
                    statement@,
                    at,
                    world(old(env)@, old(base)),
                ).result == Err::<(Control, Value), StumbleKindView>(s@.kind) && s.location == (
                Location { col: 0, line: 0 }),
            },
            final(env).wf(),
            Env::extends(old(env)@, final(env)@),
            Env::keeps_names_but(old(env)@, final(env)@, at),
            statement@ is Block || statement@ is Loop || statement@ is While ==> Env::keeps_names(
                old(env)@,
                final(env)@,
            ),
    {
        match Self::interpret_kind(statement, env, at, base) {
            Ok(flow) => Ok(flow),
            Err(kind) => Err(at_runtime(kind)),
        }
    }

    /// Runs all statements read so far, in order, up to the first that
    /// fails.
    pub fn interpret_all(&mut self, base: &mut Base) -> (r: Result<(), Stumble>)
        requires
            old(self).wf(),
        ensures
            final(self).wf(),
            final(self).source == old(self).source,
            final(self).scanner == old(self).scanner,
            final(self).parser == old(self).parser,
            final(self).parse_env == old(self).parse_env,
            final(self).parse_at == old(self).parse_at,
            final(self).interpret_at == old(self).interpret_at,
            Env::extends(old(self).interpret_env@, final(self).interpret_env@),
            Env::keeps_names_but(
                old(self).interpret_env@,
                final(self).interpret_env@,
                old(self).interpret_at,
            ),
            ({
                let o = run_all(
                    statements_view(old(self).parser.statements),
                    0,
                    old(self).interpret_at,
                    world(old(self).interpret_env@, old(base)),
                );
                &&& went(o, old(base), final(self).interpret_env@, final(base))
                &&& match r {
                    Ok(()) => o.result is Ok,
                    Err(s) => o.result == Err::<(), StumbleKindView>(s@.kind) && s.location == (
                    Location { col: 0, line: 0 }),
                }
            }),
    {
        let mut i: usize = 0;
        let ghost list = statements_view(self.parser.statements);
        let ghost start = world(self.interpret_env@, base);
        while i < self.parser.statements.len()
            invariant
                self.wf(),
                i <= self.parser.statements.len(),
                self.source == old(self).source,
                self.scanner == old(self).scanner,
                self.parser == old(self).parser,
                self.parse_env == old(self).parse_env,
                self.parse_at == old(self).parse_at,
                self.interpret_at == old(self).interpret_at,
                Env::extends(old(self).interpret_env@, self.interpret_env@),
                Env::keeps_names_but(
                    old(self).interpret_env@,
                    self.interpret_env@,
                    old(self).interpret_at,
                ),
                list == statements_view(old(self).parser.statements),
                start == world(old(self).interpret_env@, old(base)),
                base.steps <= old(base).steps,
                ({
                    let whole = run_all(list, 0, self.interpret_at, start);
                    let rest = run_all(
                        list,
                        i as nat,
                        self.interpret_at,
                        world(self.interpret_env@, base),
                    );
                    &&& whole.result == rest.result
                    &&& whole.env == rest.env
                    &&& whole.out == rest.out
                    &&& whole.spent == (old(base).steps - base.steps) + rest.spent
                }),
            decreases self.parser.statements.len() - i,
        {
            assert(list[i as int] == self.parser.statements[i as int]@);
            match Self::interpret_kind(
                &self.parser.statements[i],
                &mut self.interpret_env,
                self.interpret_at,
                base,
            ) {
                Ok(_) => {},
                Err(kind) => {
                    return Err(at_runtime(kind));
                },
            }
            i += 1;
        }
        Ok(())
    }

    /// Runs the statement with the given number.
    pub fn interpret_index(&mut self, base: &mut Base, index: usize) -> (r: Result<(), Stumble>)
        requires
            old(self).wf(),
            index < old(self).parser.statements.len(),
        ensures
            final(self).wf(),
            final(self).source == old(self).source,
            final(self).scanner == old(self).scanner,
            final(self).parser == old(self).parser,
            final(self).parse_env == old(self).parse_env,
            final(self).parse_at == old(self).parse_at,
            final(self).interpret_at == old(self).interpret_at,
            Env::extends(old(self).interpret_env@, final(self).interpret_env@),
            Env::keeps_names_but(
                old(self).interpret_env@,
                final(self).interpret_env@,
                old(self).interpret_at,
            ),
            ({
                let o = semantics::interpret(
                    old(self).parser.statements[index as int]@,
                    old(self).interpret_at,
                    world(old(self).interpret_env@, old(base)),
                );
                &&& went(o, old(base), final(self).interpret_env@, final(base))
                &&& match r {
                    Ok(()) => o.result is Ok,
                    Err(s) => o.result == Err::<(Control, Value), StumbleKindView>(s@.kind)
                        && s.location == (Location { col: 0, line: 0 }),
                }
            }),
    {
        match Self::interpret_kind(
            &self.parser.statements[index],
            &mut self.interpret_env,
            self.interpret_at,
            base,
        ) {
            Ok(_) => Ok(()),
            Err(kind) => Err(at_runtime(kind)),
        }
    }

    /// Shows a diagnostic: writes to the sink what went wrong and
    /// where, and under it the line of the source that it is about.
    pub fn handle_stumble(&self, stumble: &Stumble, base: &mut Base)
        requires
            self.wf(),
        ensures
            final(base).stdio@ == old(base).stdio@ + report(self.source@, stumble@),
            final(base).steps == old(base).steps,
    {
        let line = stumble.location.line;
        let start = self.find_line(line);
        let end = self.find_line_end(start);
        base.stdio.append("Error on line ");
        push_decimal(&mut base.stdio, line);
        base.stdio.append(" at column ");
        push_decimal(&mut base.stdio, stumble.location.col);
        base.stdio.append(": ");
        base.stdio.append(stumble.kind.describe().as_str());
        base.stdio.append("\n> ");
        push_chars(&mut base.stdio, &self.source, start, end);
        base.stdio.append("\n");
        assert(base.stdio@ =~= old(base).stdio@ + report(self.source@, stumble@));
    }

    /// Where the line with the given number starts in the source.
    fn find_line(&self, line: usize) -> (r: usize)
        requires
            self.wf(),
        ensures
            r == line_start(self.source@, line as nat),
            r <= self.source.len(),
    {
        if line < self.line_breaks.len() {
            self.line_breaks[line]
        } else {
            self.source.len()
        }
    }

    /// Where the line that starts at `from` ends.
    fn find_line_end(&self, from: usize) -> (r: usize)
        requires
            from <= self.source.len(),
        ensures
            r == from + line_rest(self.source@, from as nat),
            from <= r <= self.source.len(),
    {
        let mut i: usize = from;
        while i < self.source.len() && self.source[i] != '\n'
            invariant
                from <= i <= self.source.len(),
                from + line_rest(self.source@, from as nat) == i + line_rest(
                    self.source@,
                    i as nat,
                ),
            decreases self.source.len() - i,
        {
            i += 1;
        }
        i
    }
}

} // verus!
