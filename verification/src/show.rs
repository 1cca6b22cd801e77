//! Expressions and values written out as text.

use crate::ast::{
    exprs_view, Expr, ExprB, ExprView, Identifier, IdentifierView, OpOne, OpTwo, Value,
};
use crate::err::EvalErr;
use crate::evaluation::{display, number_value};
use crate::semantics;
use crate::text::{decimal_digits, push_decimal};
use vstd::prelude::*;

verus! {

/// An operator with one operand as it is written.
pub open spec fn op_one_text(op: OpOne) -> Seq<char> {
    match op {
        OpOne::Bang => "!"@,
        OpOne::Minus => "-"@,
    }
}

/// An operator with two operands as it is written.
pub open spec fn op_two_text(op: OpTwo) -> Seq<char> {
    match op {
        OpTwo::Eq => "=="@,
        OpTwo::Neq => "!="@,
        OpTwo::Lt => "<"@,
        OpTwo::Leq => "<="@,
        OpTwo::Gt => ">"@,
        OpTwo::Geq => ">="@,
        OpTwo::Plus => "+"@,
        OpTwo::Minus => "-"@,
        OpTwo::Star => "*"@,
        OpTwo::Slash => "/"@,
    }
}

/// A name and, in brackets, its offset, or `-` where it has none.
pub open spec fn identifier_text(id: IdentifierView) -> Seq<char> {
    id.name + "["@ + (match id.offset {
        Some(k) => decimal_digits(k as nat),
        None => "-"@,
    }) + "]"@
}

/// An expression in prefix notation: an operator stands in front of its
/// operands, and all three stand in parentheses.
pub open spec fn expr_text(e: ExprView) -> Seq<char>
    decreases e, 0nat,
{
    match e {
        ExprView::Empty => "nil"@,
        ExprView::Basic(v) => semantics::display(v),
        ExprView::Identifier { id } => identifier_text(id),
        ExprView::Assignment { id, e } => expr_text(*id) + " = "@ + expr_text(*e),
        ExprView::Grouping { e } => "(group "@ + expr_text(*e) + ")"@,
        ExprView::Unary { op, e } => "("@ + op_one_text(op) + " "@ + expr_text(*e) + ")"@,
        ExprView::Binary { op, a, b } => "("@ + op_two_text(op) + " "@ + expr_text(*a) + " "@
            + expr_text(*b) + ")"@,
        ExprView::Or { a, b } => "(OR "@ + expr_text(*a) + " "@ + expr_text(*b) + ")"@,
        ExprView::And { a, b } => "(AND "@ + expr_text(*a) + " "@ + expr_text(*b) + ")"@,
        ExprView::Call { caller, args } => expr_text(*caller) + "("@ + args_text(args, 0) + ")"@,
    }
}

/// The expressions from the `from`th on, with `, ` between them.
pub open spec fn args_text(args: Seq<ExprView>, from: nat) -> Seq<char>
    decreases args, args.len() - from,
{
    if from >= args.len() {
        Seq::empty()
    } else if from + 1 == args.len() {
        expr_text(args[from as int])
    } else {
        expr_text(args[from as int]) + ", "@ + args_text(args, from + 1)
    }
}

/// An operator with one operand as it is written.
fn op_one_str(op: OpOne) -> (r: &'static str)
    ensures
        r@ == op_one_text(op),
{
    match op {
        OpOne::Bang => "!",
        OpOne::Minus => "-",
    }
}

/// An operator with two operands as it is written.
fn op_two_str(op: OpTwo) -> (r: &'static str)
    ensures
        r@ == op_two_text(op),
{
    match op {
        OpTwo::Eq => "==",
        OpTwo::Neq => "!=",
        OpTwo::Lt => "<",
        OpTwo::Leq => "<=",
        OpTwo::Gt => ">",
        OpTwo::Geq => ">=",
        OpTwo::Plus => "+",
        OpTwo::Minus => "-",
        OpTwo::Star => "*",
        OpTwo::Slash => "/",
    }
}

impl OpOne {
    /// The operator as it is written.
    pub fn display(&self) -> (r: String)
        ensures
            r@ == op_one_text(*self),
    {
        String::from_str(op_one_str(*self))
    }
}

impl OpTwo {
    /// The operator as it is written.
    pub fn display(&self) -> (r: String)
        ensures
            r@ == op_two_text(*self),
    {
        String::from_str(op_two_str(*self))
    }
}

impl Identifier {
    /// The identifier written out.
    pub fn display(&self) -> (r: String)
        ensures
            r@ == identifier_text(self@),
    {
        let mut out = self.name.clone();
        out.append("[");
        match self.offset {
            Some(k) => push_decimal(&mut out, k),
            None => out.append("-"),
        }
        out.append("]");
        out
    }
}

/// Adds an expression, written out, to a text.
#[verifier::spinoff_prover]
#[verifier::rlimit(50)]
fn write_expr(e: &Expr, out: &mut String)
    ensures
        final(out)@ == old(out)@ + expr_text(e@),
    decreases e, 0nat,
{
    match e {
        Expr::Empty => {
            out.append("nil");
        },
        Expr::Basic(v) => {
            out.append(display(v).as_str());
        },
        Expr::Identifier { id } => {
            out.append(id.display().as_str());
        },
        Expr::Assignment { id, e: value } => {
            write_expr(id, out);
            out.append(" = ");
            write_expr(value, out);
            assert(out@ =~= old(out)@ + expr_text(e@));
        },
        Expr::Grouping { e: inner } => {
            out.append("(group ");
            write_expr(inner, out);
            out.append(")");
            assert(out@ =~= old(out)@ + expr_text(e@));
        },
        Expr::Unary { op, e: inner } => {
            out.append("(");
            out.append(op_one_str(*op));
            out.append(" ");
            write_expr(inner, out);
            out.append(")");
            assert(out@ =~= old(out)@ + expr_text(e@));
        },
        Expr::Binary { op, a, b } => {
            out.append("(");
            out.append(op_two_str(*op));
            out.append(" ");
            write_expr(a, out);
            out.append(" ");
            write_expr(b, out);
            out.append(")");
            assert(out@ =~= old(out)@ + expr_text(e@));
        },
        Expr::Or { a, b } => {
            out.append("(OR ");
            write_expr(a, out);
            out.append(" ");
            write_expr(b, out);
            out.append(")");
            assert(out@ =~= old(out)@ + expr_text(e@));
        },
        Expr::And { a, b } => {
            out.append("(AND ");
            write_expr(a, out);
            out.append(" ");
            write_expr(b, out);
            out.append(")");
            assert(out@ =~= old(out)@ + expr_text(e@));
        },
        Expr::Call { caller, args } => {
            write_expr(caller, out);
            out.append("(");
            write_args(args, 0, out);
            out.append(")");
            assert(out@ =~= old(out)@ + expr_text(e@));
        },
    }
}

/// Adds the expressions from the `from`th on, with `, ` between them,
/// to a text.
fn write_args(args: &Vec<Expr>, from: usize, out: &mut String)
    ensures
        final(out)@ == old(out)@ + args_text(exprs_view(*args), from as nat),
    decreases args, args.len() - from,
{
    if from >= args.len() {
        assert(out@ =~= old(out)@ + args_text(exprs_view(*args), from as nat));
        return ;
    }
    assert(exprs_view(*args)[from as int] == args[from as int]@);
    write_expr(&args[from], out);
    if from + 1 < args.len() {
        out.append(", ");
        write_args(args, from + 1, out);
        assert(out@ =~= old(out)@ + args_text(exprs_view(*args), from as nat));
    }
}

impl Expr {
    /// The expression written out in prefix notation.
    pub fn display(&self) -> (r: String)
        ensures
            r@ == expr_text(self@),
    {
        let mut out = String::new();
        write_expr(self, &mut out);
        assert(out@ =~= expr_text(self@));
        out
    }
}

impl ExprB {
    /// The value written out as `print` writes it.
    pub fn display(&self) -> (r: String)
        ensures
            r@ == semantics::display(self@),
    {
        display(self)
    }

    /// The value as a boolean: `false` for `nil` and `false`, `true`
    /// for every other value.
    pub fn to_boolean(self) -> (r: Result<ExprB, EvalErr>)
        ensures
            r is Ok,
            r->Ok_0@ == (Value::Boolean { b: ExprB::truthy(self@) }),
    {
        Ok(ExprB::mk_bool(self.is_truthy()))
    }

    /// The value as a number: a number itself, and what a string reads
    /// as; `InvalidConversion` for a string that does not read as a
    /// number and for every other value.
    pub fn to_numeric(self) -> (r: Result<ExprB, EvalErr>)
        ensures
            match r {
                Ok(v) => semantics::number_of(self@) == Some(v@->Numeric_n) && v@ is Numeric,
                Err(e) => semantics::number_of(self@) is None && e is InvalidConversion,
            },
    {
        match number_value(&self) {
            Some(n) => Ok(ExprB::mk_numeric(n)),
            None => Err(EvalErr::InvalidConversion),
        }
    }

    /// The value as a string: a string itself, and a boolean or a
    /// number written out; `InvalidConversion` for `nil` and for a
    /// function.
    pub fn to_string(self) -> (r: Result<ExprB, EvalErr>)
        ensures
            match r {
                Ok(v) => (self@ is Boolean || self@ is Numeric || self@ is String) && v@ == (
                Value::String { s: semantics::display(self@) }),
                Err(e) => (self@ is Nil || self@ is Lambda) && e is InvalidConversion,
            },
    {
        match &self {
            ExprB::Nil => Err(EvalErr::InvalidConversion),
            ExprB::Lambda { .. } => Err(EvalErr::InvalidConversion),
            _ => Ok(ExprB::mk_string(display(&self))),
        }
    }
}

} // verus!
