//! The syntax tree: identifiers, operators, values, expressions and
//! statements, each with the mathematical value that contracts speak of.

use vstd::prelude::*;

verus! {

/// A handle on one frame of an environment.
pub type EnvHandle = usize;

/// A name together with the number of enclosing frames to walk to reach
/// its declaration: `Some(0)` is the current frame, `None` is unresolved.
#[derive(Debug, Clone, PartialEq, Eq, Hash)]
pub struct Identifier {
    pub name: String,
    pub offset: Option<usize>,
}

/// The mathematical value of an [`Identifier`].
pub struct IdentifierView {
    pub name: Seq<char>,
    pub offset: Option<usize>,
}

impl View for Identifier {
    type V = IdentifierView;

    open spec fn view(&self) -> IdentifierView {
        IdentifierView { name: self.name@, offset: self.offset }
    }
}

impl Identifier {
    /// An identifier with the given name and offset.
    pub fn fresh(name: String, offset: Option<usize>) -> (r: Self)
        ensures
            r.name == name,
            r.offset == offset,
    {
        Identifier { name, offset }
    }

    /// The name.
    pub fn name(&self) -> (r: &String)
        ensures
            *r == self.name,
    {
        &self.name
    }

    /// How many enclosing frames to walk to the declaration, if the
    /// name was resolved.
    pub fn offset(&self) -> (r: Option<usize>)
        ensures
            r == self.offset,
    {
        self.offset
    }

    /// A copy of the identifier.
    pub fn duplicate(&self) -> (r: Self)
        ensures
            r@ == self@,
    {
        Identifier { name: self.name.clone(), offset: self.offset }
    }
}

/// How control goes on behind a statement: with the next statement, out
/// of the nearest loop, or out of the function that is being called.
#[derive(Debug, Clone, Copy, PartialEq, Eq, Structural)]
pub enum Control {
    Break,
    Proceed,
    Return,
}

/// The operators that take one operand.
#[derive(Debug, Clone, Copy, PartialEq, Eq, Structural)]
pub enum OpOne {
    Minus,
    Bang,
}

/// The operators that take two operands and always evaluate both.
#[derive(Debug, Clone, Copy, PartialEq, Eq, Structural)]
pub enum OpTwo {
    Eq,
    Neq,
    Lt,
    Leq,
    Gt,
    Geq,
    Plus,
    Minus,
    Star,
    Slash,
}

/// A value: what an expression evaluates to, and what a literal holds.
/// A number is held as the bit pattern of a double.
///
/// `==` on values is the derived one and compares what is held: two
/// numbers are equal where their bit patterns are. So a NaN equals
/// itself, and the two zeros differ. The language's own equality, which
/// has it the other way round for both, is
/// [`crate::evaluation::same_values`].
#[derive(Debug, PartialEq)]
pub enum ExprB {
    Nil,
    Boolean { b: bool },
    Numeric { n: u64 },
    String { s: String },
    Lambda { env: EnvHandle, params: Vec<Identifier>, body: Vec<Statement> },
}

#[derive(Debug, PartialEq)]
/// An expression.
pub enum Expr {
    Empty,
    Basic(ExprB),
    Identifier { id: Identifier },
    Assignment { id: Box<Expr>, e: Box<Expr> },
    Unary { op: OpOne, e: Box<Expr> },
    Binary { op: OpTwo, a: Box<Expr>, b: Box<Expr> },
    Or { a: Box<Expr>, b: Box<Expr> },
    And { a: Box<Expr>, b: Box<Expr> },
    Grouping { e: Box<Expr> },
    Call { caller: Box<Expr>, args: Vec<Expr> },
}

#[derive(Debug, PartialEq)]
/// A statement.
pub enum Statement {
    Assignment { id: Expr, e: Expr },
    Block { statements: Vec<Statement> },
    Break,
    Conditional { condition: Expr, case_if: Box<Statement>, case_else: Option<Box<Statement>> },
    Declaration { id: Identifier, e: Expr },
    Empty,
    Expression { e: Expr },
    Function { id: Identifier, parameters: Vec<Identifier>, body: Vec<Statement> },
    Print { e: Expr },
    Return { expr: Expr },
    While { condition: Expr, body: Vec<Statement> },
    Loop { statements: Vec<Statement> },
}

/// A list of statements.
pub type Statements = Vec<Statement>;

/// The mathematical value of an [`ExprB`].
pub enum Value {
    Nil,
    Boolean { b: bool },
    Numeric { n: u64 },
    String { s: Seq<char> },
    Lambda { env: EnvHandle, params: Seq<IdentifierView>, body: Seq<StatementView> },
}

/// The mathematical value of an [`Expr`].
pub enum ExprView {
    Empty,
    Basic(Value),
    Identifier { id: IdentifierView },
    Assignment { id: Box<ExprView>, e: Box<ExprView> },
    Unary { op: OpOne, e: Box<ExprView> },
    Binary { op: OpTwo, a: Box<ExprView>, b: Box<ExprView> },
    Or { a: Box<ExprView>, b: Box<ExprView> },
    And { a: Box<ExprView>, b: Box<ExprView> },
    Grouping { e: Box<ExprView> },
    Call { caller: Box<ExprView>, args: Seq<ExprView> },
}

/// The mathematical value of a [`Statement`].
pub enum StatementView {
    Assignment { id: ExprView, e: ExprView },
    Block { statements: Seq<StatementView> },
    Break,
    Conditional {
        condition: ExprView,
        case_if: Box<StatementView>,
        case_else: Option<Box<StatementView>>,
    },
    Declaration { id: IdentifierView, e: ExprView },
    Empty,
    Expression { e: ExprView },
    Function { id: IdentifierView, parameters: Seq<IdentifierView>, body: Seq<StatementView> },
    Print { e: ExprView },
    Return { expr: ExprView },
    While { condition: ExprView, body: Seq<StatementView> },
    Loop { statements: Seq<StatementView> },
}

/// The values of the identifiers of a vector, in order.
pub open spec fn identifiers_view(v: Vec<Identifier>) -> Seq<IdentifierView> {
    Seq::new(v.len() as nat, |i: int| v[i]@)
}

/// The mathematical value of a value.
pub open spec fn value_view(v: ExprB) -> Value
    decreases v,
{
    match v {
        ExprB::Nil => Value::Nil,
        ExprB::Boolean { b } => Value::Boolean { b },
        ExprB::Numeric { n } => Value::Numeric { n },
        ExprB::String { s } => Value::String { s: s@ },
        ExprB::Lambda { env, params, body } => Value::Lambda {
            env,
            params: identifiers_view(params),
            body: statements_view(body),
        },
    }
}

/// The mathematical value of an expression.
pub open spec fn expr_view(e: Expr) -> ExprView
    decreases e,
{
    match e {
        Expr::Empty => ExprView::Empty,
        Expr::Basic(v) => ExprView::Basic(value_view(v)),
        Expr::Identifier { id } => ExprView::Identifier { id: id@ },
        Expr::Assignment { id, e } => ExprView::Assignment {
            id: Box::new(expr_view(*id)),
            e: Box::new(expr_view(*e)),
        },
        Expr::Unary { op, e } => ExprView::Unary { op, e: Box::new(expr_view(*e)) },
        Expr::Binary { op, a, b } => ExprView::Binary {
            op,
            a: Box::new(expr_view(*a)),
            b: Box::new(expr_view(*b)),
        },
        Expr::Or { a, b } => ExprView::Or {
            a: Box::new(expr_view(*a)),
            b: Box::new(expr_view(*b)),
        },
        Expr::And { a, b } => ExprView::And {
            a: Box::new(expr_view(*a)),
            b: Box::new(expr_view(*b)),
        },
        Expr::Grouping { e } => ExprView::Grouping { e: Box::new(expr_view(*e)) },
        Expr::Call { caller, args } => ExprView::Call {
            caller: Box::new(expr_view(*caller)),
            args: exprs_view(args),
        },
    }
}

/// The values of the expressions of a vector, in order.
pub open spec fn exprs_view(v: Vec<Expr>) -> Seq<ExprView>
    decreases v,
{
    Seq::new(
        v.len() as nat,
        |i: int|
            if 0 <= i < v.len() {
                expr_view(v[i])
            } else {
                ExprView::Empty
            },
    )
}

/// The mathematical value of a statement.
pub open spec fn statement_view(s: Statement) -> StatementView
    decreases s,
{
    match s {
        Statement::Assignment { id, e } => StatementView::Assignment {
            id: expr_view(id),
            e: expr_view(e),
        },
        Statement::Block { statements } => StatementView::Block {
            statements: statements_view(statements),
        },
        Statement::Break => StatementView::Break,
        Statement::Conditional { condition, case_if, case_else } => StatementView::Conditional {
            condition: expr_view(condition),
            case_if: Box::new(statement_view(*case_if)),
            case_else: match case_else {
                Some(other) => Some(Box::new(statement_view(*other))),
                None => None,
            },
        },
        Statement::Declaration { id, e } => StatementView::Declaration { id: id@, e: expr_view(e) },
        Statement::Empty => StatementView::Empty,
        Statement::Expression { e } => StatementView::Expression { e: expr_view(e) },
        Statement::Function { id, parameters, body } => StatementView::Function {
            id: id@,
            parameters: identifiers_view(parameters),
            body: statements_view(body),
        },
        Statement::Print { e } => StatementView::Print { e: expr_view(e) },
        Statement::Return { expr } => StatementView::Return { expr: expr_view(expr) },
        Statement::While { condition, body } => StatementView::While {
            condition: expr_view(condition),
            body: statements_view(body),
        },
        Statement::Loop { statements } => StatementView::Loop {
            statements: statements_view(statements),
        },
    }
}

/// The values of the statements of a vector, in order.
pub open spec fn statements_view(v: Vec<Statement>) -> Seq<StatementView>
    decreases v,
{
    Seq::new(
        v.len() as nat,
        |i: int|
            if 0 <= i < v.len() {
                statement_view(v[i])
            } else {
                StatementView::Empty
            },
    )
}

impl View for ExprB {
    type V = Value;

    open spec fn view(&self) -> Value {
        value_view(*self)
    }
}

impl View for Expr {
    type V = ExprView;

    open spec fn view(&self) -> ExprView {
        expr_view(*self)
    }
}

impl View for Statement {
    type V = StatementView;

    open spec fn view(&self) -> StatementView {
        statement_view(*self)
    }
}

/// The views of a vector's statements are those of its elements.
pub proof fn lemma_statements_view(v: Vec<Statement>)
    ensures
        statements_view(v).len() == v.len(),
        forall|i: int| 0 <= i < v.len() ==> #[trigger] statements_view(v)[i] == v[i]@,
{
}

/// A copy of a list of identifiers.
pub fn duplicate_identifiers(v: &Vec<Identifier>) -> (r: Vec<Identifier>)
    ensures
        identifiers_view(r) == identifiers_view(*v),
{
    let mut out: Vec<Identifier> = Vec::new();
    let mut i: usize = 0;
    while i < v.len()
        invariant
            i <= v.len(),
            out.len() == i,
            forall|j: int| 0 <= j < i ==> (#[trigger] out[j])@ == v[j]@,
        decreases v.len() - i,
    {
        out.push(v[i].duplicate());
        i += 1;
    }
    assert(identifiers_view(out) =~= identifiers_view(*v));
    out
}

/// A copy of a list of expressions.
pub fn duplicate_exprs(v: &Vec<Expr>) -> (r: Vec<Expr>)
    ensures
        exprs_view(r) == exprs_view(*v),
    decreases v,
{
    let mut out: Vec<Expr> = Vec::new();
    let mut i: usize = 0;
    while i < v.len()
        invariant
            i <= v.len(),
            out.len() == i,
            forall|j: int| 0 <= j < i ==> (#[trigger] out[j])@ == v[j]@,
        decreases v.len() - i,
    {
        out.push(v[i].duplicate());
        i += 1;
    }
    assert(exprs_view(out) =~= exprs_view(*v));
    out
}

/// A copy of a list of statements.
pub fn duplicate_statements(v: &Vec<Statement>) -> (r: Vec<Statement>)
    ensures
        statements_view(r) == statements_view(*v),
    decreases v,
{
    let mut out: Vec<Statement> = Vec::new();
    let mut i: usize = 0;
    while i < v.len()
        invariant
            i <= v.len(),
            out.len() == i,
            forall|j: int| 0 <= j < i ==> (#[trigger] out[j])@ == v[j]@,
        decreases v.len() - i,
    {
        out.push(v[i].duplicate());
        i += 1;
    }
    assert(statements_view(out) =~= statements_view(*v));
    out
}

impl ExprB {
    /// Whether the value counts as true: everything but `nil` and `false`.
    pub open spec fn truthy(v: Value) -> bool {
        match v {
            Value::Nil => false,
            Value::Boolean { b } => b,
            _ => true,
        }
    }

    /// Whether the value counts as true.
    pub fn is_truthy(&self) -> (r: bool)
        ensures
            r == Self::truthy(self@),
    {
        match self {
            Self::Numeric { .. } => true,
            Self::String { .. } => true,
            Self::Lambda { .. } => true,
            Self::Boolean { b } => *b,
            Self::Nil => false,
        }
    }

    /// Whether the value counts as false.
    pub fn is_falsey(&self) -> (r: bool)
        ensures
            r == !Self::truthy(self@),
    {
        !self.is_truthy()
    }

    /// The value `nil`.
    pub fn mk_nil() -> (r: ExprB)
        ensures
            r@ == Value::Nil,
    {
        Self::Nil
    }

    /// A boolean.
    pub fn mk_bool(b: bool) -> (r: ExprB)
        ensures
            r@ == (Value::Boolean { b }),
    {
        Self::Boolean { b }
    }

    /// A number, given as the bit pattern of a double.
    pub fn mk_numeric(n: u64) -> (r: ExprB)
        ensures
            r@ == (Value::Numeric { n }),
    {
        Self::Numeric { n }
    }

    /// A string.
    pub fn mk_string(s: String) -> (r: ExprB)
        ensures
            r@ == (Value::String { s: s@ }),
    {
        Self::String { s }
    }

    /// A copy of the value.
    pub fn duplicate(&self) -> (r: Self)
        ensures
            r@ == self@,
        decreases self,
    {
        match self {
            ExprB::Nil => ExprB::Nil,
            ExprB::Boolean { b } => ExprB::Boolean { b: *b },
            ExprB::Numeric { n } => ExprB::Numeric { n: *n },
            ExprB::String { s } => ExprB::String { s: s.clone() },
            ExprB::Lambda { env, params, body } => ExprB::Lambda {
                env: *env,
                params: duplicate_identifiers(params),
                body: duplicate_statements(body),
            },
        }
    }
}

impl Expr {
    /// `id = to`
    pub fn mk_assignment(id: Expr, to: Expr) -> (r: Self)
        ensures
            r@ == (ExprView::Assignment { id: Box::new(id@), e: Box::new(to@) }),
    {
        Expr::Assignment { id: Box::new(id), e: Box::new(to) }
    }

    /// `a op b`
    pub fn mk_binary(op: OpTwo, a: Expr, b: Expr) -> (r: Self)
        ensures
            r@ == (ExprView::Binary { op, a: Box::new(a@), b: Box::new(b@) }),
    {
        Expr::Binary { op, a: Box::new(a), b: Box::new(b) }
    }

    /// `op a`
    pub fn mk_unary(op: OpOne, a: Expr) -> (r: Self)
        ensures
            r@ == (ExprView::Unary { op, e: Box::new(a@) }),
    {
        Expr::Unary { op, e: Box::new(a) }
    }

    /// `(e)`
    pub fn mk_grouping(e: Expr) -> (r: Self)
        ensures
            r@ == (ExprView::Grouping { e: Box::new(e@) }),
    {
        Expr::Grouping { e: Box::new(e) }
    }

    /// A number literal, given as the bit pattern of a double.
    pub fn mk_numeric(n: u64) -> (r: Self)
        ensures
            r@ == ExprView::Basic(Value::Numeric { n }),
    {
        Expr::Basic(ExprB::mk_numeric(n))
    }

    /// A string literal.
    pub fn mk_string(s: String) -> (r: Self)
        ensures
            r@ == ExprView::Basic(Value::String { s: s@ }),
    {
        Expr::Basic(ExprB::mk_string(s))
    }

    /// A name with its offset.
    pub fn mk_identifier(id: String, offset: Option<usize>) -> (r: Self)
        ensures
            r@ == (ExprView::Identifier { id: IdentifierView { name: id@, offset } }),
    {
        Expr::Identifier { id: Identifier { name: id, offset } }
    }

    /// `a or b`
    pub fn mk_or(a: Expr, b: Expr) -> (r: Self)
        ensures
            r@ == (ExprView::Or { a: Box::new(a@), b: Box::new(b@) }),
    {
        Expr::Or { a: Box::new(a), b: Box::new(b) }
    }

    /// `a and b`
    pub fn mk_and(a: Expr, b: Expr) -> (r: Self)
        ensures
            r@ == (ExprView::And { a: Box::new(a@), b: Box::new(b@) }),
    {
        Expr::And { a: Box::new(a), b: Box::new(b) }
    }

    /// `true`
    pub fn mk_true() -> (r: Self)
        ensures
            r@ == ExprView::Basic(Value::Boolean { b: true }),
    {
        Expr::Basic(ExprB::mk_bool(true))
    }

    /// `false`
    pub fn mk_false() -> (r: Self)
        ensures
            r@ == ExprView::Basic(Value::Boolean { b: false }),
    {
        Expr::Basic(ExprB::mk_bool(false))
    }

    /// `nil`
    pub fn mk_nil() -> (r: Self)
        ensures
            r@ == ExprView::Basic(Value::Nil),
    {
        Expr::Basic(ExprB::mk_nil())
    }

    /// `callee(args)`
    pub fn mk_call(callee: Expr, args: Vec<Expr>) -> (r: Self)
        ensures
            r@ == (ExprView::Call { caller: Box::new(callee@), args: exprs_view(args) }),
    {
        Expr::Call { caller: Box::new(callee), args }
    }

    /// A copy of the expression.
    pub fn duplicate(&self) -> (r: Self)
        ensures
            r@ == self@,
        decreases self,
    {
        match self {
            Expr::Empty => Expr::Empty,
            Expr::Basic(v) => Expr::Basic(v.duplicate()),
            Expr::Identifier { id } => Expr::Identifier { id: id.duplicate() },
            Expr::Assignment { id, e } => Expr::Assignment {
                id: Box::new(id.duplicate()),
                e: Box::new(e.duplicate()),
            },
            Expr::Unary { op, e } => Expr::Unary { op: *op, e: Box::new(e.duplicate()) },
            Expr::Binary { op, a, b } => Expr::Binary {
                op: *op,
                a: Box::new(a.duplicate()),
                b: Box::new(b.duplicate()),
            },
            Expr::Or { a, b } => Expr::Or {
                a: Box::new(a.duplicate()),
                b: Box::new(b.duplicate()),
            },
            Expr::And { a, b } => Expr::And {
                a: Box::new(a.duplicate()),
                b: Box::new(b.duplicate()),
            },
            Expr::Grouping { e } => Expr::Grouping { e: Box::new(e.duplicate()) },
            Expr::Call { caller, args } => Expr::Call {
                caller: Box::new(caller.duplicate()),
                args: duplicate_exprs(args),
            },
        }
    }
}

impl Statement {
    /// `{ statements }`
    pub fn mk_block(statements: Vec<Statement>) -> (r: Self)
        ensures
            r@ == (StatementView::Block { statements: statements_view(statements) }),
    {
        Self::Block { statements }
    }

    /// `e;`
    pub fn mk_expression(e: Expr) -> (r: Self)
        ensures
            r@ == (StatementView::Expression { e: e@ }),
    {
        Self::Expression { e }
    }

    /// `print e;`
    pub fn mk_print(e: Expr) -> (r: Self)
        ensures
            r@ == (StatementView::Print { e: e@ }),
    {
        Self::Print { e }
    }

    /// `var id = e;`
    pub fn mk_declaration(id: Identifier, e: Expr) -> (r: Self)
        ensures
            r@ == (StatementView::Declaration { id: id@, e: e@ }),
    {
        Statement::Declaration { id, e }
    }

    /// `id = e;`
    pub fn mk_assignment(id: Expr, e: Expr) -> (r: Self)
        ensures
            r@ == (StatementView::Assignment { id: id@, e: e@ }),
    {
        Statement::Assignment { id, e }
    }

    /// `if (condition) case_if else case_else`
    pub fn mk_conditional(condition: Expr, case_if: Statement, case_else: Option<Statement>) -> (r:
        Self)
        ensures
            r@ == (StatementView::Conditional {
                condition: condition@,
                case_if: Box::new(case_if@),
                case_else: match case_else {
                    Some(other) => Some(Box::new(other@)),
                    None => None,
                },
            }),
    {
        Statement::Conditional {
            condition,
            case_if: Box::new(case_if),
            case_else: match case_else {
                Some(other) => Some(Box::new(other)),
                None => None,
            },
        }
    }

    /// `loop { statements }`
    pub fn mk_loop(statements: Vec<Statement>) -> (r: Self)
        ensures
            r@ == (StatementView::Loop { statements: statements_view(statements) }),
    {
        Statement::Loop { statements }
    }

    /// `while (condition) { body }`
    pub fn mk_while(condition: Expr, body: Statements) -> (r: Self)
        ensures
            r@ == (StatementView::While { condition: condition@, body: statements_view(body) }),
    {
        Statement::While { condition, body }
    }

    /// `fun head(args) { body }`
    pub fn mk_function(head: Identifier, args: Vec<Identifier>, body: Statements) -> (r: Self)
        ensures
            r@ == (StatementView::Function {
                id: head@,
                parameters: identifiers_view(args),
                body: statements_view(body),
            }),
    {
        Statement::Function { id: head, parameters: args, body }
    }

    /// A copy of the statement.
    pub fn duplicate(&self) -> (r: Self)
        ensures
            r@ == self@,
        decreases self,
    {
        match self {
            Statement::Assignment { id, e } => Statement::Assignment {
                id: id.duplicate(),
                e: e.duplicate(),
            },
            Statement::Block { statements } => Statement::Block {
                statements: duplicate_statements(statements),
            },
            Statement::Break => Statement::Break,
            Statement::Conditional { condition, case_if, case_else } => Statement::Conditional {
                condition: condition.duplicate(),
                case_if: Box::new(case_if.duplicate()),
                case_else: match case_else {
                    Some(other) => Some(Box::new(other.duplicate())),
                    None => None,
                },
            },
            Statement::Declaration { id, e } => Statement::Declaration {
                id: id.duplicate(),
                e: e.duplicate(),
            },
            Statement::Empty => Statement::Empty,
            Statement::Expression { e } => Statement::Expression { e: e.duplicate() },
            Statement::Function { id, parameters, body } => Statement::Function {
                id: id.duplicate(),
                parameters: duplicate_identifiers(parameters),
                body: duplicate_statements(body),
            },
            Statement::Print { e } => Statement::Print { e: e.duplicate() },
            Statement::Return { expr } => Statement::Return { expr: expr.duplicate() },
            Statement::While { condition, body } => Statement::While {
                condition: condition.duplicate(),
                body: duplicate_statements(body),
            },
            Statement::Loop { statements } => Statement::Loop {
                statements: duplicate_statements(statements),
            },
        }
    }
}

} // verus!
