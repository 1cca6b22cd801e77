//! Tokens: the lexical categories of the language, each with the place
//! in the source where it starts.

use crate::location::Location;
use crate::number::{format_number, number_text};
use vstd::prelude::*;

verus! {

/// The kind of a token. A number literal holds the bit pattern of a
/// double, and the derived `==` compares number literals by their
/// patterns.
#[allow(non_camel_case_types, clippy::upper_case_acronyms)]
#[derive(Debug, PartialEq)]
pub enum TknK {
    BraceL,
    BraceR,
    Comma,
    Dot,
    Minus,
    ParenL,
    ParenR,
    Plus,
    Semicolon,
    Slash,
    Star,
    Bang,
    BangEqual,
    Equal,
    EqualEqual,
    Greater,
    GreaterEqual,
    Less,
    LessEqual,
    Identifier { id: String },
    Number { literal: u64 },
    String { literal: String },
    And,
    Break,
    Class,
    Else,
    False,
    For,
    Function,
    If,
    Loop,
    Nil,
    Or,
    Print,
    Return,
    Super,
    This,
    True,
    Var,
    While,
    EOF,
}

/// The mathematical value of a [`TknK`].
pub enum TknKView {
    BraceL,
    BraceR,
    Comma,
    Dot,
    Minus,
    ParenL,
    ParenR,
    Plus,
    Semicolon,
    Slash,
    Star,
    Bang,
    BangEqual,
    Equal,
    EqualEqual,
    Greater,
    GreaterEqual,
    Less,
    LessEqual,
    Identifier { id: Seq<char> },
    Number { literal: u64 },
    String { literal: Seq<char> },
    And,
    Break,
    Class,
    Else,
    False,
    For,
    Function,
    If,
    Loop,
    Nil,
    Or,
    Print,
    Return,
    Super,
    This,
    True,
    Var,
    While,
    EOF,
}

impl View for TknK {
    type V = TknKView;

    open spec fn view(&self) -> TknKView {
        match *self {
            TknK::Identifier { id } => TknKView::Identifier { id: id@ },
            TknK::Number { literal } => TknKView::Number { literal },
            TknK::String { literal } => TknKView::String { literal: literal@ },
            TknK::BraceL => TknKView::BraceL,
            TknK::BraceR => TknKView::BraceR,
            TknK::Comma => TknKView::Comma,
            TknK::Dot => TknKView::Dot,
            TknK::Minus => TknKView::Minus,
            TknK::ParenL => TknKView::ParenL,
            TknK::ParenR => TknKView::ParenR,
            TknK::Plus => TknKView::Plus,
            TknK::Semicolon => TknKView::Semicolon,
            TknK::Slash => TknKView::Slash,
            TknK::Star => TknKView::Star,
            TknK::Bang => TknKView::Bang,
            TknK::BangEqual => TknKView::BangEqual,
            TknK::Equal => TknKView::Equal,
            TknK::EqualEqual => TknKView::EqualEqual,
            TknK::Greater => TknKView::Greater,
            TknK::GreaterEqual => TknKView::GreaterEqual,
            TknK::Less => TknKView::Less,
            TknK::LessEqual => TknKView::LessEqual,
            TknK::And => TknKView::And,
            TknK::Break => TknKView::Break,
            TknK::Class => TknKView::Class,
            TknK::Else => TknKView::Else,
            TknK::False => TknKView::False,
            TknK::For => TknKView::For,
            TknK::Function => TknKView::Function,
            TknK::If => TknKView::If,
            TknK::Loop => TknKView::Loop,
            TknK::Nil => TknKView::Nil,
            TknK::Or => TknKView::Or,
            TknK::Print => TknKView::Print,
            TknK::Return => TknKView::Return,
            TknK::Super => TknKView::Super,
            TknK::This => TknKView::This,
            TknK::True => TknKView::True,
            TknK::Var => TknKView::Var,
            TknK::While => TknKView::While,
            TknK::EOF => TknKView::EOF,
        }
    }
}

impl TknK {
    /// A copy of the kind.
    pub fn duplicate(&self) -> (r: Self)
        ensures
            r@ == self@,
    {
        match self {
            TknK::Identifier { id } => TknK::Identifier { id: id.clone() },
            TknK::Number { literal } => TknK::Number { literal: *literal },
            TknK::String { literal } => TknK::String { literal: literal.clone() },
            TknK::BraceL => TknK::BraceL,
            TknK::BraceR => TknK::BraceR,
            TknK::Comma => TknK::Comma,
            TknK::Dot => TknK::Dot,
            TknK::Minus => TknK::Minus,
            TknK::ParenL => TknK::ParenL,
            TknK::ParenR => TknK::ParenR,
            TknK::Plus => TknK::Plus,
            TknK::Semicolon => TknK::Semicolon,
            TknK::Slash => TknK::Slash,
            TknK::Star => TknK::Star,
            TknK::Bang => TknK::Bang,
            TknK::BangEqual => TknK::BangEqual,
            TknK::Equal => TknK::Equal,
            TknK::EqualEqual => TknK::EqualEqual,
            TknK::Greater => TknK::Greater,
            TknK::GreaterEqual => TknK::GreaterEqual,
            TknK::Less => TknK::Less,
            TknK::LessEqual => TknK::LessEqual,
            TknK::And => TknK::And,
            TknK::Break => TknK::Break,
            TknK::Class => TknK::Class,
            TknK::Else => TknK::Else,
            TknK::False => TknK::False,
            TknK::For => TknK::For,
            TknK::Function => TknK::Function,
            TknK::If => TknK::If,
            TknK::Loop => TknK::Loop,
            TknK::Nil => TknK::Nil,
            TknK::Or => TknK::Or,
            TknK::Print => TknK::Print,
            TknK::Return => TknK::Return,
            TknK::Super => TknK::Super,
            TknK::This => TknK::This,
            TknK::True => TknK::True,
            TknK::Var => TknK::Var,
            TknK::While => TknK::While,
            TknK::EOF => TknK::EOF,
        }
    }

    /// Whether two kinds are the same, payload included.
    pub fn same(&self, other: &TknK) -> (r: bool)
        ensures
            r == (self@ == other@),
    {
        match (self, other) {
            (TknK::Identifier { id: a }, TknK::Identifier { id: b }) => *a == *b,
            (TknK::Number { literal: a }, TknK::Number { literal: b }) => *a == *b,
            (TknK::String { literal: a }, TknK::String { literal: b }) => *a == *b,
            (TknK::BraceL, TknK::BraceL) => true,
            (TknK::BraceR, TknK::BraceR) => true,
            (TknK::Comma, TknK::Comma) => true,
            (TknK::Dot, TknK::Dot) => true,
            (TknK::Minus, TknK::Minus) => true,
            (TknK::ParenL, TknK::ParenL) => true,
            (TknK::ParenR, TknK::ParenR) => true,
            (TknK::Plus, TknK::Plus) => true,
            (TknK::Semicolon, TknK::Semicolon) => true,
            (TknK::Slash, TknK::Slash) => true,
            (TknK::Star, TknK::Star) => true,
            (TknK::Bang, TknK::Bang) => true,
            (TknK::BangEqual, TknK::BangEqual) => true,
            (TknK::Equal, TknK::Equal) => true,
            (TknK::EqualEqual, TknK::EqualEqual) => true,
            (TknK::Greater, TknK::Greater) => true,
            (TknK::GreaterEqual, TknK::GreaterEqual) => true,
            (TknK::Less, TknK::Less) => true,
            (TknK::LessEqual, TknK::LessEqual) => true,
            (TknK::And, TknK::And) => true,
            (TknK::Break, TknK::Break) => true,
            (TknK::Class, TknK::Class) => true,
            (TknK::Else, TknK::Else) => true,
            (TknK::False, TknK::False) => true,
            (TknK::For, TknK::For) => true,
            (TknK::Function, TknK::Function) => true,
            (TknK::If, TknK::If) => true,
            (TknK::Loop, TknK::Loop) => true,
            (TknK::Nil, TknK::Nil) => true,
            (TknK::Or, TknK::Or) => true,
            (TknK::Print, TknK::Print) => true,
            (TknK::Return, TknK::Return) => true,
            (TknK::Super, TknK::Super) => true,
            (TknK::This, TknK::This) => true,
            (TknK::True, TknK::True) => true,
            (TknK::Var, TknK::Var) => true,
            (TknK::While, TknK::While) => true,
            (TknK::EOF, TknK::EOF) => true,
            _ => false,
        }
    }
}

/// A token: its kind and the position of its first character.
#[derive(Debug, PartialEq)]
pub struct Tkn {
    pub kind: TknK,
    pub location: Location,
}

/// The mathematical value of a [`Tkn`].
pub struct TknView {
    pub kind: TknKView,
    pub location: Location,
}

impl View for Tkn {
    type V = TknView;

    open spec fn view(&self) -> TknView {
        TknView { kind: self.kind@, location: self.location }
    }
}

/// A list of tokens.
pub type Tkns = Vec<Tkn>;

/// The views of the tokens of a vector, in order.
pub open spec fn tokens_view(v: Vec<Tkn>) -> Seq<TknView> {
    Seq::new(v.len() as nat, |i: int| v[i]@)
}

impl Tkn {
    /// A token of the given kind at the given position.
    pub fn new(token: TknK, location: Location) -> (r: Self)
        ensures
            r.kind == token,
            r.location == location,
    {
        Tkn { kind: token, location }
    }

    /// Whether the token is of the given kind, payload included.
    pub fn is(&self, instance: TknK) -> (r: bool)
        ensures
            r == (self.kind@ == instance@),
    {
        self.kind.same(&instance)
    }

    /// A copy of the token.
    pub fn duplicate(&self) -> (r: Self)
        ensures
            r@ == self@,
    {
        Tkn { kind: self.kind.duplicate(), location: self.location }
    }
}

/// What can go wrong while scanning.
#[derive(Debug, Clone, Copy, PartialEq, Eq, Structural)]
pub enum TknErr {
    TrailingDot,
    MultilineString,
    Unrecognised { character: char },
}

impl TknKView {
    /// The kind written out: its name, and what it holds, if anything,
    /// in braces behind the name.
    pub open spec fn describe(self) -> Seq<char> {
        match self {
            TknKView::Identifier { id } => "Identifier { id: \""@ + id + "\" }"@,
            TknKView::Number { literal } => "Number { literal: "@ + number_text(literal) + " }"@,
            TknKView::String { literal } => "String { literal: \""@ + literal + "\" }"@,
            TknKView::BraceL => "BraceL"@,
            TknKView::BraceR => "BraceR"@,
            TknKView::Comma => "Comma"@,
            TknKView::Dot => "Dot"@,
            TknKView::Minus => "Minus"@,
            TknKView::ParenL => "ParenL"@,
            TknKView::ParenR => "ParenR"@,
            TknKView::Plus => "Plus"@,
            TknKView::Semicolon => "Semicolon"@,
            TknKView::Slash => "Slash"@,
            TknKView::Star => "Star"@,
            TknKView::Bang => "Bang"@,
            TknKView::BangEqual => "BangEqual"@,
            TknKView::Equal => "Equal"@,
            TknKView::EqualEqual => "EqualEqual"@,
            TknKView::Greater => "Greater"@,
            TknKView::GreaterEqual => "GreaterEqual"@,
            TknKView::Less => "Less"@,
            TknKView::LessEqual => "LessEqual"@,
            TknKView::And => "And"@,
            TknKView::Break => "Break"@,
            TknKView::Class => "Class"@,
            TknKView::Else => "Else"@,
            TknKView::False => "False"@,
            TknKView::For => "For"@,
            TknKView::Function => "Function"@,
            TknKView::If => "If"@,
            TknKView::Loop => "Loop"@,
            TknKView::Nil => "Nil"@,
            TknKView::Or => "Or"@,
            TknKView::Print => "Print"@,
            TknKView::Return => "Return"@,
            TknKView::Super => "Super"@,
            TknKView::This => "This"@,
            TknKView::True => "True"@,
            TknKView::Var => "Var"@,
            TknKView::While => "While"@,
            TknKView::EOF => "EOF"@,
        }
    }
}

impl TknK {
    /// Writes the kind out.
    pub fn describe(&self) -> (r: String)
        ensures
            r@ == self@.describe(),
    {
        match self {
            TknK::Identifier { id } => {
                let mut out = String::from_str("Identifier { id: \"");
                out.append(id.as_str());
                out.append("\" }");
                out
            },
            TknK::Number { literal } => {
                let mut out = String::from_str("Number { literal: ");
                out.append(format_number(*literal).as_str());
                out.append(" }");
                out
            },
            TknK::String { literal } => {
                let mut out = String::from_str("String { literal: \"");
                out.append(literal.as_str());
                out.append("\" }");
                out
            },
            TknK::BraceL => String::from_str("BraceL"),
            TknK::BraceR => String::from_str("BraceR"),
            TknK::Comma => String::from_str("Comma"),
            TknK::Dot => String::from_str("Dot"),
            TknK::Minus => String::from_str("Minus"),
            TknK::ParenL => String::from_str("ParenL"),
            TknK::ParenR => String::from_str("ParenR"),
            TknK::Plus => String::from_str("Plus"),
            TknK::Semicolon => String::from_str("Semicolon"),
            TknK::Slash => String::from_str("Slash"),
            TknK::Star => String::from_str("Star"),
            TknK::Bang => String::from_str("Bang"),
            TknK::BangEqual => String::from_str("BangEqual"),
            TknK::Equal => String::from_str("Equal"),
            TknK::EqualEqual => String::from_str("EqualEqual"),
            TknK::Greater => String::from_str("Greater"),
            TknK::GreaterEqual => String::from_str("GreaterEqual"),
            TknK::Less => String::from_str("Less"),
            TknK::LessEqual => String::from_str("LessEqual"),
            TknK::And => String::from_str("And"),
            TknK::Break => String::from_str("Break"),
            TknK::Class => String::from_str("Class"),
            TknK::Else => String::from_str("Else"),
            TknK::False => String::from_str("False"),
            TknK::For => String::from_str("For"),
            TknK::Function => String::from_str("Function"),
            TknK::If => String::from_str("If"),
            TknK::Loop => String::from_str("Loop"),
            TknK::Nil => String::from_str("Nil"),
            TknK::Or => String::from_str("Or"),
            TknK::Print => String::from_str("Print"),
            TknK::Return => String::from_str("Return"),
            TknK::Super => String::from_str("Super"),
            TknK::This => String::from_str("This"),
            TknK::True => String::from_str("True"),
            TknK::Var => String::from_str("Var"),
            TknK::While => String::from_str("While"),
            TknK::EOF => String::from_str("EOF"),
        }
    }
}

impl TknView {
    /// The token written out: a literal with its value, any other token
    /// with its kind.
    pub open spec fn describe(self) -> Seq<char> {
        match self.kind {
            TknKView::Number { literal } => "Number: "@ + number_text(literal),
            TknKView::String { literal } => "String: "@ + literal,
            kind => "Non-literal: "@ + kind.describe(),
        }
    }
}

impl Tkn {
    /// Writes the token out.
    pub fn display(&self) -> (r: String)
        ensures
            r@ == self@.describe(),
    {
        match &self.kind {
            TknK::Number { literal } => {
                let mut out = String::from_str("Number: ");
                out.append(format_number(*literal).as_str());
                out
            },
            TknK::String { literal } => {
                let mut out = String::from_str("String: ");
                out.append(literal.as_str());
                out
            },
            kind => {
                let mut out = String::from_str("Non-literal: ");
                out.append(kind.describe().as_str());
                out
            },
        }
    }
}

} // verus!
