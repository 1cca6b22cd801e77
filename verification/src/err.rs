//! Diagnostics: what went wrong, and where in the source.

use crate::location::Location;
use crate::token::{TknErr, TknK, TknKView};
use vstd::prelude::*;

verus! {

/// What an environment can refuse.
#[derive(Debug, Clone, Copy, PartialEq, Eq, Structural)]
pub enum EnvErr {
    MissingAsignee,
}

/// What applying an operator to values can refuse.
#[derive(Debug, PartialEq)]
pub enum EvalErr {
    ConflictingSubexpression,
    InvalidConversion,
    InvalidAssignTo,
    InvalidIdentifier { id: String },
    EnvErr { err: EnvErr },
}

/// Every kind of diagnostic, from scanning, parsing and evaluation.
#[derive(Debug, PartialEq)]
pub enum StumbleKind {
    // Parsing
    ArgLimit,
    ExpectedAssignment,
    ExpectedBlock,
    ExpectedFound { expected: TknK, found: TknK },
    ExpectedLambda,
    ForInitialiser,
    InvalidAsignee,
    MismatchedParentheses,
    MissingToken,
    OpenStatement,
    Todo,
    TokensExhausted,
    Unexpected { found: TknK },
    // Evaluation
    ConflictingSubexpression,
    InvalidConversion,
    InvalidAssignTo,
    InvalidIdentifier { id: String },
    MissingAsignee,
    /// The allowance of loop rounds and calls was used up, or the
    /// table of scopes was full.
    StepLimit,
    // Scanning
    TrailingDot,
    MultilineString,
    Unrecognised { character: char },
}

/// The mathematical value of a [`StumbleKind`].
pub enum StumbleKindView {
    ArgLimit,
    ExpectedAssignment,
    ExpectedBlock,
    ExpectedFound { expected: TknKView, found: TknKView },
    ExpectedLambda,
    ForInitialiser,
    InvalidAsignee,
    MismatchedParentheses,
    MissingToken,
    OpenStatement,
    Todo,
    TokensExhausted,
    Unexpected { found: TknKView },
    ConflictingSubexpression,
    InvalidConversion,
    InvalidAssignTo,
    InvalidIdentifier { id: Seq<char> },
    MissingAsignee,
    StepLimit,
    TrailingDot,
    MultilineString,
    Unrecognised { character: char },
}

impl View for StumbleKind {
    type V = StumbleKindView;

    open spec fn view(&self) -> StumbleKindView {
        match *self {
            StumbleKind::ArgLimit => StumbleKindView::ArgLimit,
            StumbleKind::ExpectedAssignment => StumbleKindView::ExpectedAssignment,
            StumbleKind::ExpectedBlock => StumbleKindView::ExpectedBlock,
            StumbleKind::ExpectedFound { expected, found } => StumbleKindView::ExpectedFound {
                expected: expected@,
                found: found@,
            },
            StumbleKind::ExpectedLambda => StumbleKindView::ExpectedLambda,
            StumbleKind::ForInitialiser => StumbleKindView::ForInitialiser,
            StumbleKind::InvalidAsignee => StumbleKindView::InvalidAsignee,
            StumbleKind::MismatchedParentheses => StumbleKindView::MismatchedParentheses,
            StumbleKind::MissingToken => StumbleKindView::MissingToken,
            StumbleKind::OpenStatement => StumbleKindView::OpenStatement,
            StumbleKind::Todo => StumbleKindView::Todo,
            StumbleKind::TokensExhausted => StumbleKindView::TokensExhausted,
            StumbleKind::Unexpected { found } => StumbleKindView::Unexpected { found: found@ },
            StumbleKind::ConflictingSubexpression => StumbleKindView::ConflictingSubexpression,
            StumbleKind::InvalidConversion => StumbleKindView::InvalidConversion,
            StumbleKind::InvalidAssignTo => StumbleKindView::InvalidAssignTo,
            StumbleKind::InvalidIdentifier { id } => StumbleKindView::InvalidIdentifier { id: id@ },
            StumbleKind::MissingAsignee => StumbleKindView::MissingAsignee,
            StumbleKind::StepLimit => StumbleKindView::StepLimit,
            StumbleKind::TrailingDot => StumbleKindView::TrailingDot,
            StumbleKind::MultilineString => StumbleKindView::MultilineString,
            StumbleKind::Unrecognised { character } => StumbleKindView::Unrecognised { character },
        }
    }
}

impl StumbleKind {
    /// The diagnostic for what an environment refused.
    pub open spec fn env_err(e: EnvErr) -> StumbleKindView {
        StumbleKindView::MissingAsignee
    }

    /// The diagnostic for what the scanner refused.
    pub open spec fn token_err(e: TknErr) -> StumbleKindView {
        match e {
            TknErr::TrailingDot => StumbleKindView::TrailingDot,
            TknErr::MultilineString => StumbleKindView::MultilineString,
            TknErr::Unrecognised { character } => StumbleKindView::Unrecognised { character },
        }
    }

    /// The diagnostic for what applying an operator refused.
    pub open spec fn eval_err(e: EvalErr) -> StumbleKindView {
        match e {
            EvalErr::ConflictingSubexpression => StumbleKindView::ConflictingSubexpression,
            EvalErr::InvalidConversion => StumbleKindView::InvalidConversion,
            EvalErr::InvalidAssignTo => StumbleKindView::InvalidAssignTo,
            EvalErr::InvalidIdentifier { id } => StumbleKindView::InvalidIdentifier { id: id@ },
            EvalErr::EnvErr { err } => Self::env_err(err),
        }
    }

    /// The diagnostic for what applying an operator refused.
    pub fn of_eval_err(e: EvalErr) -> (r: Self)
        ensures
            r@ == Self::eval_err(e),
    {
        match e {
            EvalErr::ConflictingSubexpression => StumbleKind::ConflictingSubexpression,
            EvalErr::InvalidConversion => StumbleKind::InvalidConversion,
            EvalErr::InvalidAssignTo => StumbleKind::InvalidAssignTo,
            EvalErr::InvalidIdentifier { id } => StumbleKind::InvalidIdentifier { id },
            EvalErr::EnvErr { err } => Self::of_env_err(err),
        }
    }

    /// The diagnostic for what an environment refused.
    pub fn of_env_err(e: EnvErr) -> (r: Self)
        ensures
            r@ == Self::env_err(e),
    {
        match e {
            EnvErr::MissingAsignee => StumbleKind::MissingAsignee,
        }
    }

    /// The diagnostic for what the scanner refused.
    pub fn of_token_err(e: TknErr) -> (r: Self)
        ensures
            r@ == Self::token_err(e),
    {
        match e {
            TknErr::TrailingDot => StumbleKind::TrailingDot,
            TknErr::MultilineString => StumbleKind::MultilineString,
            TknErr::Unrecognised { character } => StumbleKind::Unrecognised { character },
        }
    }
}

/// A diagnostic: a kind and the position it is about.
#[derive(Debug, PartialEq)]
pub struct Stumble {
    pub location: Location,
    pub kind: StumbleKind,
}

/// The mathematical value of a [`Stumble`].
pub struct StumbleView {
    pub location: Location,
    pub kind: StumbleKindView,
}

impl View for Stumble {
    type V = StumbleView;

    open spec fn view(&self) -> StumbleView {
        StumbleView { location: self.location, kind: self.kind@ }
    }
}

impl Stumble {
    /// What went wrong.
    pub fn kind(&self) -> (r: &StumbleKind)
        ensures
            *r == self.kind,
    {
        &self.kind
    }
}

impl StumbleKindView {
    /// The kind written out: its name, and what it holds, if anything,
    /// in braces behind the name.
    pub open spec fn describe(self) -> Seq<char> {
        match self {
            StumbleKindView::ExpectedFound { expected, found } => "ExpectedFound { expected: "@
                + expected.describe() + ", found: "@ + found.describe() + " }"@,
            StumbleKindView::Unexpected { found } => "Unexpected { found: "@ + found.describe()
                + " }"@,
            StumbleKindView::InvalidIdentifier { id } => "InvalidIdentifier { id: \""@ + id
                + "\" }"@,
            StumbleKindView::Unrecognised { character } => "Unrecognised { character: '"@.push(
                character,
            ) + "' }"@,
            StumbleKindView::ArgLimit => "ArgLimit"@,
            StumbleKindView::ExpectedAssignment => "ExpectedAssignment"@,
            StumbleKindView::ExpectedBlock => "ExpectedBlock"@,
            StumbleKindView::ExpectedLambda => "ExpectedLambda"@,
            StumbleKindView::ForInitialiser => "ForInitialiser"@,
            StumbleKindView::InvalidAsignee => "InvalidAsignee"@,
            StumbleKindView::MismatchedParentheses => "MismatchedParentheses"@,
            StumbleKindView::MissingToken => "MissingToken"@,
            StumbleKindView::OpenStatement => "OpenStatement"@,
            StumbleKindView::Todo => "Todo"@,
            StumbleKindView::TokensExhausted => "TokensExhausted"@,
            StumbleKindView::ConflictingSubexpression => "ConflictingSubexpression"@,
            StumbleKindView::InvalidConversion => "InvalidConversion"@,
            StumbleKindView::InvalidAssignTo => "InvalidAssignTo"@,
            StumbleKindView::MissingAsignee => "MissingAsignee"@,
            StumbleKindView::StepLimit => "StepLimit"@,
            StumbleKindView::TrailingDot => "TrailingDot"@,
            StumbleKindView::MultilineString => "MultilineString"@,
        }
    }
}

impl StumbleKind {
    /// Writes the kind out.
    pub fn describe(&self) -> (r: String)
        ensures
            r@ == self@.describe(),
    {
        match self {
            StumbleKind::ExpectedFound { expected, found } => {
                let mut out = String::from_str("ExpectedFound { expected: ");
                out.append(expected.describe().as_str());
                out.append(", found: ");
                out.append(found.describe().as_str());
                out.append(" }");
                out
            },
            StumbleKind::Unexpected { found } => {
                let mut out = String::from_str("Unexpected { found: ");
                out.append(found.describe().as_str());
                out.append(" }");
                out
            },
            StumbleKind::InvalidIdentifier { id } => {
                let mut out = String::from_str("InvalidIdentifier { id: \"");
                out.append(id.as_str());
                out.append("\" }");
                out
            },
            StumbleKind::Unrecognised { character } => {
                let mut out = String::from_str("Unrecognised { character: '");
                out.push(*character);
                out.append("' }");
                out
            },
            StumbleKind::ArgLimit => String::from_str("ArgLimit"),
            StumbleKind::ExpectedAssignment => String::from_str("ExpectedAssignment"),
            StumbleKind::ExpectedBlock => String::from_str("ExpectedBlock"),
            StumbleKind::ExpectedLambda => String::from_str("ExpectedLambda"),
            StumbleKind::ForInitialiser => String::from_str("ForInitialiser"),
            StumbleKind::InvalidAsignee => String::from_str("InvalidAsignee"),
            StumbleKind::MismatchedParentheses => String::from_str("MismatchedParentheses"),
            StumbleKind::MissingToken => String::from_str("MissingToken"),
            StumbleKind::OpenStatement => String::from_str("OpenStatement"),
            StumbleKind::Todo => String::from_str("Todo"),
            StumbleKind::TokensExhausted => String::from_str("TokensExhausted"),
            StumbleKind::ConflictingSubexpression => String::from_str("ConflictingSubexpression"),
            StumbleKind::InvalidConversion => String::from_str("InvalidConversion"),
            StumbleKind::InvalidAssignTo => String::from_str("InvalidAssignTo"),
            StumbleKind::MissingAsignee => String::from_str("MissingAsignee"),
            StumbleKind::StepLimit => String::from_str("StepLimit"),
            StumbleKind::TrailingDot => String::from_str("TrailingDot"),
            StumbleKind::MultilineString => String::from_str("MultilineString"),
        }
    }
}

} // verus!
