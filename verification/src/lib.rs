//! A fail-closed Bash structure gate: it turns a Bash source string into
//! simple commands with statically resolved `argv`, leading environment
//! assignments, file redirects, byte spans and control operators, or refuses
//! with a reason when any part of the input is not statically understood.
use vstd::prelude::*;

mod argument;
mod grammar;
pub mod input;
pub mod laws;
pub mod limits;
pub mod loosening;
pub mod meaning;
pub mod model;
mod order;
mod parser;
mod precheck;
mod redirect;
pub mod refusals;
mod structure;
pub mod syntax;
mod text;
mod validate;
mod walker;

pub use limits::ParseLimits;
pub use model::{
    EnvAssignment, GateResult, OperatorOccurrence, ParseError, ParsedProgram, Redirect,
    RedirectOp, ShellOperator, SimpleCommand, Span, TooComplex, TooComplexReason,
};
pub use parser::{parse_outcome, spec_analyze, BashGate};
pub use syntax::SyntaxNode;

verus! {

/// Gates `source` with the default limits.
pub fn parse(source: &str) -> (result: GateResult)
    ensures
        parse_outcome(ParseLimits::spec_default(), source@, result@),
{
    BashGate::default().parse(source)
}

} // verus!
