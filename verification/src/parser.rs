//! `BashGate`: limits and prechecks on the source, parsing, tree checks, and
//! the walk that yields the result.
use vstd::prelude::*;
use vstd::string::StringSliceAdditionalSpecFns;
use vstd::utf8::*;

use crate::grammar::{bash_syntax, configured_parser, parse_syntax};
use crate::limits::ParseLimits;
use crate::model::{
    GateResult, GateResultView, ParseError, ParsedProgram, ParsedProgramView, TooComplex,
    TooComplexView,
};
use crate::precheck::{differential_precheck, is_blank, is_blank_exec, spec_differential_precheck};
use crate::syntax::SyntaxNode;
use crate::text::{decimal, push_number, push_text};
use crate::validate::{spec_validate_tree, validate_tree};
use crate::walker::{spec_walk_program, walk_program};

verus! {

/// A Bash structure gate with its resource limits.
#[derive(Debug, Clone, Copy, PartialEq, Eq)]
pub struct BashGate {
    limits: ParseLimits,
}

impl View for BashGate {
    type V = ParseLimits;

    closed spec fn view(&self) -> ParseLimits {
        self.limits
    }
}

impl Default for BashGate {
    fn default() -> (gate: Self)
        ensures
            gate@ == ParseLimits::spec_default(),
    {
        BashGate { limits: ParseLimits::default() }
    }
}

/// The refusal for a source longer than `max_command_bytes`.
pub open spec fn too_long_error(length: nat, limits: ParseLimits) -> TooComplexView {
    TooComplexView::limit(
        "max_command_bytes"@,
        "command is "@ + decimal(length) + " bytes; configured maximum is "@ + decimal(
            limits.max_command_bytes as nat,
        ) + " bytes"@,
    )
}

/// The result decided before any parsing, if any: the byte limit, the
/// prechecks, and the blank source (which is an empty program).
pub open spec fn spec_gate_prefix(limits: ParseLimits, source: Seq<char>) -> Option<GateResultView> {
    let length = encode_utf8(source).len();
    if length > limits.max_command_bytes {
        Some(GateResultView::TooComplex(too_long_error(length, limits)))
    } else {
        match spec_differential_precheck(source) {
            Some(e) => Some(GateResultView::TooComplex(e)),
            None => if is_blank(source) {
                Some(
                    GateResultView::Parsed(
                        ParsedProgramView { source, commands: seq![], operators: seq![] },
                    ),
                )
            } else {
                None
            },
        }
    }
}

/// The result of gating `source` when the parser produced the tree `root`.
pub open spec fn spec_analyze(limits: ParseLimits, source: Seq<char>, root: SyntaxNode) -> GateResultView {
    match spec_gate_prefix(limits, source) {
        Some(r) => r,
        None => match spec_validate_tree(root, limits) {
            Err(e) => GateResultView::TooComplex(e),
            Ok(_) => match spec_walk_program(source, limits, root) {
                Ok(p) => GateResultView::Parsed(p),
                Err(e) => GateResultView::TooComplex(e),
            },
        },
    }
}

/// The result when the parser gave up.
pub open spec fn aborted_result() -> GateResultView {
    GateResultView::TooComplex(
        TooComplexView::parser_aborted("tree-sitter parsing timed out or was cancelled"@),
    )
}

/// The prefix of the message when the grammar cannot be loaded.
pub open spec fn setup_error_prefix() -> Seq<char> {
    "failed to load the tree-sitter-bash grammar: "@
}

/// The result of gating `source` given what the parser did: `Err` when the
/// grammar could not be loaded (with the message), `Ok(None)` when the
/// parser gave up, `Ok(Some(tree))` when it produced `tree`.
pub open spec fn spec_decide(
    limits: ParseLimits,
    source: Seq<char>,
    event: Result<Option<SyntaxNode>, String>,
) -> GateResultView {
    match spec_gate_prefix(limits, source) {
        Some(r) => r,
        None => match event {
            Err(message) => GateResultView::ParseError(message@),
            Ok(None) => aborted_result(),
            Ok(Some(tree)) => spec_analyze(limits, source, tree),
        },
    }
}

/// What the parser can do with `source`: fail to load the grammar (with a
/// message that starts with the setup prefix), give up, or produce the Bash
/// grammar's tree of the source.
pub open spec fn possible_event(source: Seq<char>, event: Result<Option<SyntaxNode>, String>) -> bool {
    match event {
        Err(message) => setup_error_prefix().is_prefix_of(message@),
        Ok(None) => true,
        Ok(Some(tree)) => tree == bash_syntax(encode_utf8(source)),
    }
}

/// What `parse` returns: the result decided by one of the parser events
/// that can occur for the source.
pub open spec fn parse_outcome(limits: ParseLimits, source: Seq<char>, result: GateResultView) -> bool {
    exists|event: Result<Option<SyntaxNode>, String>|
        possible_event(source, event) && result == #[trigger] spec_decide(limits, source, event)
}

impl BashGate {
    /// A gate with the given limits.
    pub fn new(limits: ParseLimits) -> (gate: Self)
        ensures
            gate@ == limits,
    {
        BashGate { limits }
    }

    /// The configured limits.
    pub fn limits(&self) -> (limits: ParseLimits)
        ensures
            limits == self@,
    {
        self.limits
    }

    fn prefix(&self, source: &str) -> (decided: Option<GateResult>)
        ensures
            match spec_gate_prefix(self@, source@) {
                Some(r) => decided matches Some(x) && x@ == r,
                None => decided is None,
            },
    {
        let limits = self.limits;
        let length = source.as_bytes().len();
        if length > limits.max_command_bytes {
            let mut detail = "command is ".to_owned();
            push_number(&mut detail, length);
            push_text(&mut detail, " bytes; configured maximum is ");
            push_number(&mut detail, limits.max_command_bytes);
            push_text(&mut detail, " bytes");
            return Some(
                GateResult::TooComplex(TooComplex::limit("max_command_bytes", detail.as_str())),
            );
        }
        if let Some(error) = differential_precheck(source) {
            return Some(GateResult::TooComplex(error));
        }
        if is_blank_exec(source) {
            let program = ParsedProgram {
                source: source.to_owned(),
                commands: Vec::new(),
                operators: Vec::new(),
            };
            assert(crate::model::commands_view(program.commands@) =~= seq![]);
            return Some(GateResult::Parsed(program));
        }
        None
    }

    /// Gates `source` given the syntax tree `root` that the parser produced
    /// for it: the source checks, then the tree checks, then the walk.
    pub fn analyze(&self, source: &str, root: &SyntaxNode) -> (result: GateResult)
        ensures
            result@ == spec_analyze(self@, source@, *root),
    {
        if let Some(decided) = self.prefix(source) {
            return decided;
        }
        if let Err(error) = validate_tree(root, self.limits) {
            return GateResult::TooComplex(error);
        }
        match walk_program(root, source, self.limits) {
            Ok(program) => GateResult::Parsed(program),
            Err(error) => GateResult::TooComplex(error),
        }
    }

    /// Gates `source` given what the parser did with it (see `spec_decide`).
    pub fn decide(&self, source: &str, event: Result<Option<SyntaxNode>, String>) -> (result:
        GateResult)
        ensures
            result@ == spec_decide(self@, source@, event),
    {
        if let Some(decided) = self.prefix(source) {
            return decided;
        }
        match event {
            Err(message) => GateResult::ParseError(ParseError { message }),
            Ok(None) => GateResult::TooComplex(
                TooComplex::parser_aborted("tree-sitter parsing timed out or was cancelled"),
            ),
            Ok(Some(tree)) => self.analyze(source, &tree),
        }
    }

    /// Parses `source` with the Bash grammar and gates it.
    pub fn parse(&self, source: &str) -> (result: GateResult)
        ensures
            parse_outcome(self@, source@, result@),
    {
        if let Some(decided) = self.prefix(source) {
            assert(possible_event(source@, Ok(None)));
            assert(decided@ == spec_decide(self@, source@, Ok(None)));
            return decided;
        }
        let event = match configured_parser(self.limits) {
            Err(message) => Err(message),
            Ok(parser) => Ok(parse_syntax(parser, source)),
        };
        let ghost happened = event;
        let result = self.decide(source, event);
        assert(possible_event(source@, happened));
        result
    }
}

} // verus!
