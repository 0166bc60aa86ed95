//! The intermediate representation that `BashGate` returns, with a
//! mathematical view of each type.
use vstd::prelude::*;

verus! {

/// A half-open UTF-8 byte range `start_byte..end_byte` of the source.
#[derive(Debug, Clone, Copy, Default, PartialEq, Eq, Structural)]
pub struct Span {
    pub start_byte: usize,
    pub end_byte: usize,
}

/// A control operator between commands.
#[derive(Debug, Clone, Copy, PartialEq, Eq, Structural)]
pub enum ShellOperator {
    And,
    Or,
    Pipe,
    PipeBoth,
    Sequence,
    Background,
    Newline,
}

impl ShellOperator {
    pub open spec fn spec_as_str(self) -> Seq<char> {
        match self {
            ShellOperator::And => "&&"@,
            ShellOperator::Or => "||"@,
            ShellOperator::Pipe => "|"@,
            ShellOperator::PipeBoth => "|&"@,
            ShellOperator::Sequence => ";"@,
            ShellOperator::Background => "&"@,
            ShellOperator::Newline => "\n"@,
        }
    }

    /// The operator's shell spelling.
    pub fn as_str(self) -> (text: &'static str)
        ensures
            text@ == self.spec_as_str(),
    {
        match self {
            ShellOperator::And => "&&",
            ShellOperator::Or => "||",
            ShellOperator::Pipe => "|",
            ShellOperator::PipeBoth => "|&",
            ShellOperator::Sequence => ";",
            ShellOperator::Background => "&",
            ShellOperator::Newline => "\n",
        }
    }
}

/// One control operator together with where it stands in the source.
#[derive(Debug, Clone, Copy, PartialEq, Eq, Structural)]
pub struct OperatorOccurrence {
    pub op: ShellOperator,
    pub span: Span,
}

/// The operator of a file redirect.
#[derive(Debug, Clone, Copy, PartialEq, Eq, Structural)]
pub enum RedirectOp {
    Write,
    Append,
    Read,
    HereDoc,
    DuplicateOutput,
    Clobber,
    DuplicateInput,
    WriteBoth,
    AppendBoth,
    HereString,
}

impl RedirectOp {
    pub open spec fn spec_as_str(self) -> Seq<char> {
        match self {
            RedirectOp::Write => ">"@,
            RedirectOp::Append => ">>"@,
            RedirectOp::Read => "<"@,
            RedirectOp::HereDoc => "<<"@,
            RedirectOp::DuplicateOutput => ">&"@,
            RedirectOp::Clobber => ">|"@,
            RedirectOp::DuplicateInput => "<&"@,
            RedirectOp::WriteBoth => "&>"@,
            RedirectOp::AppendBoth => "&>>"@,
            RedirectOp::HereString => "<<<"@,
        }
    }

    /// The operator's shell spelling.
    pub fn as_str(self) -> (text: &'static str)
        ensures
            text@ == self.spec_as_str(),
    {
        match self {
            RedirectOp::Write => ">",
            RedirectOp::Append => ">>",
            RedirectOp::Read => "<",
            RedirectOp::HereDoc => "<<",
            RedirectOp::DuplicateOutput => ">&",
            RedirectOp::Clobber => ">|",
            RedirectOp::DuplicateInput => "<&",
            RedirectOp::WriteBoth => "&>",
            RedirectOp::AppendBoth => "&>>",
            RedirectOp::HereString => "<<<",
        }
    }
}

/// A leading `NAME=value` assignment of a simple command.
#[derive(Debug, Clone, PartialEq, Eq)]
pub struct EnvAssignment {
    pub name: String,
    pub value: String,
}

pub struct EnvAssignmentView {
    pub name: Seq<char>,
    pub value: Seq<char>,
}

impl View for EnvAssignment {
    type V = EnvAssignmentView;

    open spec fn view(&self) -> EnvAssignmentView {
        EnvAssignmentView { name: self.name@, value: self.value@ }
    }
}

/// A file redirect with its statically resolved target.
#[derive(Debug, Clone, PartialEq, Eq)]
pub struct Redirect {
    pub op: RedirectOp,
    pub target: String,
    pub fd: Option<u32>,
}

pub struct RedirectView {
    pub op: RedirectOp,
    pub target: Seq<char>,
    pub fd: Option<u32>,
}

impl View for Redirect {
    type V = RedirectView;

    open spec fn view(&self) -> RedirectView {
        RedirectView { op: self.op, target: self.target@, fd: self.fd }
    }
}

/// The view of a sequence of strings.
pub open spec fn strings_view(v: Seq<String>) -> Seq<Seq<char>> {
    v.map_values(|s: String| s@)
}

/// The view of a sequence of environment assignments.
pub open spec fn envs_view(v: Seq<EnvAssignment>) -> Seq<EnvAssignmentView> {
    v.map_values(|e: EnvAssignment| e@)
}

/// The view of a sequence of redirects.
pub open spec fn redirects_view(v: Seq<Redirect>) -> Seq<RedirectView> {
    v.map_values(|r: Redirect| r@)
}

/// One simple command with its resolved `argv`.
#[derive(Debug, Clone, PartialEq, Eq)]
pub struct SimpleCommand {
    pub text: String,
    pub argv: Vec<String>,
    pub env: Vec<EnvAssignment>,
    pub redirects: Vec<Redirect>,
    pub span: Span,
}

pub struct SimpleCommandView {
    pub text: Seq<char>,
    pub argv: Seq<Seq<char>>,
    pub env: Seq<EnvAssignmentView>,
    pub redirects: Seq<RedirectView>,
    pub span: Span,
}

impl View for SimpleCommand {
    type V = SimpleCommandView;

    open spec fn view(&self) -> SimpleCommandView {
        SimpleCommandView {
            text: self.text@,
            argv: strings_view(self.argv@),
            env: envs_view(self.env@),
            redirects: redirects_view(self.redirects@),
            span: self.span,
        }
    }
}

/// The view of a sequence of commands.
pub open spec fn commands_view(v: Seq<SimpleCommand>) -> Seq<SimpleCommandView> {
    v.map_values(|c: SimpleCommand| c@)
}

/// A fully understood program: its commands and operators in source order.
#[derive(Debug, Clone, PartialEq, Eq)]
pub struct ParsedProgram {
    pub source: String,
    pub commands: Vec<SimpleCommand>,
    pub operators: Vec<OperatorOccurrence>,
}

pub struct ParsedProgramView {
    pub source: Seq<char>,
    pub commands: Seq<SimpleCommandView>,
    pub operators: Seq<OperatorOccurrence>,
}

impl View for ParsedProgram {
    type V = ParsedProgramView;

    open spec fn view(&self) -> ParsedProgramView {
        ParsedProgramView {
            source: self.source@,
            commands: commands_view(self.commands@),
            operators: self.operators@,
        }
    }
}

/// Why an input was not turned into a `ParsedProgram`.
#[derive(Debug, Clone, Copy, PartialEq, Eq, Structural)]
pub enum TooComplexReason {
    UnsupportedNode,
    ErrorNode,
    LimitExceeded,
    SuspiciousInput,
    ParserAborted,
    DynamicExpansion,
    InvalidStructure,
}

/// A fail-closed refusal: the input is not statically resolvable.
#[derive(Debug, Clone, PartialEq, Eq)]
pub struct TooComplex {
    pub reason: TooComplexReason,
    pub node_type: Option<String>,
    pub detail: Option<String>,
}

pub struct TooComplexView {
    pub reason: TooComplexReason,
    pub node_type: Option<Seq<char>>,
    pub detail: Option<Seq<char>>,
}

/// The view of an optional string.
pub open spec fn opt_text(s: Option<String>) -> Option<Seq<char>> {
    match s {
        Some(t) => Some(t@),
        None => None,
    }
}

impl View for TooComplex {
    type V = TooComplexView;

    open spec fn view(&self) -> TooComplexView {
        TooComplexView {
            reason: self.reason,
            node_type: opt_text(self.node_type),
            detail: opt_text(self.detail),
        }
    }
}

impl TooComplexView {
    pub open spec fn unsupported(node_type: Seq<char>) -> TooComplexView {
        TooComplexView {
            reason: TooComplexReason::UnsupportedNode,
            node_type: Some(node_type),
            detail: None,
        }
    }

    pub open spec fn unsupported_with_detail(node_type: Seq<char>, detail: Seq<char>) -> TooComplexView {
        TooComplexView {
            reason: TooComplexReason::UnsupportedNode,
            node_type: Some(node_type),
            detail: Some(detail),
        }
    }

    pub open spec fn dynamic(node_type: Seq<char>, detail: Seq<char>) -> TooComplexView {
        TooComplexView {
            reason: TooComplexReason::DynamicExpansion,
            node_type: Some(node_type),
            detail: Some(detail),
        }
    }

    pub open spec fn invalid_structure(detail: Seq<char>) -> TooComplexView {
        TooComplexView {
            reason: TooComplexReason::InvalidStructure,
            node_type: None,
            detail: Some(detail),
        }
    }

    pub open spec fn limit(node_type: Seq<char>, detail: Seq<char>) -> TooComplexView {
        TooComplexView {
            reason: TooComplexReason::LimitExceeded,
            node_type: Some(node_type),
            detail: Some(detail),
        }
    }

    pub open spec fn suspicious(detail: Seq<char>) -> TooComplexView {
        TooComplexView {
            reason: TooComplexReason::SuspiciousInput,
            node_type: None,
            detail: Some(detail),
        }
    }

    pub open spec fn parser_aborted(detail: Seq<char>) -> TooComplexView {
        TooComplexView {
            reason: TooComplexReason::ParserAborted,
            node_type: Some("PARSE_ABORT"@),
            detail: Some(detail),
        }
    }

    pub open spec fn error_node(node_type: Seq<char>) -> TooComplexView {
        TooComplexView {
            reason: TooComplexReason::ErrorNode,
            node_type: Some(node_type),
            detail: Some("tree-sitter produced an ERROR or missing node"@),
        }
    }
}

impl TooComplex {
    /// An AST node kind that is not interpreted.
    pub fn unsupported(node_type: &str) -> (error: Self)
        ensures
            error@ == TooComplexView::unsupported(node_type@),
    {
        TooComplex {
            reason: TooComplexReason::UnsupportedNode,
            node_type: Some(node_type.to_owned()),
            detail: None,
        }
    }

    /// An AST node kind that is not interpreted, with an explanation.
    pub fn unsupported_with_detail(node_type: &str, detail: &str) -> (error: Self)
        ensures
            error@ == TooComplexView::unsupported_with_detail(node_type@, detail@),
    {
        TooComplex {
            reason: TooComplexReason::UnsupportedNode,
            node_type: Some(node_type.to_owned()),
            detail: Some(detail.to_owned()),
        }
    }

    /// A construct whose value is only known at run time.
    pub fn dynamic(node_type: &str, detail: &str) -> (error: Self)
        ensures
            error@ == TooComplexView::dynamic(node_type@, detail@),
    {
        TooComplex {
            reason: TooComplexReason::DynamicExpansion,
            node_type: Some(node_type.to_owned()),
            detail: Some(detail.to_owned()),
        }
    }

    /// A tree whose shape is not accepted.
    pub fn invalid_structure(detail: &str) -> (error: Self)
        ensures
            error@ == TooComplexView::invalid_structure(detail@),
    {
        TooComplex {
            reason: TooComplexReason::InvalidStructure,
            node_type: None,
            detail: Some(detail.to_owned()),
        }
    }

    /// A configured resource limit was exceeded.
    pub fn limit(node_type: &str, detail: &str) -> (error: Self)
        ensures
            error@ == TooComplexView::limit(node_type@, detail@),
    {
        TooComplex {
            reason: TooComplexReason::LimitExceeded,
            node_type: Some(node_type.to_owned()),
            detail: Some(detail.to_owned()),
        }
    }

    /// The source holds characters that shells and parsers may disagree on.
    pub fn suspicious(detail: &str) -> (error: Self)
        ensures
            error@ == TooComplexView::suspicious(detail@),
    {
        TooComplex {
            reason: TooComplexReason::SuspiciousInput,
            node_type: None,
            detail: Some(detail.to_owned()),
        }
    }

    /// The parser gave up (timeout or cancellation).
    pub fn parser_aborted(detail: &str) -> (error: Self)
        ensures
            error@ == TooComplexView::parser_aborted(detail@),
    {
        TooComplex {
            reason: TooComplexReason::ParserAborted,
            node_type: Some("PARSE_ABORT".to_owned()),
            detail: Some(detail.to_owned()),
        }
    }

    /// The parser produced an `ERROR` or missing node.
    pub fn error_node(node_type: &str) -> (error: Self)
        ensures
            error@ == TooComplexView::error_node(node_type@),
    {
        TooComplex {
            reason: TooComplexReason::ErrorNode,
            node_type: Some(node_type.to_owned()),
            detail: Some("tree-sitter produced an ERROR or missing node".to_owned()),
        }
    }
}

/// The parser could not be set up.
#[derive(Debug, Clone, PartialEq, Eq)]
pub struct ParseError {
    pub message: String,
}

/// The outcome of gating one Bash source string.
#[derive(Debug, Clone, PartialEq, Eq)]
pub enum GateResult {
    Parsed(ParsedProgram),
    TooComplex(TooComplex),
    ParseError(ParseError),
}

pub enum GateResultView {
    Parsed(ParsedProgramView),
    TooComplex(TooComplexView),
    ParseError(Seq<char>),
}

impl View for GateResult {
    type V = GateResultView;

    open spec fn view(&self) -> GateResultView {
        match self {
            GateResult::Parsed(p) => GateResultView::Parsed(p@),
            GateResult::TooComplex(t) => GateResultView::TooComplex(t@),
            GateResult::ParseError(e) => GateResultView::ParseError(e.message@),
        }
    }
}

impl GateResultView {
    pub open spec fn kind(self) -> Seq<char> {
        match self {
            GateResultView::Parsed(_) => "parsed"@,
            GateResultView::TooComplex(_) => "too_complex"@,
            GateResultView::ParseError(_) => "parse_error"@,
        }
    }
}

impl GateResult {
    /// The result's tag: `parsed`, `too_complex` or `parse_error`.
    pub fn kind(&self) -> (tag: &'static str)
        ensures
            tag@ == self@.kind(),
    {
        match self {
            GateResult::Parsed(_) => "parsed",
            GateResult::TooComplex(_) => "too_complex",
            GateResult::ParseError(_) => "parse_error",
        }
    }
}

} // verus!
