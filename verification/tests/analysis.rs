use bashgate::input::strip_line_end;
use bashgate::limits::{HARD_MAX_DEPTH, HARD_MAX_NODES};
use bashgate::{
    BashGate, GateResult, OperatorOccurrence, ParseError, ParseLimits, ParsedProgram, RedirectOp,
    ShellOperator, Span, SyntaxNode, TooComplex, TooComplexReason,
};

fn leaf(kind: &str, named: bool, start: usize, end: usize) -> SyntaxNode {
    node(kind, named, start, end, Vec::new())
}

fn node(kind: &str, named: bool, start: usize, end: usize, children: Vec<SyntaxNode>) -> SyntaxNode {
    SyntaxNode {
        kind: kind.to_owned(),
        field: None,
        is_named: named,
        is_error: false,
        is_missing: false,
        start_byte: start,
        end_byte: end,
        children,
    }
}

/// The tree the grammar gives for `echo hi`.
fn echo_hi_tree() -> SyntaxNode {
    node(
        "program",
        true,
        0,
        7,
        vec![node(
            "command",
            true,
            0,
            7,
            vec![
                node("command_name", true, 0, 4, vec![leaf("word", true, 0, 4)]),
                leaf("word", true, 5, 7),
            ],
        )],
    )
}

fn analyzed(gate: &BashGate, source: &str, root: &SyntaxNode) -> GateResult {
    gate.analyze(source, root)
}

fn refusal(result: GateResult) -> TooComplex {
    match result {
        GateResult::TooComplex(error) => error,
        other => panic!("expected TooComplex, got {other:?}"),
    }
}

fn program(result: GateResult) -> ParsedProgram {
    match result {
        GateResult::Parsed(program) => program,
        other => panic!("expected Parsed, got {other:?}"),
    }
}

#[test]
fn analyze_reads_a_hand_built_tree() {
    let gate = BashGate::default();
    let parsed = program(analyzed(&gate, "echo hi", &echo_hi_tree()));
    assert_eq!(parsed.source, "echo hi");
    assert_eq!(parsed.commands.len(), 1);
    assert_eq!(parsed.commands[0].argv, vec!["echo", "hi"]);
    assert_eq!(parsed.commands[0].text, "echo hi");
    assert_eq!(parsed.commands[0].span, Span { start_byte: 0, end_byte: 7 });
    assert!(parsed.operators.is_empty());
}

#[test]
fn analyze_agrees_with_parse_on_the_grammar_tree() {
    let gate = BashGate::default();
    assert_eq!(analyzed(&gate, "echo hi", &echo_hi_tree()), gate.parse("echo hi"));
}

#[test]
fn analyze_refuses_error_nodes() {
    let gate = BashGate::default();
    let root = node("program", true, 0, 7, vec![leaf("ERROR", true, 0, 7)]);
    let error = refusal(analyzed(&gate, "echo hi", &root));
    assert_eq!(error.reason, TooComplexReason::ErrorNode);
    assert_eq!(error.node_type.as_deref(), Some("ERROR"));
    assert_eq!(
        error.detail.as_deref(),
        Some("tree-sitter produced an ERROR or missing node")
    );
}

#[test]
fn analyze_refuses_missing_nodes() {
    let gate = BashGate::default();
    let mut root = echo_hi_tree();
    root.children[0].children[1].is_missing = true;
    let error = refusal(analyzed(&gate, "echo hi", &root));
    assert_eq!(error, TooComplex::error_node("word"));
}

#[test]
fn analyze_reports_the_node_budget_with_its_number() {
    let gate = BashGate::new(ParseLimits { max_nodes: 1, ..ParseLimits::default() });
    let error = refusal(analyzed(&gate, "echo hi", &echo_hi_tree()));
    assert_eq!(error.reason, TooComplexReason::LimitExceeded);
    assert_eq!(error.node_type.as_deref(), Some("max_nodes"));
    assert_eq!(
        error.detail.as_deref(),
        Some("AST node count exceeds configured maximum of 1")
    );
}

#[test]
fn analyze_reports_the_depth_budget_with_its_number() {
    let gate = BashGate::new(ParseLimits { max_depth: 0, ..ParseLimits::default() });
    let error = refusal(analyzed(&gate, "echo hi", &echo_hi_tree()));
    assert_eq!(
        error,
        TooComplex::limit("max_depth", "AST depth exceeds configured maximum of 0")
    );
}

#[test]
fn analyze_accepts_a_tree_exactly_at_the_budgets() {
    // five nodes, three levels below the root
    let gate = BashGate::new(ParseLimits { max_nodes: 5, max_depth: 3, ..ParseLimits::default() });
    let parsed = program(analyzed(&gate, "echo hi", &echo_hi_tree()));
    assert_eq!(parsed.commands[0].argv, vec!["echo", "hi"]);

    let gate = BashGate::new(ParseLimits { max_nodes: 4, ..ParseLimits::default() });
    let error = refusal(analyzed(&gate, "echo hi", &echo_hi_tree()));
    assert_eq!(error.node_type.as_deref(), Some("max_nodes"));

    let gate = BashGate::new(ParseLimits { max_depth: 2, ..ParseLimits::default() });
    let error = refusal(analyzed(&gate, "echo hi", &echo_hi_tree()));
    assert_eq!(error.node_type.as_deref(), Some("max_depth"));
}

#[test]
fn analyze_refuses_unknown_statements() {
    let gate = BashGate::default();
    let root = node("program", true, 0, 7, vec![leaf("for_statement", true, 0, 7)]);
    assert_eq!(
        refusal(analyzed(&gate, "echo hi", &root)),
        TooComplex::unsupported("for_statement")
    );
}

#[test]
fn analyze_refuses_a_command_without_a_name() {
    let gate = BashGate::default();
    let root = node(
        "program",
        true,
        0,
        7,
        vec![node("command", true, 0, 7, vec![leaf("variable_name", true, 0, 4)])],
    );
    assert_eq!(
        refusal(analyzed(&gate, "echo hi", &root)).reason,
        TooComplexReason::UnsupportedNode
    );

    let root = node("program", true, 0, 7, vec![leaf("command", true, 0, 7)]);
    assert_eq!(
        refusal(analyzed(&gate, "echo hi", &root)),
        TooComplex::invalid_structure("command did not contain a statically resolvable executable")
    );
}

#[test]
fn analyze_refuses_two_command_names() {
    let gate = BashGate::default();
    let root = node(
        "program",
        true,
        0,
        7,
        vec![node(
            "command",
            true,
            0,
            7,
            vec![
                node("command_name", true, 0, 4, vec![leaf("word", true, 0, 4)]),
                node("command_name", true, 5, 7, vec![leaf("word", true, 5, 7)]),
            ],
        )],
    );
    assert_eq!(
        refusal(analyzed(&gate, "echo hi", &root)),
        TooComplex::invalid_structure("command contains more than one command_name node")
    );
}

#[test]
fn analyze_refuses_spans_inside_a_character() {
    let gate = BashGate::default();
    // "é" takes two bytes; a word that ends after the first one is refused.
    let root = node(
        "program",
        true,
        0,
        2,
        vec![node(
            "command",
            true,
            0,
            2,
            vec![node("command_name", true, 0, 1, vec![leaf("word", true, 0, 1)])],
        )],
    );
    assert_eq!(
        refusal(analyzed(&gate, "é", &root)),
        TooComplex::invalid_structure("tree-sitter span 0..1 is not a UTF-8 boundary")
    );
}

#[test]
fn analyze_counts_command_names_children() {
    let gate = BashGate::default();
    let root = node(
        "program",
        true,
        0,
        7,
        vec![node(
            "command",
            true,
            0,
            7,
            vec![node(
                "command_name",
                true,
                0,
                7,
                vec![leaf("word", true, 0, 4), leaf("word", true, 5, 7)],
            )],
        )],
    );
    assert_eq!(
        refusal(analyzed(&gate, "echo hi", &root)),
        TooComplex::invalid_structure("command_name must contain exactly one literal child, found 2")
    );
}

#[test]
fn analyze_applies_source_checks_before_the_tree() {
    let gate = BashGate::new(ParseLimits { max_command_bytes: 4, ..ParseLimits::default() });
    let root = node("program", true, 0, 7, vec![leaf("ERROR", true, 0, 7)]);
    assert_eq!(
        refusal(analyzed(&gate, "echo hi", &root)),
        TooComplex::limit(
            "max_command_bytes",
            "command is 7 bytes; configured maximum is 4 bytes"
        )
    );
    let blank = program(analyzed(&BashGate::default(), "  \n\t", &root));
    assert_eq!(blank.source, "  \n\t");
    assert!(blank.commands.is_empty());
    assert!(blank.operators.is_empty());
}

#[test]
fn byte_limit_counts_utf8_bytes_not_characters() {
    // three characters, six bytes
    let gate = BashGate::new(ParseLimits { max_command_bytes: 5, ..ParseLimits::default() });
    assert_eq!(
        refusal(gate.parse("ééé")),
        TooComplex::limit(
            "max_command_bytes",
            "command is 6 bytes; configured maximum is 5 bytes"
        )
    );
    let gate = BashGate::new(ParseLimits { max_command_bytes: 6, ..ParseLimits::default() });
    assert!(matches!(gate.parse("echo é"), GateResult::TooComplex(_)));
    assert!(matches!(gate.parse("ééé"), GateResult::Parsed(_)));
}

#[test]
fn command_count_limit_names_the_limit() {
    let gate = BashGate::new(ParseLimits { max_commands: 1, ..ParseLimits::default() });
    assert_eq!(
        refusal(gate.parse("a; b")),
        TooComplex::limit("max_commands", "command count exceeds configured maximum of 1")
    );
    assert!(matches!(gate.parse("a"), GateResult::Parsed(_)));
}

#[test]
fn newline_between_statements_is_an_operator_with_its_byte() {
    let parsed = program(bashgate::parse("a\nb"));
    assert_eq!(parsed.commands.len(), 2);
    assert_eq!(
        parsed.operators,
        vec![OperatorOccurrence {
            op: ShellOperator::Newline,
            span: Span { start_byte: 1, end_byte: 2 },
        }]
    );
}

#[test]
fn blank_lines_between_statements_give_one_newline_operator() {
    let parsed = program(bashgate::parse("a\n\n\nb"));
    assert_eq!(parsed.commands.len(), 2);
    assert_eq!(parsed.operators.len(), 1);
    assert_eq!(parsed.operators[0].span, Span { start_byte: 1, end_byte: 2 });
}

#[test]
fn adjacent_descriptor_number_moves_into_the_redirect() {
    let parsed = program(bashgate::parse("cat 0<&3"));
    assert_eq!(parsed.commands[0].argv, vec!["cat"]);
    let redirect = &parsed.commands[0].redirects[0];
    assert_eq!(redirect.fd, Some(0));
    assert_eq!(redirect.op, RedirectOp::DuplicateInput);
    assert_eq!(redirect.target, "3");
}

#[test]
fn separated_number_stays_an_argument() {
    let parsed = program(bashgate::parse("cat 0 <&3"));
    assert_eq!(parsed.commands[0].argv, vec!["cat", "0"]);
    assert_eq!(parsed.commands[0].redirects[0].fd, None);
}

#[test]
fn double_quote_escapes_resolve_to_single_characters() {
    let parsed = program(bashgate::parse(r#"echo "a\"b\\c\$d""#));
    assert_eq!(parsed.commands[0].argv, vec!["echo", r#"a"b\c$d"#]);
}

#[test]
fn every_command_text_is_the_source_slice_of_its_span() {
    let source = "A=1 cat 'x y' > out.txt | grep -v é && echo done; ls &";
    let parsed = program(bashgate::parse(source));
    assert_eq!(parsed.commands.len(), 4);
    for command in &parsed.commands {
        assert!(!command.argv.is_empty());
        assert_eq!(command.text, &source[command.span.start_byte..command.span.end_byte]);
        for assignment in &command.env {
            assert!(assignment.name.chars().all(|c| c == '_' || c.is_ascii_alphanumeric()));
        }
    }
}

#[test]
fn output_is_in_source_order() {
    let parsed = program(bashgate::parse("a | b && c | d; e"));
    let starts: Vec<usize> = parsed.commands.iter().map(|c| c.span.start_byte).collect();
    let mut sorted = starts.clone();
    sorted.sort();
    assert_eq!(starts, sorted);
    let ops: Vec<usize> = parsed.operators.iter().map(|o| o.span.start_byte).collect();
    let mut sorted_ops = ops.clone();
    sorted_ops.sort();
    assert_eq!(ops, sorted_ops);
    let spelled: Vec<&str> = parsed.operators.iter().map(|o| o.op.as_str()).collect();
    assert_eq!(spelled, vec!["|", "&&", "|", ";"]);
}

#[test]
fn suspicious_inputs_are_refused_before_parsing() {
    for source in ["echo a\\\nb", "echo a\\ b", "echo a\u{0007}", "echo\u{00a0}a"] {
        let error = refusal(bashgate::parse(source));
        assert_eq!(error.reason, TooComplexReason::SuspiciousInput, "{source:?}");
        assert_eq!(error.node_type, None);
    }
}

#[test]
fn operator_spellings() {
    let expected = [
        (ShellOperator::And, "&&"),
        (ShellOperator::Or, "||"),
        (ShellOperator::Pipe, "|"),
        (ShellOperator::PipeBoth, "|&"),
        (ShellOperator::Sequence, ";"),
        (ShellOperator::Background, "&"),
        (ShellOperator::Newline, "\n"),
    ];
    for (op, text) in expected {
        assert_eq!(op.as_str(), text);
    }
}

#[test]
fn redirect_spellings() {
    let expected = [
        (RedirectOp::Write, ">"),
        (RedirectOp::Append, ">>"),
        (RedirectOp::Read, "<"),
        (RedirectOp::HereDoc, "<<"),
        (RedirectOp::DuplicateOutput, ">&"),
        (RedirectOp::Clobber, ">|"),
        (RedirectOp::DuplicateInput, "<&"),
        (RedirectOp::WriteBoth, "&>"),
        (RedirectOp::AppendBoth, "&>>"),
        (RedirectOp::HereString, "<<<"),
    ];
    for (op, text) in expected {
        assert_eq!(op.as_str(), text);
    }
}

#[test]
fn result_kinds() {
    assert_eq!(bashgate::parse("echo").kind(), "parsed");
    assert_eq!(bashgate::parse("echo $X").kind(), "too_complex");
    let error = GateResult::ParseError(ParseError { message: "m".to_owned() });
    assert_eq!(error.kind(), "parse_error");
}

#[test]
fn refusal_constructors_fill_their_fields() {
    let e = TooComplex::unsupported("if_statement");
    assert_eq!(
        (e.reason, e.node_type.as_deref(), e.detail.as_deref()),
        (TooComplexReason::UnsupportedNode, Some("if_statement"), None)
    );
    let e = TooComplex::unsupported_with_detail("heredoc_redirect", "no heredocs");
    assert_eq!(
        (e.reason, e.node_type.as_deref(), e.detail.as_deref()),
        (TooComplexReason::UnsupportedNode, Some("heredoc_redirect"), Some("no heredocs"))
    );
    let e = TooComplex::dynamic("expansion", "runtime");
    assert_eq!(
        (e.reason, e.node_type.as_deref(), e.detail.as_deref()),
        (TooComplexReason::DynamicExpansion, Some("expansion"), Some("runtime"))
    );
    let e = TooComplex::invalid_structure("bad");
    assert_eq!(
        (e.reason, e.node_type.as_deref(), e.detail.as_deref()),
        (TooComplexReason::InvalidStructure, None, Some("bad"))
    );
    let e = TooComplex::limit("max_nodes", "too many");
    assert_eq!(
        (e.reason, e.node_type.as_deref(), e.detail.as_deref()),
        (TooComplexReason::LimitExceeded, Some("max_nodes"), Some("too many"))
    );
    let e = TooComplex::suspicious("odd");
    assert_eq!(
        (e.reason, e.node_type.as_deref(), e.detail.as_deref()),
        (TooComplexReason::SuspiciousInput, None, Some("odd"))
    );
    let e = TooComplex::parser_aborted("timeout");
    assert_eq!(
        (e.reason, e.node_type.as_deref(), e.detail.as_deref()),
        (TooComplexReason::ParserAborted, Some("PARSE_ABORT"), Some("timeout"))
    );
    let e = TooComplex::error_node("MISSING");
    assert_eq!(
        (e.reason, e.node_type.as_deref(), e.detail.as_deref()),
        (
            TooComplexReason::ErrorNode,
            Some("MISSING"),
            Some("tree-sitter produced an ERROR or missing node")
        )
    );
}

#[test]
fn default_limits_and_effective_caps() {
    let limits = ParseLimits::default();
    assert_eq!(limits.max_command_bytes, 10_000);
    assert_eq!(limits.max_nodes, 50_000);
    assert_eq!(limits.max_commands, 1_024);
    assert_eq!(limits.max_depth, 256);
    assert_eq!(limits.parse_timeout_micros, 50_000);
    assert_eq!(BashGate::default().limits(), limits);

    let wide = ParseLimits {
        max_nodes: usize::MAX,
        max_depth: usize::MAX,
        parse_timeout_micros: 0,
        ..limits
    };
    assert_eq!(wide.effective_max_nodes(), HARD_MAX_NODES);
    assert_eq!(wide.effective_max_depth(), HARD_MAX_DEPTH);
    assert_eq!(wide.effective_timeout_micros(), 1);
    assert_eq!(limits.effective_max_nodes(), 50_000);
    assert_eq!(limits.effective_max_depth(), 256);
    assert_eq!(limits.effective_timeout_micros(), 50_000);

    let custom = ParseLimits { max_commands: 3, ..limits };
    assert_eq!(BashGate::new(custom).limits(), custom);
}

#[test]
fn syntax_node_helpers() {
    let mut root = node(
        "command",
        true,
        0,
        7,
        vec![leaf("(", false, 0, 1), leaf("word", true, 1, 3), leaf("word", true, 4, 7)],
    );
    assert_eq!(root.named_child_count(), 2);
    assert_eq!(root.first_named_child(), Some(1));
    assert_eq!(root.field_position("name"), None);
    root.children[2].field = Some("name".to_owned());
    assert_eq!(root.field_position("name"), Some(2));
    assert_eq!(root.field(root.field_position("name")).map(|c| c.start_byte), Some(4));
    assert!(root.field(Some(9)).is_none());
    assert!(root.field(None).is_none());
    assert_eq!(leaf("x", true, 0, 0).first_named_child(), None);
}

#[test]
fn deeply_nested_input_is_refused() {
    let depth = 4_000;
    let source = format!("{}a{}", "(".repeat(depth), ")".repeat(depth));
    let error = refusal(bashgate::parse(&source));
    assert_eq!(error.reason, TooComplexReason::LimitExceeded);
    assert_eq!(error.node_type.as_deref(), Some("max_depth"));

    let source = format!("{}a{}", "( ".repeat(depth), " )".repeat(depth));
    assert!(matches!(bashgate::parse(&source), GateResult::TooComplex(_)));
}

#[test]
fn redirected_statement_body_is_found_by_its_label() {
    let gate = BashGate::default();
    // "echo hi >o": the grammar labels the command `body`.
    let mut command = node(
        "command",
        true,
        0,
        7,
        vec![
            node("command_name", true, 0, 4, vec![leaf("word", true, 0, 4)]),
            leaf("word", true, 5, 7),
        ],
    );
    command.field = Some("body".to_owned());
    let mut target = leaf("word", true, 9, 10);
    target.field = Some("destination".to_owned());
    let redirect = node("file_redirect", true, 8, 10, vec![leaf(">", false, 8, 9), target]);
    let statement = node("redirected_statement", true, 0, 10, vec![command, redirect]);
    let root = node("program", true, 0, 10, vec![statement]);
    let parsed = program(analyzed(&gate, "echo hi >o", &root));
    assert_eq!(parsed.commands[0].argv, vec!["echo", "hi"]);
    assert_eq!(parsed.commands[0].redirects[0].target, "o");
    assert_eq!(analyzed(&gate, "echo hi >o", &root), gate.parse("echo hi >o"));

    let mut unlabelled = root;
    unlabelled.children[0].children[0].field = None;
    assert_eq!(
        refusal(analyzed(&gate, "echo hi >o", &unlabelled)),
        TooComplex::invalid_structure(
            "redirected_statement without a body is not supported in the MVP"
        )
    );
}

#[test]
fn stdin_line_end_is_stripped_once() {
    assert_eq!(strip_line_end("echo hello\n"), "echo hello");
    assert_eq!(strip_line_end("echo hello\r\n"), "echo hello");
    assert_eq!(strip_line_end("echo hello\n\n"), "echo hello\n");
    assert_eq!(strip_line_end("echo hello\r"), "echo hello\r");
    assert_eq!(strip_line_end("echo hello"), "echo hello");
    assert_eq!(strip_line_end("\r\n"), "");
    assert_eq!(strip_line_end(""), "");
}

#[test]
fn escaped_backslash_before_newline_is_not_word_joining() {
    let source = "echo \"a\\\\\nb\"";
    let parsed = program(bashgate::parse(source));
    assert_eq!(parsed.commands[0].argv, vec!["echo", "a\\\nb"]);
    for source in ["a\\\nb", "\\\necho ok", "echo \\\nok"] {
        assert_eq!(refusal(bashgate::parse(source)).reason, TooComplexReason::SuspiciousInput);
    }
}

#[test]
fn decide_maps_each_parser_event_to_its_result() {
    let gate = BashGate::default();
    let message = "failed to load the tree-sitter-bash grammar: bad ABI".to_owned();
    assert_eq!(
        gate.decide("echo hi", Err(message.clone())),
        GateResult::ParseError(ParseError { message })
    );
    assert_eq!(
        refusal(gate.decide("echo hi", Ok(None))),
        TooComplex::parser_aborted("tree-sitter parsing timed out or was cancelled")
    );
    assert_eq!(
        gate.decide("echo hi", Ok(Some(echo_hi_tree()))),
        gate.analyze("echo hi", &echo_hi_tree())
    );
    // checks on the source come before any parser event
    let tight = BashGate::new(ParseLimits { max_command_bytes: 3, ..ParseLimits::default() });
    assert_eq!(
        refusal(tight.decide("echo hi", Err("x".to_owned()))).node_type.as_deref(),
        Some("max_command_bytes")
    );
    assert!(matches!(gate.decide(" \n", Ok(None)), GateResult::Parsed(_)));
}

#[test]
fn loosening_limits_keeps_an_accepted_program() {
    let tight = ParseLimits { max_command_bytes: 7, max_nodes: 5, max_commands: 1, max_depth: 3, ..ParseLimits::default() };
    let loose = ParseLimits { max_command_bytes: 100, max_nodes: 500, max_commands: 10, max_depth: 30, ..tight };
    let accepted = BashGate::new(tight).analyze("echo hi", &echo_hi_tree());
    assert!(matches!(accepted, GateResult::Parsed(_)));
    assert_eq!(BashGate::new(loose).analyze("echo hi", &echo_hi_tree()), accepted);
}

#[test]
fn only_oversized_sources_get_the_byte_limit_refusal() {
    let gate = BashGate::new(ParseLimits { max_commands: 0, max_command_bytes: 7, ..ParseLimits::default() });
    let error = refusal(gate.parse("echo hi"));
    assert_eq!(error.node_type.as_deref(), Some("max_commands"));
    let error = refusal(gate.parse("echo hi!"));
    assert_eq!(error.node_type.as_deref(), Some("max_command_bytes"));
}

#[test]
fn ordinary_whitespace_and_text_pass_the_prechecks() {
    assert!(matches!(bashgate::parse("a\tb\nc"), GateResult::Parsed(_)));
    assert!(matches!(bashgate::parse("echo 你好"), GateResult::Parsed(_)));
    for source in ["echo a\\\tb", "echo a\\ b", "echo\u{0}x", "echo\u{7f}x", "echo\u{2028}x"] {
        let error = refusal(bashgate::parse(source));
        assert_eq!(error.reason, TooComplexReason::SuspiciousInput, "{source:?}");
        assert_eq!(error.node_type, None);
    }
}

#[test]
fn a_declaration_past_the_command_budget_is_refused() {
    let gate = BashGate::new(ParseLimits { max_commands: 1, ..ParseLimits::default() });
    assert_eq!(
        refusal(gate.parse("echo a; export X=1")),
        TooComplex::limit("max_commands", "command count exceeds configured maximum of 1")
    );
    assert!(matches!(gate.parse("export X=1"), GateResult::Parsed(_)));
}
