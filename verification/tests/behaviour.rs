use bashgate::{
    BashGate, GateResult, ParseLimits, ParsedProgram, Redirect, RedirectOp, Span, TooComplex,
    TooComplexReason,
};

fn parsed(source: &str) -> ParsedProgram {
    match bashgate::parse(source) {
        GateResult::Parsed(program) => program,
        other => panic!("expected Parsed for {source:?}, got {other:?}"),
    }
}

fn too_complex(source: &str) -> TooComplex {
    match bashgate::parse(source) {
        GateResult::TooComplex(error) => error,
        other => panic!("expected TooComplex for {source:?}, got {other:?}"),
    }
}

fn argv(program: &ParsedProgram) -> Vec<Vec<&str>> {
    program
        .commands
        .iter()
        .map(|command| command.argv.iter().map(String::as_str).collect())
        .collect()
}

fn operators(program: &ParsedProgram) -> Vec<&str> {
    program
        .operators
        .iter()
        .map(|operator| operator.op.as_str())
        .collect()
}

fn limit_error(gate: &BashGate, source: &str) -> TooComplex {
    match gate.parse(source) {
        GateResult::TooComplex(error) => error,
        other => panic!("expected limit failure for {source:?}, got {other:?}"),
    }
}

#[test]
fn parses_basic_commands() {
    let cases = [
        ("echo hello", vec!["echo", "hello"]),
        ("git status", vec!["git", "status"]),
        ("cat 'a b.txt'", vec!["cat", "a b.txt"]),
    ];

    for (source, expected) in cases {
        let program = parsed(source);
        assert_eq!(program.commands.len(), 1);
        assert_eq!(program.commands[0].argv, expected);
        assert_eq!(program.commands[0].text, source);
        assert_eq!(program.commands[0].span.start_byte, 0);
        assert_eq!(program.commands[0].span.end_byte, source.len());
    }
}

#[test]
fn preserves_original_source_and_trims_command_span_only_via_ast() {
    let source = "  echo hello  ";
    let program = parsed(source);

    assert_eq!(program.source, source);
    assert_eq!(program.commands[0].text, "echo hello");
    assert_eq!(program.commands[0].span.start_byte, 2);
    assert_eq!(program.commands[0].span.end_byte, 12);
}

#[test]
fn parses_static_literal_concatenation() {
    let program = parsed(r#"echo pre"mid"'post'"#);
    assert_eq!(argv(&program), vec![vec!["echo", "premidpost"]]);
}

#[test]
fn parses_empty_and_whitespace_only_input() {
    for source in ["", "   ", "\t\n"] {
        let program = parsed(source);
        assert!(program.commands.is_empty());
        assert!(program.operators.is_empty());
        assert_eq!(program.source, source);
    }
}

#[test]
fn parses_compound_operators() {
    let cases = [
        ("a && b", vec!["&&"]),
        ("a || b", vec!["||"]),
        ("a ; b", vec![";"]),
        ("a &", vec!["&"]),
        ("a\nb", vec!["\n"]),
    ];

    for (source, expected_operators) in cases {
        let program = parsed(source);
        assert_eq!(program.commands.len(), source.matches('b').count() + 1);
        assert_eq!(operators(&program), expected_operators, "source: {source}");
    }
}

#[test]
fn mixed_structures_are_sorted_by_source_position() {
    let cases = [
        (
            "a | b && c | d",
            vec![vec!["a"], vec!["b"], vec!["c"], vec!["d"]],
            vec!["|", "&&", "|"],
        ),
        (
            "a && b || c",
            vec![vec!["a"], vec!["b"], vec!["c"]],
            vec!["&&", "||"],
        ),
        (
            "a ; b | c",
            vec![vec!["a"], vec!["b"], vec!["c"]],
            vec![";", "|"],
        ),
    ];

    for (source, expected_argv, expected_operators) in cases {
        let program = parsed(source);
        assert_eq!(argv(&program), expected_argv, "source: {source}");
        assert_eq!(operators(&program), expected_operators, "source: {source}");
    }
}

#[test]
fn comments_do_not_become_commands() {
    let source = "a # note\nb";
    let program = parsed(source);
    assert_eq!(argv(&program), vec![vec!["a"], vec!["b"]]);
    assert_eq!(operators(&program), ["\n"]);
    assert_eq!(
        program.operators[0].span,
        Span {
            start_byte: 8,
            end_byte: 9,
        }
    );
}

#[test]
fn newline_after_an_explicit_operator_is_not_a_second_boundary() {
    let cases = [
        ("a &&\nb", vec!["&&"]),
        ("a ||\nb", vec!["||"]),
        ("a |\nb", vec!["|"]),
        ("a |&\nb", vec!["|&"]),
        ("a ;\nb", vec![";"]),
        ("a &\nb", vec!["&"]),
    ];

    for (source, expected_operators) in cases {
        let program = parsed(source);
        assert_eq!(argv(&program), vec![vec!["a"], vec!["b"]]);
        assert_eq!(operators(&program), expected_operators, "source: {source}");
    }
}

#[test]
fn rejects_control_flow_and_other_non_mvp_statements() {
    let cases = [
        ("for x in a; do echo x; done", "for_statement"),
        ("while true; do echo x; done", "while_statement"),
        ("if true; then echo x; fi", "if_statement"),
        ("case x in x) echo y;; esac", "case_statement"),
        ("f() { echo x; }", "function_definition"),
        ("(echo x)", "subshell"),
        ("[ -f file ]", "test_command"),
    ];

    for (source, node_type) in cases {
        let error = too_complex(source);
        assert_eq!(error.reason, TooComplexReason::UnsupportedNode);
        assert_eq!(error.node_type.as_deref(), Some(node_type));
    }
}

#[test]
fn extracts_leading_environment_assignments() {
    let program = parsed(r#"FOO=bar BAR="hello world" node app.js"#);
    let command = &program.commands[0];

    assert_eq!(command.argv, ["node", "app.js"]);
    assert_eq!(command.env.len(), 2);
    assert_eq!(command.env[0].name, "FOO");
    assert_eq!(command.env[0].value, "bar");
    assert_eq!(command.env[1].name, "BAR");
    assert_eq!(command.env[1].value, "hello world");
}

#[test]
fn supports_empty_assignment_values() {
    let program = parsed("EMPTY= env");
    assert_eq!(program.commands[0].env[0].name, "EMPTY");
    assert_eq!(program.commands[0].env[0].value, "");
    assert_eq!(program.commands[0].argv, ["env"]);
}

#[test]
fn redirects_before_the_executable_do_not_become_argv_or_env() {
    let program = parsed("FOO=bar 2>error.log command arg");
    let command = &program.commands[0];
    assert_eq!(command.env[0].name, "FOO");
    assert_eq!(command.argv, ["command", "arg"]);
    assert_eq!(command.redirects.len(), 1);
}

#[test]
fn rejects_dynamic_append_and_array_assignments() {
    let cases = [
        "FOO=$BAR command",
        "FOO=$(date) command",
        "FOO+=bar command",
        "ARR=(a b) command",
    ];

    for source in cases {
        let error = too_complex(source);
        assert!(matches!(
            error.reason,
            TooComplexReason::DynamicExpansion | TooComplexReason::UnsupportedNode
        ));
    }
}

#[test]
fn parses_declaration_commands_as_commands_not_environment_prefixes() {
    let program = parsed(r#"export FOO="hello world""#);
    assert_eq!(program.commands[0].argv, ["export", "FOO=hello world"]);
    assert!(program.commands[0].env.is_empty());
}

#[test]
fn operator_spans_remain_available_in_rust_ir() {
    let program = parsed("a && b");
    assert_eq!(program.operators[0].span.start_byte, 2);
    assert_eq!(program.operators[0].span.end_byte, 4);
}

#[test]
fn enforces_max_command_bytes() {
    let gate = BashGate::new(ParseLimits {
        max_command_bytes: 4,
        ..ParseLimits::default()
    });
    let error = limit_error(&gate, "echo x");
    assert_eq!(error.reason, TooComplexReason::LimitExceeded);
    assert_eq!(error.node_type.as_deref(), Some("max_command_bytes"));
}

#[test]
fn enforces_max_commands() {
    let gate = BashGate::new(ParseLimits {
        max_commands: 1,
        ..ParseLimits::default()
    });
    let error = limit_error(&gate, "a ; b");
    assert_eq!(error.reason, TooComplexReason::LimitExceeded);
    assert_eq!(error.node_type.as_deref(), Some("max_commands"));
}

#[test]
fn enforces_ast_node_budget() {
    let gate = BashGate::new(ParseLimits {
        max_nodes: 1,
        ..ParseLimits::default()
    });
    let error = limit_error(&gate, "echo hello");
    assert_eq!(error.reason, TooComplexReason::LimitExceeded);
    assert_eq!(error.node_type.as_deref(), Some("max_nodes"));
}

#[test]
fn enforces_ast_depth_budget() {
    let gate = BashGate::new(ParseLimits {
        max_depth: 0,
        ..ParseLimits::default()
    });
    let error = limit_error(&gate, "echo hello");
    assert_eq!(error.reason, TooComplexReason::LimitExceeded);
    assert_eq!(error.node_type.as_deref(), Some("max_depth"));
}

#[test]
fn malformed_bash_never_masquerades_as_parsed() {
    for source in ["echo 'unterminated", "echo \"unterminated", "a &&", "| a"] {
        let error = too_complex(source);
        assert!(matches!(
            error.reason,
            TooComplexReason::ErrorNode
                | TooComplexReason::UnsupportedNode
                | TooComplexReason::InvalidStructure
        ));
    }
}

#[test]
fn known_dynamic_ast_nodes_are_fail_closed() {
    let cases = [
        ("echo $(date)", "command_substitution"),
        ("cat <(producer)", "process_substitution"),
        ("echo ${NAME}", "expansion"),
        ("echo $NAME", "simple_expansion"),
        ("echo $((1 + 2))", "arithmetic_expansion"),
    ];

    for (source, node_type) in cases {
        let error = too_complex(source);
        assert_eq!(error.reason, TooComplexReason::DynamicExpansion);
        assert_eq!(error.node_type.as_deref(), Some(node_type));
    }
}

#[test]
fn parses_multi_stage_pipeline() {
    let program = parsed("cat a | grep foo | head -10");

    assert_eq!(
        argv(&program),
        vec![vec!["cat", "a"], vec!["grep", "foo"], vec!["head", "-10"],]
    );
    assert_eq!(operators(&program), ["|", "|"]);
    assert_eq!(program.commands[0].text, "cat a");
    assert_eq!(program.commands[1].text, "grep foo");
    assert_eq!(program.commands[2].text, "head -10");
}

#[test]
fn parses_pipe_both() {
    let program = parsed("producer |& consumer");
    assert_eq!(argv(&program), vec![vec!["producer"], vec!["consumer"]]);
    assert_eq!(operators(&program), ["|&"]);
}

#[test]
fn trailing_redirect_belongs_to_last_pipeline_command() {
    let source = "cat a | grep x >> result.txt";
    let program = parsed(source);

    assert!(program.commands[0].redirects.is_empty());
    assert_eq!(program.commands[1].redirects[0].target, "result.txt");
    assert_eq!(program.commands[1].text, "grep x >> result.txt");
    assert_eq!(program.commands[1].span.end_byte, source.len());
}

#[test]
fn pipe_inside_quotes_does_not_create_pipeline() {
    let program = parsed(r#"echo "left | right""#);
    assert_eq!(program.commands.len(), 1);
    assert!(program.operators.is_empty());
}

#[test]
fn quoted_operators_are_literal_arguments() {
    let cases = [
        (r#"echo "a | b""#, vec!["echo", "a | b"]),
        ("echo 'a && b'", vec!["echo", "a && b"]),
        (r#"printf '%s\n' "a;b""#, vec!["printf", "%s\\n", "a;b"]),
        (r#"echo ">""#, vec!["echo", ">"]),
    ];

    for (source, expected) in cases {
        let program = parsed(source);
        assert_eq!(program.commands[0].argv, expected);
        assert!(operators(&program).is_empty());
        assert!(program.commands[0].redirects.is_empty());
    }
}

#[test]
fn resolves_supported_double_quote_escapes() {
    let program = parsed(r#"echo "a\"b\\c\q""#);
    assert_eq!(argv(&program), vec![vec!["echo", "a\"b\\c\\q"]]);
}

#[test]
fn rejects_runtime_expansion_in_or_outside_quotes() {
    for source in [
        "echo $UNTRUSTED",
        "echo ${FOO}",
        "echo $((1+2))",
        r#"echo "$(git status)""#,
        r#"echo "$HOME""#,
    ] {
        let error = too_complex(source);
        assert!(matches!(
            error.reason,
            TooComplexReason::DynamicExpansion | TooComplexReason::UnsupportedNode
        ));
    }
}

#[test]
fn rejects_unquoted_shell_expansions() {
    for source in ["echo *.txt", "echo file?.txt", "echo {a,b}", "echo ~/src"] {
        assert_eq!(too_complex(source).reason, TooComplexReason::DynamicExpansion);
    }
}

#[test]
fn rejects_unquoted_backslash_interpretation() {
    let error = too_complex(r"echo foo\|bar");
    assert_eq!(error.reason, TooComplexReason::DynamicExpansion);
}

#[test]
fn extracts_file_redirects() {
    let cases = [
        (
            "cat a > b",
            Redirect {
                op: RedirectOp::Write,
                target: "b".to_owned(),
                fd: None,
            },
        ),
        (
            "echo x 2>> error.log",
            Redirect {
                op: RedirectOp::Append,
                target: "error.log".to_owned(),
                fd: Some(2),
            },
        ),
        (
            "read x < input.txt",
            Redirect {
                op: RedirectOp::Read,
                target: "input.txt".to_owned(),
                fd: None,
            },
        ),
        (
            "echo x &> all.log",
            Redirect {
                op: RedirectOp::WriteBoth,
                target: "all.log".to_owned(),
                fd: None,
            },
        ),
        (
            "echo x &>> all.log",
            Redirect {
                op: RedirectOp::AppendBoth,
                target: "all.log".to_owned(),
                fd: None,
            },
        ),
        (
            "echo hi 2>&1",
            Redirect {
                op: RedirectOp::DuplicateOutput,
                target: "1".to_owned(),
                fd: Some(2),
            },
        ),
        (
            "cat 0<&3",
            Redirect {
                op: RedirectOp::DuplicateInput,
                target: "3".to_owned(),
                fd: Some(0),
            },
        ),
        (
            "echo hi >| output",
            Redirect {
                op: RedirectOp::Clobber,
                target: "output".to_owned(),
                fd: None,
            },
        ),
    ];

    for (source, expected) in cases {
        let program = parsed(source);
        assert_eq!(program.commands.len(), 1, "source: {source}");
        assert_eq!(program.commands[0].redirects, [expected], "source: {source}");
        assert_eq!(program.commands[0].text, source);
        assert_eq!(program.commands[0].span.end_byte, source.len());
    }
}

#[test]
fn resolves_quoted_redirect_target_without_splitting() {
    let program = parsed(r#"cat input > "result file.txt""#);
    assert_eq!(program.commands[0].redirects[0].target, "result file.txt");
}

#[test]
fn quoted_redirect_symbols_are_not_redirects() {
    let program = parsed(r#"echo ">>""#);
    assert_eq!(program.commands[0].argv, ["echo", ">>"]);
    assert!(program.commands[0].redirects.is_empty());
}

#[test]
fn rejects_dynamic_redirect_targets_and_complex_redirect_forms() {
    for source in [
        r#"cat > "$OUT""#,
        "cat <<EOF\nbody\nEOF",
        "cat <<< input",
        "echo hi 2>&-",
    ] {
        let error = too_complex(source);
        assert!(matches!(
            error.reason,
            TooComplexReason::DynamicExpansion | TooComplexReason::UnsupportedNode
        ));
    }
}

#[test]
fn uses_utf8_byte_offsets() {
    let source = "echo café";
    let program = parsed(source);
    let command = &program.commands[0];

    assert_eq!(command.argv, ["echo", "café"]);
    assert_eq!(command.span.start_byte, 0);
    assert_eq!(command.span.end_byte, source.len());
    assert_eq!(source.len(), 10);
}

#[test]
fn accepts_visible_non_ascii_literal_text() {
    let source = "echo 你好";
    let program = parsed(source);
    assert_eq!(program.commands[0].argv, ["echo", "你好"]);
    assert_eq!(program.commands[0].span.end_byte, source.len());
}

#[test]
fn rejects_invisible_unicode_whitespace() {
    for character in ['\u{00A0}', '\u{200B}', '\u{2028}', '\u{FEFF}'] {
        let source = format!("echo{character}hidden");
        assert_eq!(
            too_complex(&source).reason,
            TooComplexReason::SuspiciousInput
        );
    }
}

#[test]
fn rejects_control_characters_and_parser_differentials() {
    for source in [
        "echo\0hidden",
        "echo\rhidden",
        "echo foo\\ bar",
        "tr\\\naceroute",
        "\\\necho ok",
        "echo \\\nok",
    ] {
        assert_eq!(
            too_complex(source).reason,
            TooComplexReason::SuspiciousInput,
            "source: {source:?}"
        );
    }
}
